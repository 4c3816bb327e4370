//! Songs: a title and the sections Selah presents one at a time.

pub mod models;
