//! Local media: which files Selah can present, and the shapes the folder
//! browser reports. Files stay on disk and are read outside the library.

pub mod library;
pub mod order;
