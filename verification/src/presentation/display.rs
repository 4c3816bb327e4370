//! Which screen the presentation window uses. The screens themselves, and
//! the window, belong to the windowing system outside the library; here a
//! screen is known by its index and by what identifies it.

use vstd::prelude::*;

use crate::error::AppError;
use crate::text::{decimal, from_chars, push_decimal, to_chars};

verus! {

/// The position of the first screen with index `t` in `indices`, or -1.
pub open spec fn position_of(indices: Seq<usize>, t: usize) -> int
    decreases indices.len(),
{
    if indices.len() == 0 {
        -1
    } else {
        let p = position_of(indices.drop_last(), t);
        if p >= 0 {
            p
        } else if indices.last() == t {
            indices.len() - 1
        } else {
            -1
        }
    }
}

proof fn lemma_position_of(indices: Seq<usize>, t: usize)
    ensures
        -1 <= position_of(indices, t) < indices.len(),
        position_of(indices, t) >= 0 ==> indices[position_of(indices, t)] == t,
        position_of(indices, t) >= 0 ==> forall|q: int|
            0 <= q < position_of(indices, t) ==> indices[q] != t,
        position_of(indices, t) < 0 ==> forall|q: int| 0 <= q < indices.len() ==> indices[q] != t,
    decreases indices.len(),
{
    if indices.len() > 0 {
        let d = indices.drop_last();
        lemma_position_of(d, t);
        assert forall|q: int| 0 <= q < d.len() implies d[q] == indices[q] by {}
    }
}

fn find_position(indices: &Vec<usize>, t: usize) -> (r: Option<usize>)
    ensures
        match r {
            Some(k) => k as int == position_of(indices@, t),
            None => position_of(indices@, t) < 0,
        },
{
    proof {
        lemma_position_of(indices@, t);
    }
    let mut k: usize = 0;
    while k < indices.len()
        invariant
            k <= indices@.len(),
            forall|q: int| 0 <= q < k ==> indices@[q] != t,
            -1 <= position_of(indices@, t) < indices@.len(),
            position_of(indices@, t) >= 0 ==> indices@[position_of(indices@, t)] == t,
            position_of(indices@, t) >= 0 ==> forall|q: int|
                0 <= q < position_of(indices@, t) ==> indices@[q] != t,
            position_of(indices@, t) < 0 ==> forall|q: int| 0 <= q < indices@.len() ==> indices@[q] != t,
        decreases indices.len() - k,
    {
        if indices[k] == t {
            proof {
                let p = position_of(indices@, t);
                if p < 0 {
                    assert(indices@[k as int] != t);
                } else if p < k {
                    assert(indices@[p] != t);
                } else if p > k {
                    assert(indices@[k as int] != t);
                }
            }
            return Some(k);
        }
        k = k + 1;
    }
    None
}

/// Whether a screen with `index` exists, as choosing it as the target
/// requires.
pub fn check_display_index(indices: &Vec<usize>, index: usize) -> (r: Result<(), AppError>)
    ensures
        indices@.contains(index) ==> r is Ok,
        !indices@.contains(index) ==> (r matches Err(AppError::DisplayNotFound(m)) && m@
            == "no display with index "@ + decimal(index as nat)),
{
    proof {
        lemma_position_of(indices@, index);
    }
    match find_position(indices, index) {
        Some(k) => {
            assert(indices@[k as int] == index);
            Ok(())
        },
        None => {
            let mut m = to_chars("no display with index ");
            push_decimal(&mut m, index as u64);
            Err(AppError::DisplayNotFound(from_chars(&m)))
        },
    }
}

/// The screen the window opens on, as a position in the list: the target
/// when one is chosen and listed, else the first screen. With no screens
/// there is nowhere to open.
pub fn opening_display(indices: &Vec<usize>, target: Option<usize>) -> (r: Result<usize, AppError>)
    ensures
        indices@.len() == 0 ==> (r matches Err(AppError::DisplayNotFound(m)) && m@ == "no displays available"@),
        indices@.len() > 0 ==> (r matches Ok(k) && k as int == (if position_of(
            indices@,
            match target {
                Some(t) => t,
                None => indices@[0],
            },
        ) >= 0 {
            position_of(
                indices@,
                match target {
                    Some(t) => t,
                    None => indices@[0],
                },
            )
        } else {
            0
        })),
{
    if indices.len() == 0 {
        return Err(AppError::DisplayNotFound("no displays available".to_owned()));
    }
    let t = match target {
        Some(t) => t,
        None => indices[0],
    };
    match find_position(indices, t) {
        Some(k) => Ok(k),
        None => Ok(0),
    }
}

/// The screen the open window is on, as a position in the list: the target,
/// or the screen with index 0 when none was chosen.
pub fn current_display(indices: &Vec<usize>, target: Option<usize>) -> (r: Result<usize, AppError>)
    ensures
        ({
            let t = match target {
                Some(t) => t,
                None => 0usize,
            };
            &&& position_of(indices@, t) >= 0 ==> (r matches Ok(k) && k as int == position_of(indices@, t))
            &&& position_of(indices@, t) < 0 ==> (r matches Err(AppError::DisplayNotFound(m)) && m@
                == "no displays available"@)
        }),
{
    let t = match target {
        Some(t) => t,
        None => 0,
    };
    match find_position(indices, t) {
        Some(k) => Ok(k),
        None => Err(AppError::DisplayNotFound("no displays available".to_owned())),
    }
}

} // verus!
