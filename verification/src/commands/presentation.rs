//! Presentation commands: projecting text and saved presentations.

use vstd::prelude::*;

use crate::error::AppError;
use crate::models::presentation::PresentationItem;
use crate::models::settings::PresentationSettings;

verus! {

/// Projects plain text (announcements, custom text).
#[derive(Debug, Clone)]
pub struct ProjectTextRequest {
    pub title: String,
    pub text: String,
    pub display: Option<usize>,
    pub fullscreen: Option<bool>,
}

/// Adds an item to a saved presentation.
#[derive(Debug, Clone)]
pub struct AddItemRequest {
    pub presentation_id: String,
    /// The item's content type name (`type` in the interface's payload).
    pub item_type: String,
    pub payload: String,
}

/// Which screen the presentation window opens on and whether it fills it:
/// an explicit choice from the caller wins over the saved settings.
pub fn window_choice(
    display: Option<usize>,
    fullscreen: Option<bool>,
    saved: &PresentationSettings,
) -> (r: (Option<usize>, bool))
    ensures
        r.0 == (match display {
            Some(d) => Some(d),
            None => saved.display_index,
        }),
        r.1 == (match fullscreen {
            Some(f) => f,
            None => saved.fullscreen,
        }),
{
    let target = match display {
        Some(d) => Some(d),
        None => saved.display_index,
    };
    let full = match fullscreen {
        Some(f) => f,
        None => saved.fullscreen,
    };
    (target, full)
}

/// How a saved presentation is shown: its first item goes on the screen and
/// the rest wait in the queue, in order. An empty presentation is refused.
pub fn saved_presentation_order(items: Vec<PresentationItem>) -> (r: Result<
    (PresentationItem, Vec<PresentationItem>),
    AppError,
>)
    ensures
        items@.len() == 0 ==> (r matches Err(AppError::Presentation(m)) && m@
            == "this presentation is empty — add something to it first"@),
        items@.len() > 0 ==> (r matches Ok((first, rest)) && first == items@[0] && rest@
            == items@.drop_first()),
{
    if items.len() == 0 {
        return Err(
            AppError::Presentation("this presentation is empty — add something to it first".to_owned()),
        );
    }
    let mut items = items;
    let first = items.remove(0);
    Ok((first, items))
}

} // verus!
