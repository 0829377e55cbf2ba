//! The entries of a native popup menu (the tray icon's and the overlay's), and which entry a
//! chosen command means. Showing the menu is the application's.

use vstd::prelude::*;

use crate::text::owned;

verus! {

/// One entry of a native popup menu; `A` is what choosing it does.
#[derive(Debug)]
pub enum MenuItem<A> {
    Entry { text: String, enabled: bool, action: A },
    Separator,
}

impl<A> MenuItem<A> {
    /// An entry showing `text`, which runs `action` when chosen (and can only be chosen if
    /// `enabled`).
    pub fn entry(text: &str, enabled: bool, action: A) -> (r: Self)
        ensures
            r matches MenuItem::Entry { text: t, enabled: e, action: a } && t@ == text@ && e
                == enabled && a == action,
    {
        MenuItem::Entry { text: owned(text), enabled, action }
    }

    /// A line between entries.
    pub fn separator() -> (r: Self)
        ensures
            r is Separator,
    {
        MenuItem::Separator
    }
}

/// The entry that the menu command `id` chose: commands are numbered from 1 in the order of the
/// items, 0 means nothing was chosen, and a separator is never chosen.
pub fn chosen_entry<A>(items: &[MenuItem<A>], id: u32) -> (r: Option<usize>)
    ensures
        r == (if 0 < id && id <= items@.len() && items@[id - 1] is Entry {
            Some((id - 1) as usize)
        } else {
            None
        }),
{
    if id == 0 {
        return None;
    }
    let index = (id - 1) as usize;
    if index < items.len() {
        match &items[index] {
            MenuItem::Entry { .. } => Some(index),
            MenuItem::Separator => None,
        }
    } else {
        None
    }
}

} // verus!
