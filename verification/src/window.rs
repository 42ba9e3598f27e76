//! The flag that tells the back-up confirmation window to close.

use vstd::prelude::*;

verus! {

/// The window is open as long as it has not been told to close.
pub open spec fn window_open(should_close: bool) -> bool {
    !should_close
}

/// Tells the back-up window to close.
pub fn close_backup_window(should_close: &mut bool)
    ensures
        *final(should_close),
{
    *should_close = true;
}

/// Whether the back-up window is still open.
pub fn is_window_open(should_close: &bool) -> (r: bool)
    ensures
        r == window_open(*should_close),
{
    !*should_close
}

/// A window that has been told to close is no longer open: whatever the
/// flag held, after `close_backup_window` it makes `is_window_open` false.
pub proof fn lemma_closed_window_not_open(flag_after_close: bool)
    requires
        flag_after_close,
    ensures
        !window_open(flag_after_close),
{
}

} // verus!
