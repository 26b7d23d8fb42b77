//! Key status kept for the local player.
use vstd::prelude::*;

verus! {

/// A key status.
///
/// Tells apart keys that were pressed this frame from keys that are still
/// down as part of an earlier press: some actions fire only on a press,
/// others repeat as long as the key is held.
#[derive(Clone, Copy, Debug, PartialEq, Eq, Structural)]
pub enum Press {
    /// Key is up (not pressed).
    UP,
    /// Key was pressed this frame. Perform actions triggered on press.
    PRESSED,
    /// Key was kept down. Repeating actions can happen.
    KEPT,
}

impl Press {
    /// The status one frame later: a fresh press becomes a held key, the
    /// other statuses stay as they are.
    pub open spec fn next(self) -> Press {
        match self {
            Press::PRESSED => Press::KEPT,
            other => other,
        }
    }

    /// Advances the status by one frame.
    pub fn update(&mut self)
        ensures
            *final(self) == old(self).next(),
    {
        if let Press::PRESSED = *self {
            *self = Press::KEPT;
        }
    }
}

} // verus!
