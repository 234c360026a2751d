//! Vertical scroll position of a text panel.

use vstd::prelude::*;

verus! {

/// Scroll offset (first visible line) of a panel, saturating at both ends of
/// the `u16` range.
#[derive(Debug, Clone, Copy, PartialEq, Eq, Structural)]
pub struct ScrollOffset {
    pub offset: u16,
}

impl Default for ScrollOffset {
    /// Scrolled to the top.
    fn default() -> (r: ScrollOffset)
        ensures
            r.offset == 0,
    {
        ScrollOffset { offset: 0 }
    }
}

impl ScrollOffset {
    /// The current offset.
    pub fn get(&self) -> (r: u16)
        ensures
            r == self.offset,
    {
        self.offset
    }

    /// Scroll down `n` lines (saturating).
    pub fn increment(&mut self, n: u16)
        ensures
            final(self).offset == if old(self).offset + n > u16::MAX {
                u16::MAX as int
            } else {
                old(self).offset + n
            },
    {
        self.offset = self.offset.saturating_add(n);
    }

    /// Scroll up `n` lines (saturating at the top).
    pub fn decrement(&mut self, n: u16)
        ensures
            final(self).offset == if old(self).offset < n { 0 } else { old(self).offset - n },
    {
        self.offset = self.offset.saturating_sub(n);
    }

    /// Jump back to the top.
    pub fn jump_top(&mut self)
        ensures
            final(self).offset == 0,
    {
        self.offset = 0;
    }
}

} // verus!
