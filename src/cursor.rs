use vstd::prelude::*;

verus! {

/// The longest window handed to the decode primitive in one call: its length
/// parameter is a C `int`.
pub const WINDOW_CAP: usize = libc::c_int::MAX as usize;

/// Read position over a byte buffer of fixed length.
pub struct Cursor {
    offset: usize,
    remaining: usize,
}

/// What a cursor stands for: bytes behind it and bytes still ahead.
pub ghost struct CursorView {
    pub offset: nat,
    pub remaining: nat,
}

impl View for Cursor {
    type V = CursorView;

    closed spec fn view(&self) -> CursorView {
        CursorView { offset: self.offset as nat, remaining: self.remaining as nat }
    }
}

/// The window length for `remaining` bytes ahead.
pub open spec fn window_len_of(remaining: nat) -> nat {
    if remaining <= WINDOW_CAP {
        remaining
    } else {
        WINDOW_CAP as nat
    }
}

impl Cursor {
    /// The offset and the remaining count never exceed what a `usize` holds together.
    pub closed spec fn wf(&self) -> bool {
        self.offset + self.remaining <= usize::MAX
    }

    /// A cursor at the start of `len` bytes.
    pub fn new(len: usize) -> (c: Cursor)
        ensures
            c.wf(),
            c@.offset == 0,
            c@.remaining == len,
    {
        Cursor { offset: 0, remaining: len }
    }

    /// Bytes behind the cursor.
    pub fn position(&self) -> (r: usize)
        ensures
            r == self@.offset,
    {
        self.offset
    }

    /// Bytes ahead of the cursor.
    pub fn remaining(&self) -> (r: usize)
        ensures
            r == self@.remaining,
    {
        self.remaining
    }

    /// Length of the next window: the bytes ahead, capped at `WINDOW_CAP`.
    pub fn window_len(&self) -> (r: usize)
        ensures
            r == window_len_of(self@.remaining),
    {
        if self.remaining <= WINDOW_CAP {
            self.remaining
        } else {
            WINDOW_CAP
        }
    }

    /// Moves `n` bytes forward when that many remain; otherwise leaves the
    /// cursor where it is and returns `false`.
    pub fn advance(&mut self, n: usize) -> (r: bool)
        requires
            old(self).wf(),
        ensures
            final(self).wf(),
            r == (n <= old(self)@.remaining),
            r ==> final(self)@ == (CursorView {
                offset: (old(self)@.offset + n) as nat,
                remaining: (old(self)@.remaining - n) as nat,
            }),
            !r ==> final(self)@ == old(self)@,
            final(self)@.offset + final(self)@.remaining == old(self)@.offset + old(self)@.remaining,
    {
        if n <= self.remaining {
            self.offset = self.offset + n;
            self.remaining = self.remaining - n;
            true
        } else {
            false
        }
    }
}

} // verus!
