//! The picture a frame produces: per dot of every line of the frame (262
//! lines of 341 dots), a colour (a 6-bit palette value) and the emphasis
//! bits ($2001 bits 5..7) that ride beside it; pixel x of a visible row
//! lands at dot x + 1.

use vstd::prelude::*;

use crate::{DOTS_PER_LINE, LINES};

verus! {

/// The number of dots a picture holds.
pub open spec fn picture_len() -> int {
    LINES as int * DOTS_PER_LINE as int
}

/// The index of (row, dot) in a picture's dots.
pub open spec fn dot_index(row: int, dot: int) -> int {
    row * DOTS_PER_LINE as int + dot
}

/// Rows by dots, row-major, each dot (colour, emphasis); every picture
/// this library makes holds `picture_len()` dots.
pub struct Picture {
    dots: Vec<(u8, u8)>,
}

impl View for Picture {
    type V = Seq<(u8, u8)>;

    closed spec fn view(&self) -> Seq<(u8, u8)> {
        self.dots@
    }
}

/// A picture whose every dot holds `colour`, without emphasis.
pub open spec fn filled_spec(colour: u8) -> Seq<(u8, u8)> {
    Seq::new(picture_len() as nat, |i: int| (colour, 0u8))
}

impl Picture {
    /// A picture with every dot `colour`, without emphasis.
    pub fn filled(colour: u8) -> (p: Picture)
        ensures
            p@ == filled_spec(colour),
    {
        let n = LINES * DOTS_PER_LINE;
        let mut dots: Vec<(u8, u8)> = Vec::with_capacity(n);
        let mut i: usize = 0;
        while i < n
            invariant
                n == LINES * DOTS_PER_LINE,
                i <= n,
                dots@.len() == i,
                forall|j: int| 0 <= j < i ==> dots@[j] == (colour, 0u8),
            decreases n - i,
        {
            dots.push((colour, 0));
            i = i + 1;
        }
        assert(dots@ =~= filled_spec(colour));
        Picture { dots }
    }

    /// The colour and emphasis at (row, dot).
    pub fn at(&self, row: usize, dot: usize) -> (c: (u8, u8))
        requires
            self@.len() == picture_len(),
            row < LINES,
            dot < DOTS_PER_LINE,
        ensures
            c == self@[dot_index(row as int, dot as int)],
    {
        self.dots[row * DOTS_PER_LINE + dot]
    }

    /// Set the colour and emphasis at (row, dot).
    pub fn set(&mut self, row: usize, dot: usize, colour: u8, emphasis: u8)
        requires
            old(self)@.len() == picture_len(),
            row < LINES,
            dot < DOTS_PER_LINE,
        ensures
            final(self)@ == old(self)@.update(dot_index(row as int, dot as int), (colour, emphasis)),
    {
        let i = row * DOTS_PER_LINE + dot;
        self.dots.set(i, (colour, emphasis));
    }

    /// The dots, row-major.
    pub fn to_vec(&self) -> (v: Vec<(u8, u8)>)
        ensures
            v@ == self@,
    {
        let mut v: Vec<(u8, u8)> = Vec::with_capacity(self.dots.len());
        let mut i: usize = 0;
        while i < self.dots.len()
            invariant
                i <= self.dots@.len(),
                v@ == self.dots@.take(i as int),
            decreases self.dots@.len() - i,
        {
            v.push(self.dots[i]);
            proof {
                assert(self.dots@.take(i + 1) =~= self.dots@.take(i as int).push(self.dots@[i as int]));
            }
            i = i + 1;
        }
        assert(self.dots@.take(self.dots@.len() as int) =~= self.dots@);
        v
    }
}

} // verus!
