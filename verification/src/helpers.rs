use vstd::prelude::*;

use crate::{JUMPER_X, JUMPER_Y, MIN_COLS, MIN_ROWS};

verus! {

/// Why a requested play area was refused at startup.
#[derive(Clone, Copy, Debug, PartialEq, Eq, Structural)]
pub enum GeometryError {
    /// The requested size or the viewport is below the configured minimum.
    TooSmallConfiguration,
    /// The viewport cannot fit the requested size plus the border allowance.
    ViewportTooSmall,
}

/// The smallest multiple of `step` that is at least `v`.
pub open spec fn round_up_to_step(v: nat, step: nat) -> nat
    recommends
        step > 0,
{
    if v % step == 0 {
        v
    } else {
        (v + (step - v % step)) as nat
    }
}

/// The validated rectangle inside which the game is drawn: `width.0` and
/// `height.0` are the playable span, `width.1` and `height.1` the leftover
/// margins of the viewport.
#[derive(Clone, Copy, Debug)]
pub struct FallArea {
    pub width: (usize, usize),
    pub height: (usize, usize),
}

impl FallArea {
    /// A valid play area: the playable span is step-aligned and at least the
    /// configured minimum in both directions.
    pub open spec fn wf(self) -> bool {
        &&& self.width.0 % JUMPER_X == 0
        &&& self.width.0 >= MIN_COLS
        &&& self.height.0 % JUMPER_Y == 0
        &&& self.height.0 >= MIN_ROWS
    }

    /// Validates a requested size against the viewport (`rows` x `cols`) and
    /// derives the playable rectangle: the requested span is rounded up to the
    /// next multiple of the movement step, and the margins take the leftover
    /// viewport space.
    pub fn new(width: usize, height: usize, rows: usize, cols: usize) -> (r: Result<
        FallArea,
        GeometryError,
    >)
        ensures
            ({
                let too_small = width < MIN_COLS || height < MIN_ROWS || rows < MIN_ROWS || cols
                    < MIN_COLS;
                let no_fit = cols < width + 2 || rows < height + 2;
                match r {
                    Err(GeometryError::TooSmallConfiguration) => too_small,
                    Err(GeometryError::ViewportTooSmall) => !too_small && no_fit,
                    Ok(area) => {
                        &&& !too_small
                        &&& !no_fit
                        &&& area.wf()
                        &&& area.width.0 == round_up_to_step(width as nat, JUMPER_X as nat)
                        &&& area.height.0 == round_up_to_step(height as nat, JUMPER_Y as nat)
                        &&& area.width.0 + area.width.1 == cols
                        &&& area.height.0 + area.height.1 == rows
                    },
                }
            }),
    {
        if width < MIN_COLS || height < MIN_ROWS || rows < MIN_ROWS || cols < MIN_COLS {
            Err(GeometryError::TooSmallConfiguration)
        } else if cols - 2 < width || rows - 2 < height {
            Err(GeometryError::ViewportTooSmall)
        } else {
            let w = if width % JUMPER_X == 0 {
                width
            } else {
                width + (JUMPER_X - width % JUMPER_X)
            };
            let h = if height % JUMPER_Y == 0 {
                height
            } else {
                height + (JUMPER_Y - height % JUMPER_Y)
            };
            Ok(FallArea { width: (w, cols - w), height: (h, rows - h) })
        }
    }
}

/// Every valid play area spans a whole number of movement steps in each
/// direction, so entity displacement never leaves a visual seam.
pub proof fn lemma_area_step_aligned(area: FallArea)
    requires
        area.wf(),
    ensures
        area.width.0 % JUMPER_X == 0,
        area.height.0 % JUMPER_Y == 0,
{
}

/// `s` repeated `n` times.
pub open spec fn repeat_seq(s: Seq<char>, n: nat) -> Seq<char>
    decreases n,
{
    if n == 0 {
        Seq::empty()
    } else {
        repeat_seq(s, (n - 1) as nat) + s
    }
}

/// Relies on String::push_str: appends the string slice onto the end of the
/// string, leaving the earlier characters in place.
pub assume_specification[ String::push_str ](s: &mut String, other: &str)
    ensures
        final(s)@ == old(s)@ + other@,
;

/// `ch` repeated `length` times as one string.
pub fn multiply(ch: &str, length: usize) -> (r: String)
    ensures
        r@ == repeat_seq(ch@, length as nat),
{
    let mut s = String::new();
    let mut i: usize = 0;
    while i < length
        invariant
            i <= length,
            s@ == repeat_seq(ch@, i as nat),
        decreases length - i,
    {
        s.push_str(ch);
        i = i + 1;
        assert(s@ == repeat_seq(ch@, i as nat));
    }
    s
}

} // verus!
