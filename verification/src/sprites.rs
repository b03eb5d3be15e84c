use vstd::prelude::*;

use crate::helpers::FallArea;
use crate::keyevents::Key;
use crate::{CLIFF_Y, JUMPER_X};

verus! {

/// A row of `w` spaces.
pub open spec fn blank_row(w: nat) -> Seq<char> {
    Seq::new(w, |i: int| ' ')
}

/// `line` with the characters of `patch` written over columns
/// `[x, x + patch.len())`, the prefix and suffix untouched.
pub open spec fn write_row(line: Seq<char>, x: int, patch: Seq<char>) -> Seq<char>
    recommends
        0 <= x,
        x + patch.len() <= line.len(),
{
    line.subrange(0, x) + patch + line.subrange(x + patch.len(), line.len() as int)
}

/// The character rows of a sprite or frame buffer, as mathematical sequences.
pub open spec fn rows_view(rows: Seq<Vec<char>>) -> Seq<Seq<char>> {
    rows.map_values(|r: Vec<char>| r@)
}

/// A row of `n` spaces as a character buffer.
pub fn spaces(n: usize) -> (r: Vec<char>)
    ensures
        r@ == blank_row(n as nat),
{
    let v: Vec<char> = vec![' '; n];
    assert(v@ =~= blank_row(n as nat));
    v
}

/// Appends the characters `[from, to)` of `src` onto `dst`.
pub fn push_range(dst: &mut Vec<char>, src: &Vec<char>, from: usize, to: usize)
    requires
        from <= to <= src@.len(),
    ensures
        final(dst)@ == old(dst)@ + src@.subrange(from as int, to as int),
{
    assert(old(dst)@ + src@.subrange(from as int, from as int) =~= old(dst)@);
    let mut j: usize = from;
    while j < to
        invariant
            from <= j <= to <= src@.len(),
            dst@ == old(dst)@ + src@.subrange(from as int, j as int),
        decreases to - j,
    {
        dst.push(src[j]);
        j = j + 1;
        assert(src@.subrange(from as int, j as int) =~= src@.subrange(
            from as int,
            j - 1,
        ).push(src@[j - 1]));
    }
}

/// One border and one fill glyph around `n` copies of the fill glyph.
pub open spec fn bar_row(left: char, mid: char, right: char, n: nat) -> Seq<char> {
    seq![left] + Seq::new(n, |i: int| mid) + seq![right]
}

/// Builds a sprite row: `left`, then `n` copies of `mid`, then `right`.
pub fn fill_row(left: char, mid: char, right: char, n: usize) -> (r: Vec<char>)
    ensures
        r@ == bar_row(left, mid, right, n as nat),
        r@.len() == n + 2,
{
    let mut v: Vec<char> = Vec::new();
    v.push(left);
    let mut j: usize = 0;
    while j < n
        invariant
            j <= n,
            v@ =~= seq![left] + Seq::new(j as nat, |i: int| mid),
        decreases n - j,
    {
        v.push(mid);
        j = j + 1;
        assert(seq![left] + Seq::new(j as nat, |i: int| mid) =~= (seq![left] + Seq::new(
            (j - 1) as nat,
            |i: int| mid,
        )).push(mid));
    }
    v.push(right);
    assert(v@ =~= bar_row(left, mid, right, n as nat));
    v
}

/// The fixed front view of the falling jumper.
pub open spec fn jumper_body() -> Seq<Seq<char>> {
    seq![
        seq![' ', '\\', '\\', ' ', '/', '/', ' '],
        seq!['=', '=', '[', 'O', ']', '=', '='],
    ]
}

/// The player avatar: one degree of freedom, its horizontal position.
#[derive(Debug)]
pub struct Jumper {
    pub area: FallArea,
    pub x_pos: usize,
    pub y_pos: usize,
    pub body: Vec<Vec<char>>,
    pub size: (usize, usize),
}

impl Jumper {
    /// A well-formed jumper: its body is the fixed sprite and it stands
    /// wholly inside the play area.
    pub open spec fn wf(self) -> bool {
        &&& self.area.wf()
        &&& rows_view(self.body@) == jumper_body()
        &&& self.size.0 == 7
        &&& self.size.1 == 2
        &&& self.x_pos + self.size.0 < self.area.width.0
        &&& self.y_pos + self.size.1 <= self.area.height.0
    }

    /// A fresh jumper, horizontally centered, a quarter of the way down.
    pub fn new(fall_area: FallArea) -> (j: Jumper)
        requires
            fall_area.wf(),
        ensures
            j.wf(),
            j.area == fall_area,
            j.x_pos == fall_area.width.0 / 2,
            j.y_pos == fall_area.height.0 / 4,
    {
        let mut r0: Vec<char> = Vec::new();
        r0.push(' ');
        r0.push('\\');
        r0.push('\\');
        r0.push(' ');
        r0.push('/');
        r0.push('/');
        r0.push(' ');
        let mut r1: Vec<char> = Vec::new();
        r1.push('=');
        r1.push('=');
        r1.push('[');
        r1.push('O');
        r1.push(']');
        r1.push('=');
        r1.push('=');
        assert(r0@ =~= jumper_body()[0]);
        assert(r1@ =~= jumper_body()[1]);
        let mut body: Vec<Vec<char>> = Vec::new();
        body.push(r0);
        body.push(r1);
        assert(rows_view(body@) =~~= jumper_body());
        Jumper {
            area: fall_area,
            x_pos: fall_area.width.0 / 2,
            y_pos: fall_area.height.0 / 4,
            body,
            size: (7, 2),
        }
    }

    /// The base frame: the jumper's sprite at its position, spaces elsewhere.
    pub open spec fn frame_spec(self) -> Seq<Seq<char>> {
        Seq::new(
            self.area.height.0 as nat,
            |i: int|
                if self.y_pos <= i < self.y_pos + jumper_body().len() {
                    blank_row(self.x_pos as nat) + jumper_body()[i - self.y_pos] + blank_row(
                        (self.area.width.0 - self.x_pos - 7) as nat,
                    )
                } else {
                    blank_row(self.area.width.0 as nat)
                },
        )
    }

    /// Draws the base frame over which the cliffs are composited: every row is
    /// exactly as wide as the play area, and the rows in the jumper's vertical
    /// span carry its sprite at its horizontal position.
    pub fn draw(&self) -> (frame: Vec<Vec<char>>)
        requires
            self.wf(),
        ensures
            rows_view(frame@) == self.frame_spec(),
            frame@.len() == self.area.height.0,
            forall|i: int| 0 <= i < frame@.len() ==> (#[trigger] frame@[i])@.len()
                == self.area.width.0,
    {
        let mut frame: Vec<Vec<char>> = Vec::new();
        let mut i: usize = 0;
        while i < self.area.height.0
            invariant
                self.wf(),
                i <= self.area.height.0,
                frame@.len() == i,
                forall|k: int| 0 <= k < i ==> (#[trigger] frame@[k])@ == self.frame_spec()[k],
                forall|k: int| 0 <= k < i ==> (#[trigger] frame@[k])@.len() == self.area.width.0,
            decreases self.area.height.0 - i,
        {
            if i < self.y_pos || i >= self.y_pos + self.size.1 {
                frame.push(spaces(self.area.width.0));
            } else {
                let mut line = spaces(self.x_pos);
                let row = &self.body[i - self.y_pos];
                assert(row@ == jumper_body()[i - self.y_pos]);
                push_range(&mut line, row, 0, row.len());
                assert(row@.subrange(0, row@.len() as int) =~= row@);
                let mut tail = spaces(self.area.width.0 - (self.x_pos + self.size.0));
                line.append(&mut tail);
                assert(line@ == self.frame_spec()[i as int]);
                frame.push(line);
            }
            i = i + 1;
        }
        assert(rows_view(frame@) =~~= self.frame_spec());
        frame
    }

    /// Where one movement keypress puts the jumper: `Right` and `Left` move
    /// it one horizontal step, and only when the whole body stays strictly
    /// inside the play area; every other key, and a move that would cross a
    /// boundary, leaves it where it is.
    pub open spec fn shifted_x(self, key: Key) -> int {
        if key == Key::Right && self.x_pos + JUMPER_X + self.size.0 < self.area.width.0 {
            self.x_pos + JUMPER_X
        } else if key == Key::Left && self.x_pos >= JUMPER_X {
            self.x_pos - JUMPER_X
        } else {
            self.x_pos as int
        }
    }

    /// Movement can never push the jumper out of the play area: wherever a
    /// keypress puts it, its position stays non-negative and its body ends
    /// strictly before the right edge.
    pub proof fn lemma_shift_in_bounds(self, key: Key)
        requires
            self.wf(),
        ensures
            0 <= self.shifted_x(key),
            self.shifted_x(key) + self.size.0 < self.area.width.0,
    {
    }

    /// Applies one movement keypress as `shifted_x` describes; a rejected
    /// move is a silent no-op, not an error.
    pub fn shift(&mut self, key: Key)
        requires
            old(self).wf(),
        ensures
            final(self).wf(),
            final(self).area == old(self).area,
            final(self).y_pos == old(self).y_pos,
            final(self).body == old(self).body,
            final(self).size == old(self).size,
            final(self).x_pos == old(self).shifted_x(key),
            final(self).x_pos + final(self).size.0 < final(self).area.width.0,
    {
        match key {
            Key::Right => {
                if self.x_pos < self.area.width.0 - JUMPER_X - self.size.0 {
                    self.x_pos = self.x_pos + JUMPER_X;
                }
            },
            Key::Left => {
                if self.x_pos >= JUMPER_X {
                    self.x_pos = self.x_pos - JUMPER_X;
                }
            },
            _ => {},
        }
    }
}

/// The mathematical state of one cliff: its position, its width, and its
/// body rows.
pub ghost struct CliffModel {
    pub x_pos: int,
    pub y_pos: int,
    pub width: int,
    pub body: Seq<Seq<char>>,
}

impl CliffModel {
    /// A well-formed cliff: at least one row, all rows as wide as the cliff,
    /// and the cliff horizontally inside the play area and vertically at or
    /// above the bottom edge.
    pub open spec fn wf(self, area: FallArea) -> bool {
        &&& 1 <= self.body.len() <= area.height.0
        &&& forall|i: int| 0 <= i < self.body.len() ==> (#[trigger] self.body[i]).len()
            == self.width
        &&& 0 <= self.x_pos && self.x_pos + self.width <= area.width.0
        &&& 0 <= self.y_pos <= area.height.0
    }
}

/// Row `part` of a hollow-rectangle cliff body with `x_size` fill columns and
/// `y_size` rows: a dashed lid, slanted shoulders, straight sides, and a
/// dashed base.
pub open spec fn ring_row(x_size: nat, y_size: nat, part: int) -> Seq<char> {
    if part == 0 {
        bar_row(' ', '_', ' ', x_size)
    } else if part == 1 {
        bar_row('/', 'O', '\\', x_size)
    } else if part == y_size - 2 {
        bar_row('\\', 'O', '/', x_size)
    } else if part == y_size - 1 {
        bar_row(' ', '-', ' ', x_size)
    } else {
        bar_row('|', 'O', '|', x_size)
    }
}

/// The whole hollow-rectangle cliff body, row by row.
pub open spec fn ring_body(x_size: nat, y_size: nat) -> Seq<Seq<char>> {
    Seq::new(y_size, |p: int| ring_row(x_size, y_size, p))
}

/// What every freshly spawned cliff looks like, whatever the random draws
/// were: a ring-shaped body of at least 4 rows, strictly under a fifth of the
/// play height, its fill width drawn from the middle of the half-width range,
/// placed fully below the visible area.
pub open spec fn spawned_ok(m: CliffModel, area: FallArea) -> bool {
    let half = area.width.0 as int / 2;
    &&& m.wf(area)
    &&& m.y_pos == area.height.0
    &&& 4 <= m.body.len() < area.height.0 as int / 5
    &&& 6 <= m.width
    &&& half / 5 <= m.width - 2 < half - half / 5
    &&& m.body == ring_body((m.width - 2) as nat, m.body.len())
}

/// One scroll step of a cliff: while it is still below the top edge it moves
/// up one step; once at the top it sheds its first row; a single-row cliff is
/// left for retirement.
pub open spec fn shift_model(m: CliffModel) -> CliffModel {
    if m.y_pos >= CLIFF_Y {
        CliffModel { y_pos: m.y_pos - CLIFF_Y, ..m }
    } else if m.body.len() > 1 {
        CliffModel { body: m.body.drop_first(), ..m }
    } else {
        m
    }
}

/// Relies on rand::random_range: a uniform draw from the non-empty half-open
/// range `lo..hi`; the result always lies inside the range.
#[verifier::external_body]
fn rand_range(lo: usize, hi: usize) -> (r: usize)
    requires
        lo < hi,
    ensures
        lo <= r < hi,
{
    rand::random_range(lo..hi)
}

/// Builds the hollow-rectangle cliff body with `x_size` fill columns and
/// `y_size` rows.
fn build_ring(x_size: usize, y_size: usize) -> (rows: Vec<Vec<char>>)
    requires
        y_size >= 4,
    ensures
        rows_view(rows@) == ring_body(x_size as nat, y_size as nat),
        rows@.len() == y_size,
        forall|i: int| 0 <= i < rows@.len() ==> (#[trigger] rows@[i])@.len() == x_size + 2,
{
    let mut rows: Vec<Vec<char>> = Vec::new();
    let mut part: usize = 0;
    while part < y_size
        invariant
            4 <= y_size,
            part <= y_size,
            rows@.len() == part,
            forall|k: int| 0 <= k < part ==> (#[trigger] rows@[k])@ == ring_row(
                x_size as nat,
                y_size as nat,
                k,
            ),
            forall|k: int| 0 <= k < part ==> (#[trigger] rows@[k])@.len() == x_size + 2,
        decreases y_size - part,
    {
        let row = if part == 0 {
            fill_row(' ', '_', ' ', x_size)
        } else if part == 1 {
            fill_row('/', 'O', '\\', x_size)
        } else if part == y_size - 2 {
            fill_row('\\', 'O', '/', x_size)
        } else if part == y_size - 1 {
            fill_row(' ', '-', ' ', x_size)
        } else {
            fill_row('|', 'O', '|', x_size)
        };
        rows.push(row);
        part = part + 1;
    }
    assert(rows_view(rows@) =~~= ring_body(x_size as nat, y_size as nat));
    rows
}

/// An obstacle scrolling upward through the play area.
#[derive(Debug)]
pub struct Cliff {
    pub x_pos: usize,
    pub y_pos: usize,
    pub body: Vec<Vec<char>>,
    pub size: (usize, usize),
}

impl View for Cliff {
    type V = CliffModel;

    open spec fn view(&self) -> CliffModel {
        CliffModel {
            x_pos: self.x_pos as int,
            y_pos: self.y_pos as int,
            width: self.size.0 as int,
            body: rows_view(self.body@),
        }
    }
}

impl Cliff {
    /// A well-formed cliff value: the cached size agrees with the body, and
    /// the modelled cliff fits the play area.
    pub open spec fn wf(self, area: FallArea) -> bool {
        &&& self.size.1 == self.body@.len()
        &&& self.size.0 == self@.width
        &&& self@.wf(area)
    }

    /// Computes a freshly spawned cliff from the four random draws: `x_size`
    /// fill columns, `y_size` rows, the side pick (0 is the left side, 1 the
    /// right side, 2 the side that currently holds the jumper — so the
    /// jumper's side carries two of the three picks), and `off`, the
    /// horizontal offset of the cliff from the chosen edge.
    pub fn place(jumper: &Jumper, x_size: usize, y_size: usize, pick: usize, off: usize) -> (c:
        Cliff)
        requires
            jumper.wf(),
            jumper.area.width.0 / 2 / 5 <= x_size < jumper.area.width.0 / 2 - jumper.area.width.0
                / 2 / 5,
            4 <= y_size < jumper.area.height.0 / 5,
            pick < 3,
            1 <= off < jumper.area.width.0 / 3,
        ensures
            c.wf(jumper.area),
            spawned_ok(c@, jumper.area),
            c@.width == x_size + 2,
            c@.body.len() == y_size,
            ({
                let on_left = pick == 0 || (pick == 2 && jumper.x_pos <= jumper.area.width.0 / 2);
                if on_left {
                    c.x_pos == off - 1
                } else {
                    c.x_pos == jumper.area.width.0 - x_size - off - 1
                }
            }),
    {
        let full_width = jumper.area.width.0;
        let full_height = jumper.area.height.0;
        let half_width = full_width / 2;
        assert(full_width >= 42);
        assert(half_width >= 21);
        let left_side = if pick == 0 {
            true
        } else if pick == 1 {
            false
        } else {
            jumper.x_pos <= half_width
        };
        assert(2 * half_width <= full_width && 3 * (full_width / 3) <= full_width);
        assert(x_size + off + 1 <= full_width);
        let x_pos = if left_side {
            off - 1
        } else {
            full_width - x_size - off - 1
        };
        assert(x_pos + x_size + 2 <= full_width);
        let body = build_ring(x_size, y_size);
        let c = Cliff { x_pos, y_pos: full_height, body, size: (x_size + 2, y_size) };
        c
    }

    /// Spawns a cliff at the bottom of the play area: its width is drawn from
    /// the middle of the half-width range, its height from `[4, height / 5)`,
    /// its side from the three-way pick biased toward the jumper, and its
    /// edge offset from the outer third; `place` maps the draws to the cliff.
    pub fn new(jumper: &Jumper) -> (c: Cliff)
        requires
            jumper.wf(),
        ensures
            c.wf(jumper.area),
            spawned_ok(c@, jumper.area),
    {
        let full_width = jumper.area.width.0;
        let full_height = jumper.area.height.0;
        let half_width = full_width / 2;
        assert(full_width >= 42);
        assert(half_width >= 21);
        let lo = half_width / 5;
        let hi = half_width - lo;
        assert(4 <= lo < hi);
        let x_size = rand_range(lo, hi);
        assert(4 < full_height / 5);
        let y_size = rand_range(4, full_height / 5);
        let pick = rand_range(0, 3);
        let third = full_width / 3;
        assert(1 < third);
        let off = rand_range(1, third);
        Cliff::place(jumper, x_size, y_size, pick, off)
    }

    /// One scroll step: move up while below the top edge, else shed the
    /// topmost row; a single-row cliff is left untouched, awaiting
    /// retirement.
    pub fn shift(&mut self)
        requires
            old(self).body@.len() == old(self).size.1,
        ensures
            final(self).size.1 == final(self).body@.len(),
            final(self).size.0 == old(self).size.0,
            final(self)@ == shift_model(old(self)@),
    {
        if self.y_pos >= CLIFF_Y {
            self.y_pos = self.y_pos - CLIFF_Y;
        } else if self.body.len() > 1 {
            self.body.remove(0);
            self.size = (self.size.0, self.size.1 - 1);
            assert(rows_view(self.body@) =~~= rows_view(old(self).body@).drop_first());
        }
    }

    /// Whether this cliff is down to its last row and should be retired.
    pub fn erase_body(&self) -> (b: bool)
        ensures
            b == (self@.body.len() == 1),
    {
        self.body.len() == 1
    }
}

} // verus!
