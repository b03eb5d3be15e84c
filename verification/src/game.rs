use vstd::prelude::*;

use crate::helpers::{FallArea, GeometryError};
use crate::keyevents::Key;
use crate::sprites::{
    rows_view, shift_model, spawned_ok, write_row, Cliff, CliffModel, Jumper,
};
use crate::{
    CLIFF_SEPARATION, CLIFF_Y, HEIGHT, JUMPER_X, MIN_CLIFF_SEPARATION, MIN_COLS, MIN_ROWS,
    MIN_TIMEOUT_MS, TIMEOUT_MS, WIDTH,
};
use vstd::arithmetic::div_mod::lemma_div_is_ordered;

verus! {

/// Which body part an overlap costs the jumper.
#[derive(Clone, Copy, Debug, PartialEq, Eq, Structural)]
pub enum CollisionKind {
    LostArm,
    LostLeg,
    LostHead,
}

/// The collision category of a single glyph: the jumper's arms are drawn
/// with `=`, its legs with `\` and `/`, and its head with `[`, `]` and `o`
/// or `O`.
pub open spec fn glyph_kind(c: char) -> Option<CollisionKind> {
    if c == '=' {
        Some(CollisionKind::LostArm)
    } else if c == '\\' || c == '/' {
        Some(CollisionKind::LostLeg)
    } else if c == '[' || c == ']' || c == 'o' || c == 'O' {
        Some(CollisionKind::LostHead)
    } else {
        None
    }
}

/// First-match collision policy: the category of the first colliding glyph
/// in left-to-right order, not the most severe one.
pub open spec fn detect_spec(s: Seq<char>) -> Option<CollisionKind>
    decreases s.len(),
{
    if s.len() == 0 {
        None
    } else if glyph_kind(s[0]) is Some {
        glyph_kind(s[0])
    } else {
        detect_spec(s.drop_first())
    }
}

/// The collision category of a glyph, as executable code.
fn glyph_check(c: char) -> (r: Option<CollisionKind>)
    ensures
        r == glyph_kind(c),
{
    match c {
        '=' => Some(CollisionKind::LostArm),
        '\\' | '/' => Some(CollisionKind::LostLeg),
        '[' | ']' | 'o' | 'O' => Some(CollisionKind::LostHead),
        _ => None,
    }
}

/// Scans the columns `[start, end)` of `line` left to right and reports the
/// category of the first glyph that belongs to the jumper's sprite, or
/// nothing when the segment holds no such glyph.
pub fn detect(line: &Vec<char>, start: usize, end: usize) -> (r: Option<CollisionKind>)
    requires
        start <= end <= line@.len(),
    ensures
        r == detect_spec(line@.subrange(start as int, end as int)),
{
    let mut j: usize = start;
    while j < end
        invariant
            start <= j <= end <= line@.len(),
            detect_spec(line@.subrange(start as int, end as int)) == detect_spec(
                line@.subrange(j as int, end as int),
            ),
        decreases end - j,
    {
        let g = glyph_check(line[j]);
        if g.is_some() {
            assert(line@.subrange(j as int, end as int)[0] == line@[j as int]);
            return g;
        }
        assert(line@.subrange(j as int, end as int).drop_first() =~= line@.subrange(
            j + 1,
            end as int,
        ));
        assert(line@.subrange(j as int, end as int)[0] == line@[j as int]);
        j = j + 1;
    }
    None
}

/// The input poll timeout owed at a given score: it shrinks by one
/// millisecond for every eight points, and never falls below the floor.
pub open spec fn timeout_spec(score: nat) -> nat {
    if score / 8 <= (TIMEOUT_MS - MIN_TIMEOUT_MS) as nat {
        (TIMEOUT_MS - score / 8) as nat
    } else {
        MIN_TIMEOUT_MS as nat
    }
}

/// The cliff spacing owed at a given score: it shrinks by one line for every
/// hundred points, and never falls below the floor.
pub open spec fn spacing_spec(score: nat) -> nat {
    if score / 100 <= (CLIFF_SEPARATION - MIN_CLIFF_SEPARATION) as nat {
        (CLIFF_SEPARATION - score / 100) as nat
    } else {
        MIN_CLIFF_SEPARATION as nat
    }
}

/// The poll timeout for a score, floored so input polling never reaches
/// zero.
pub fn timeout_for_score(score: usize) -> (t: usize)
    ensures
        t == timeout_spec(score as nat),
{
    let d = score / 8;
    if d <= TIMEOUT_MS - MIN_TIMEOUT_MS {
        TIMEOUT_MS - d
    } else {
        MIN_TIMEOUT_MS
    }
}

/// The cliff spacing for a score, floored so the game never becomes
/// unplayably dense.
pub fn spacing_for_score(score: usize) -> (s: usize)
    ensures
        s == spacing_spec(score as nat),
{
    let d = score / 100;
    if d <= CLIFF_SEPARATION - MIN_CLIFF_SEPARATION {
        CLIFF_SEPARATION - d
    } else {
        MIN_CLIFF_SEPARATION
    }
}

/// The wait budget left for one tick after input handling already took
/// `spent_ms` milliseconds: the poll timeout shrunk by the time spent,
/// saturating at zero.
pub open spec fn wait_budget_spec(timeout: nat, spent_ms: nat) -> nat {
    if spent_ms <= timeout {
        (timeout - spent_ms) as nat
    } else {
        0
    }
}

/// The poll timeout handed to the next bounded wait of the same tick, so
/// that the next scroll still happens on schedule after a keypress was
/// handled.
pub fn remaining_wait(timeout: usize, spent_ms: u64) -> (r: usize)
    ensures
        r == wait_budget_spec(timeout as nat, spent_ms as nat),
{
    if spent_ms <= timeout as u64 {
        timeout - (spent_ms as usize)
    } else {
        0
    }
}

/// Difficulty never relaxes as the score grows: both the poll timeout and
/// the cliff spacing are non-increasing functions of the score.
pub proof fn lemma_difficulty_monotone(s1: nat, s2: nat)
    requires
        s1 <= s2,
    ensures
        timeout_spec(s2) <= timeout_spec(s1),
        spacing_spec(s2) <= spacing_spec(s1),
{
    lemma_div_is_ordered(s1 as int, s2 as int, 8);
    lemma_div_is_ordered(s1 as int, s2 as int, 100);
}

/// Both difficulty parameters stay between their configured floor and their
/// starting value, whatever the score.
pub proof fn lemma_difficulty_floors(score: nat)
    ensures
        MIN_TIMEOUT_MS <= timeout_spec(score) <= TIMEOUT_MS,
        MIN_CLIFF_SEPARATION <= spacing_spec(score) <= CLIFF_SEPARATION,
{
}

/// `frame` with one cliff painted over it: inside the cliff's vertical span
/// each row gets the matching body row written over the cliff's column
/// range; every other row is untouched.
pub open spec fn overlay_cliff(frame: Seq<Seq<char>>, c: CliffModel) -> Seq<Seq<char>> {
    Seq::new(
        frame.len(),
        |i: int|
            if c.y_pos <= i < c.y_pos + c.body.len() {
                write_row(frame[i], c.x_pos, c.body[i - c.y_pos])
            } else {
                frame[i]
            },
    )
}

/// `frame` with one cliff painted over it, but only its first `j` rows: the
/// intermediate states of one painting pass.
pub open spec fn overlay_upto(frame: Seq<Seq<char>>, c: CliffModel, j: int) -> Seq<Seq<char>> {
    Seq::new(
        frame.len(),
        |i: int|
            if c.y_pos <= i < c.y_pos + j {
                write_row(frame[i], c.x_pos, c.body[i - c.y_pos])
            } else {
                frame[i]
            },
    )
}

/// `frame` with every cliff painted over it in order: later cliffs paint
/// over earlier ones on overlap.
pub open spec fn overlay_all(frame: Seq<Seq<char>>, cs: Seq<CliffModel>) -> Seq<Seq<char>>
    decreases cs.len(),
{
    if cs.len() == 0 {
        frame
    } else {
        overlay_all(overlay_cliff(frame, cs[0]), cs.drop_first())
    }
}

/// The first collision one cliff produces while being painted over `frame`,
/// scanning its rows downward from row `j`: each visible target row is
/// inspected over the cliff's column range before being overwritten.
pub open spec fn cliff_scan_from(frame: Seq<Seq<char>>, c: CliffModel, j: int) -> Option<
    CollisionKind,
>
    decreases c.body.len() - j,
{
    if j < 0 || j >= c.body.len() {
        None
    } else if c.y_pos + j >= frame.len() {
        None
    } else if detect_spec(frame[c.y_pos + j].subrange(c.x_pos, c.x_pos + c.width)) is Some {
        detect_spec(frame[c.y_pos + j].subrange(c.x_pos, c.x_pos + c.width))
    } else {
        cliff_scan_from(frame, c, j + 1)
    }
}

/// The first collision of the whole painting pass: cliffs are inspected in
/// spawn order, each against the frame as the earlier cliffs left it, and
/// the first match ends the scan.
pub open spec fn scan_all(frame: Seq<Seq<char>>, cs: Seq<CliffModel>) -> Option<CollisionKind>
    decreases cs.len(),
{
    if cs.len() == 0 {
        None
    } else if cliff_scan_from(frame, cs[0], 0) is Some {
        cliff_scan_from(frame, cs[0], 0)
    } else {
        scan_all(overlay_cliff(frame, cs[0]), cs.drop_first())
    }
}

/// `line` with `patch` written over the columns starting at `x`, as a fresh
/// buffer.
fn splice_row(line: &Vec<char>, x: usize, patch: &Vec<char>) -> (r: Vec<char>)
    requires
        x + patch@.len() <= line@.len(),
    ensures
        r@ == write_row(line@, x as int, patch@),
        r@.len() == line@.len(),
{
    let n = line.len();
    let mut r: Vec<char> = Vec::new();
    crate::sprites::push_range(&mut r, line, 0, x);
    crate::sprites::push_range(&mut r, patch, 0, patch.len());
    crate::sprites::push_range(&mut r, line, x + patch.len(), n);
    assert(patch@.subrange(0, patch@.len() as int) =~= patch@);
    assert(r@ =~= write_row(line@, x as int, patch@));
    r
}

/// The cliffs that survive one scroll tick, looking at positions `k` and
/// later: every cliff down to its last row is dropped, every other cliff
/// takes one scroll step, and the order is kept.
pub open spec fn retire_shift_from(cs: Seq<CliffModel>, k: int) -> Seq<CliffModel>
    decreases cs.len() - k,
{
    if k < 0 || k >= cs.len() {
        Seq::empty()
    } else if cs[k].body.len() == 1 {
        retire_shift_from(cs, k + 1)
    } else {
        seq![shift_model(cs[k])] + retire_shift_from(cs, k + 1)
    }
}

/// How many cliffs at positions `k` and later are down to their last row
/// and get retired, each worth one point.
pub open spec fn retired_from(cs: Seq<CliffModel>, k: int) -> int
    decreases cs.len() - k,
{
    if k < 0 || k >= cs.len() {
        0
    } else if cs[k].body.len() == 1 {
        1 + retired_from(cs, k + 1)
    } else {
        retired_from(cs, k + 1)
    }
}

/// Whether a new cliff is due after a scroll tick: the lines since the last
/// spawn have come to exceed the current spacing threshold.
pub open spec fn spawn_due(lsl: int, separation: int) -> bool {
    lsl > separation
}

/// One scroll step keeps a cliff well-formed.
pub proof fn lemma_shift_model_wf(m: CliffModel, area: FallArea)
    requires
        m.wf(area),
    ensures
        shift_model(m).wf(area),
{
    if m.y_pos >= CLIFF_Y {
    } else if m.body.len() > 1 {
        assert forall|i: int| 0 <= i < shift_model(m).body.len() implies (#[trigger] shift_model(
            m,
        ).body[i]).len() == shift_model(m).width by {
            assert(shift_model(m).body[i] == m.body[i + 1]);
        }
    }
}

/// Retirement is complete: after one scroll tick every cliff that was down
/// to its last row is gone and counted, and each survivor is exactly one of
/// the taller cliffs, shifted, in its old order.
pub proof fn lemma_retirement(cs: Seq<CliffModel>, k: int)
    requires
        0 <= k <= cs.len(),
    ensures
        retire_shift_from(cs, k).len() + retired_from(cs, k) == cs.len() - k,
        0 <= retired_from(cs, k) <= cs.len() - k,
        forall|j: int|
            0 <= j < retire_shift_from(cs, k).len() ==> exists|i: int|
                k <= i < cs.len() && cs[i].body.len() != 1 && #[trigger] retire_shift_from(cs, k)[j]
                    == shift_model(cs[i]),
    decreases cs.len() - k,
{
    if k < cs.len() {
        lemma_retirement(cs, k + 1);
        if cs[k].body.len() != 1 {
            assert forall|j: int| 0 <= j < retire_shift_from(cs, k).len() implies exists|i: int|
                k <= i < cs.len() && cs[i].body.len() != 1 && #[trigger] retire_shift_from(cs, k)[j]
                    == shift_model(cs[i]) by {
                if j == 0 {
                    assert(retire_shift_from(cs, k)[0] == shift_model(cs[k]));
                } else {
                    assert(retire_shift_from(cs, k)[j] == retire_shift_from(cs, k + 1)[j - 1]);
                }
            }
        }
    }
}

/// Everything one running game owns: the difficulty parameters, the jumper,
/// the active cliffs in spawn order, the spawn spacing counter, the pending
/// collision, and the score.
pub struct Game {
    pub poll_timeout: usize,
    pub cliff_separation: usize,
    pub jumper: Jumper,
    pub cliffs: Vec<Cliff>,
    pub line_since_last: usize,
    pub collision: Option<CollisionKind>,
    pub score: usize,
}

impl Game {
    /// A well-formed game: the jumper and every active cliff fit the play
    /// area.
    pub open spec fn wf(self) -> bool {
        &&& self.jumper.wf()
        &&& forall|i: int|
            0 <= i < self.cliffs@.len() ==> (#[trigger] self.cliffs@[i]).wf(self.jumper.area)
    }

    /// The active cliffs as mathematical values, in spawn order.
    pub open spec fn cliff_models(self) -> Seq<CliffModel> {
        self.cliffs@.map_values(|c: Cliff| c@)
    }

    /// Starts a game: validates the fixed requested size against the
    /// viewport, centers a fresh jumper, and spawns the first cliff at the
    /// bottom.
    pub fn new(poll_timeout: usize, cliff_sep: usize, rows: usize, cols: usize) -> (r: Result<
        Game,
        GeometryError,
    >)
        ensures
            ({
                let too_small = rows < MIN_ROWS || cols < MIN_COLS;
                let no_fit = cols < WIDTH + 2 || rows < HEIGHT + 2;
                match r {
                    Err(GeometryError::TooSmallConfiguration) => too_small,
                    Err(GeometryError::ViewportTooSmall) => !too_small && no_fit,
                    Ok(g) => {
                        &&& !too_small
                        &&& !no_fit
                        &&& g.wf()
                        &&& g.score == 0
                        &&& g.line_since_last == 0
                        &&& g.collision is None
                        &&& g.poll_timeout == poll_timeout
                        &&& g.cliff_separation == cliff_sep
                        &&& g.jumper.area.width.0 == crate::helpers::round_up_to_step(
                            WIDTH as nat,
                            JUMPER_X as nat,
                        )
                        &&& g.jumper.area.height.0 == HEIGHT
                        &&& g.jumper.area.width.0 + g.jumper.area.width.1 == cols
                        &&& g.jumper.area.height.0 + g.jumper.area.height.1 == rows
                        &&& g.jumper.x_pos == g.jumper.area.width.0 / 2
                        &&& g.jumper.y_pos == g.jumper.area.height.0 / 4
                        &&& g.cliff_models().len() == 1
                        &&& spawned_ok(g.cliff_models()[0], g.jumper.area)
                    },
                }
            }),
    {
        let fall_area = match FallArea::new(WIDTH, HEIGHT, rows, cols) {
            Ok(area) => area,
            Err(err) => {
                return Err(err);
            },
        };
        let jumper = Jumper::new(fall_area);
        let cliff = Cliff::new(&jumper);
        let mut cliffs: Vec<Cliff> = Vec::new();
        cliffs.push(cliff);
        let g = Game {
            poll_timeout,
            cliff_separation: cliff_sep,
            jumper,
            cliffs,
            line_since_last: 0,
            collision: None,
            score: 0,
        };
        assert(g.cliff_models() =~= seq![cliff@]);
        Ok(g)
    }

    /// Paints every active cliff over `frame` in spawn order — later cliffs
    /// paint over earlier ones — and, unless asked to ignore them, records
    /// in `collision` the first collision of the pass: each visible target
    /// row is inspected over the cliff's column range before it is
    /// overwritten.
    #[verifier::loop_isolation(false)]
    pub fn draw_cliffs(&mut self, frame: &mut Vec<Vec<char>>, ignore_collision: bool)
        requires
            old(self).wf(),
            old(frame)@.len() == old(self).jumper.area.height.0,
            forall|i: int|
                0 <= i < old(frame)@.len() ==> (#[trigger] old(frame)@[i])@.len() == old(
                    self,
                ).jumper.area.width.0,
        ensures
            final(self).wf(),
            final(self).jumper == old(self).jumper,
            final(self).cliffs == old(self).cliffs,
            final(self).score == old(self).score,
            final(self).poll_timeout == old(self).poll_timeout,
            final(self).cliff_separation == old(self).cliff_separation,
            final(self).line_since_last == old(self).line_since_last,
            rows_view(final(frame)@) == overlay_all(
                rows_view(old(frame)@),
                old(self).cliff_models(),
            ),
            final(frame)@.len() == old(frame)@.len(),
            forall|i: int|
                0 <= i < final(frame)@.len() ==> (#[trigger] final(frame)@[i])@.len() == old(
                    self,
                ).jumper.area.width.0,
            ignore_collision ==> final(self).collision is None,
            !ignore_collision ==> final(self).collision == scan_all(
                rows_view(old(frame)@),
                old(self).cliff_models(),
            ),
    {
        let ghost base = rows_view(old(frame)@);
        let ghost models = old(self).cliff_models();
        let height = self.jumper.area.height.0;
        let width = self.jumper.area.width.0;
        let mut col: Option<CollisionKind> = None;
        let mut k: usize = 0;
        proof {
            assert(models.skip(0) =~= models);
        }
        while k < self.cliffs.len()
            invariant
                k <= self.cliffs@.len(),
                frame@.len() == base.len(),
                forall|i: int| 0 <= i < frame@.len() ==> (#[trigger] frame@[i])@.len() == width,
                overlay_all(rows_view(frame@), models.skip(k as int)) == overlay_all(base, models),
                !ignore_collision && col is Some ==> scan_all(base, models) == col,
                !ignore_collision && col is None ==> scan_all(base, models) == scan_all(
                    rows_view(frame@),
                    models.skip(k as int),
                ),
                ignore_collision ==> col is None,
            decreases self.cliffs@.len() - k,
        {
            let ghost f_k = rows_view(frame@);
            let ghost m = models[k as int];
            let ghost col_entry = col;
            proof {
                assert(self.cliffs@[k as int].wf(self.jumper.area));
                assert(m == self.cliffs@[k as int]@);
            }
            let x_pos = self.cliffs[k].x_pos;
            let y_pos = self.cliffs[k].y_pos;
            let bw = self.cliffs[k].size.0;
            let bh = self.cliffs[k].size.1;
            let mut j: usize = 0;
            while j < bh
                invariant
                    j <= bh,
                    m == self.cliffs@[k as int]@,
                    self.cliffs@[k as int].wf(self.jumper.area),
                    x_pos == m.x_pos,
                    y_pos == m.y_pos,
                    bw == m.width,
                    bh == m.body.len(),
                    frame@.len() == base.len(),
                    forall|i: int| 0 <= i < frame@.len() ==> (#[trigger] frame@[i])@.len() == width,
                    rows_view(frame@) == overlay_upto(f_k, m, j as int),
                    !ignore_collision && col_entry is Some ==> col == col_entry,
                    !ignore_collision && col_entry is None && col is Some ==> cliff_scan_from(
                        f_k,
                        m,
                        0,
                    ) == col,
                    !ignore_collision && col_entry is None && col is None ==> cliff_scan_from(
                        f_k,
                        m,
                        0,
                    ) == cliff_scan_from(f_k, m, j as int),
                    ignore_collision ==> col is None,
                decreases bh - j,
            {
                if j < height - y_pos {
                    let i = y_pos + j;
                    proof {
                        // the row about to be overwritten is still as the
                        // earlier cliffs left it
                        assert(i < frame@.len());
                        assert(frame@[i as int]@ == rows_view(frame@)[i as int]);
                        assert(overlay_upto(f_k, m, j as int)[i as int] == f_k[i as int]);
                        assert(frame@[i as int]@ == f_k[i as int]);
                    }
                    if !ignore_collision && col.is_none() {
                        let g = detect(&frame[i], x_pos, x_pos + bw);
                        proof {
                            assert(f_k[i as int].subrange(x_pos as int, x_pos + bw) == frame@[
                                i as int
                            ]@.subrange(x_pos as int, x_pos + bw));
                        }
                        col = g;
                    }
                    let patch = &self.cliffs[k].body[j];
                    proof {
                        assert(patch@ == rows_view(self.cliffs@[k as int].body@)[j as int]);
                        assert(patch@ == m.body[j as int]);
                        assert(patch@.len() == m.width);
                    }
                    let new_row = splice_row(&frame[i], x_pos, patch);
                    let ghost before = frame@;
                    let ghost nr = new_row@;
                    frame.set(i, new_row);
                    proof {
                        assert forall|r: int| 0 <= r < frame@.len() implies rows_view(frame@)[r]
                            == overlay_upto(f_k, m, j + 1)[r] by {
                            assert(rows_view(frame@)[r] == frame@[r]@);
                            if r == i as int {
                                assert(frame@[r]@ == nr);
                            } else {
                                assert(frame@[r] == before[r]);
                                assert(rows_view(before)[r] == before[r]@);
                            }
                        }
                        assert(rows_view(frame@) =~= overlay_upto(f_k, m, j + 1));
                    }
                } else {
                    proof {
                        assert(cliff_scan_from(f_k, m, j as int) is None);
                        assert(cliff_scan_from(f_k, m, j + 1) is None);
                        assert(overlay_upto(f_k, m, j + 1) =~~= overlay_upto(f_k, m, j as int));
                    }
                }
                j = j + 1;
            }
            proof {
                assert(rows_view(frame@) =~~= overlay_cliff(f_k, m));
                assert(models.skip(k as int).drop_first() =~= models.skip(k + 1));
                assert(models.skip(k as int)[0] == m);
                assert(cliff_scan_from(f_k, m, bh as int) is None);
            }
            k = k + 1;
        }
        proof {
            assert(models.skip(models.len() as int) =~= Seq::<CliffModel>::empty());
        }
        if ignore_collision {
            self.collision = None;
        } else {
            self.collision = col;
        }
    }

    /// One scroll tick of the scheduler: every cliff down to its last row is
    /// retired and scored, every survivor takes one scroll step, and then —
    /// only after retirement — a new cliff spawns at the bottom once the
    /// lines since the last spawn exceed the spacing, resetting the counter.
    #[verifier::loop_isolation(false)]
    pub fn cliffs_shift(&mut self)
        requires
            old(self).wf(),
            old(self).score + old(self).cliffs@.len() < usize::MAX,
            old(self).line_since_last < usize::MAX,
        ensures
            final(self).wf(),
            final(self).jumper == old(self).jumper,
            final(self).poll_timeout == old(self).poll_timeout,
            final(self).cliff_separation == old(self).cliff_separation,
            final(self).collision == old(self).collision,
            ({
                let olds = old(self).cliff_models();
                let kept = retire_shift_from(olds, 0);
                let lsl = old(self).line_since_last + 1;
                &&& final(self).score == old(self).score + retired_from(olds, 0)
                &&& if spawn_due(lsl, old(self).cliff_separation as int) {
                    &&& final(self).cliff_models().len() == kept.len() + 1
                    &&& final(self).cliff_models().subrange(0, kept.len() as int) == kept
                    &&& spawned_ok(final(self).cliff_models().last(), old(self).jumper.area)
                    &&& final(self).line_since_last == 0
                } else {
                    &&& final(self).cliff_models() == kept
                    &&& final(self).line_since_last == lsl
                }
            }),
    {
        self.line_since_last = self.line_since_last + 1;
        let ghost olds = old(self).cliff_models();
        let ghost r = retire_shift_from(olds, 0);
        let mut i: usize = 0;
        let ghost mut k: int = 0;
        let ghost mut p: Seq<CliffModel> = Seq::empty();
        proof {
            assert(p + retire_shift_from(olds, 0) =~= retire_shift_from(olds, 0));
            lemma_retirement(olds, 0);
        }
        while i < self.cliffs.len()
            invariant
                0 <= i <= self.cliffs@.len(),
                0 <= k <= olds.len(),
                i == p.len(),
                self.cliffs@.len() - i == olds.len() - k,
                self.jumper == old(self).jumper,
                self.poll_timeout == old(self).poll_timeout,
                self.cliff_separation == old(self).cliff_separation,
                self.collision == old(self).collision,
                self.line_since_last == old(self).line_since_last + 1,
                forall|t: int| 0 <= t < i ==> (#[trigger] self.cliffs@[t])@ == p[t],
                forall|t: int|
                    i <= t < self.cliffs@.len() ==> (#[trigger] self.cliffs@[t])@ == olds[k + t
                        - i],
                r == p + retire_shift_from(olds, k),
                self.score == old(self).score + retired_from(olds, 0) - retired_from(olds, k),
                self.score <= old(self).score + k,
                forall|t: int|
                    0 <= t < self.cliffs@.len() ==> (#[trigger] self.cliffs@[t]).wf(
                        self.jumper.area,
                    ),
            decreases self.cliffs@.len() - i,
        {
            proof {
                assert(self.cliffs@[i as int]@ == olds[k]);
                lemma_retirement(olds, k);
                lemma_retirement(olds, k + 1);
            }
            let ghost before = self.cliffs@;
            if self.cliffs[i].erase_body() {
                self.cliffs.remove(i);
                self.score = self.score + 1;
                proof {
                    k = k + 1;
                    assert(retire_shift_from(olds, k - 1) == retire_shift_from(olds, k));
                }
            } else {
                let mut c = self.cliffs.remove(i);
                proof {
                    assert(c.wf(self.jumper.area));
                }
                c.shift();
                proof {
                    lemma_shift_model_wf(olds[k], self.jumper.area);
                }
                self.cliffs.insert(i, c);
                i = i + 1;
                proof {
                    k = k + 1;
                    p = p.push(shift_model(olds[k - 1]));
                    assert(self.cliffs@[i - 1]@ == shift_model(olds[k - 1]));
                    assert(retire_shift_from(olds, k - 1) == seq![shift_model(olds[k - 1])]
                        + retire_shift_from(olds, k));
                    assert(p + retire_shift_from(olds, k) =~= (p.drop_last() + (seq![
                        shift_model(olds[k - 1]),
                    ] + retire_shift_from(olds, k))));
                    assert(r == p + retire_shift_from(olds, k));
                }
            }
        }
        proof {
            assert(k == olds.len());
            assert(r =~= p);
            assert(self.cliff_models().len() == p.len());
            assert forall|t: int| 0 <= t < p.len() implies self.cliff_models()[t] == p[t] by {
                assert(self.cliff_models()[t] == self.cliffs@[t]@);
            }
            assert(self.cliff_models() =~= r);
        }
        if self.line_since_last > self.cliff_separation {
            self.line_since_last = 0;
            let c = Cliff::new(&self.jumper);
            let ghost before = self.cliffs@;
            let ghost mods = self.cliff_models();
            self.cliffs.push(c);
            proof {
                assert(self.cliff_models().len() == r.len() + 1);
                assert(self.cliff_models().last() == c@);
                assert forall|t: int| 0 <= t < r.len() implies self.cliff_models()[t] == r[t] by {
                    assert(self.cliff_models()[t] == self.cliffs@[t]@);
                    assert(self.cliffs@[t] == before[t]);
                    assert(mods[t] == before[t]@);
                }
                assert(self.cliff_models().subrange(0, r.len() as int) =~= r);
            }
        }
    }

    /// One render pass: adapts the difficulty to the current score,
    /// composites the frame — the jumper's base layer first, then every
    /// cliff in spawn order — and runs collision detection. Hands back
    /// whether the game goes on, the frame to draw (fully drawn even on a
    /// collision, so the player sees what hit them), and the collision that
    /// ended the game, if any.
    pub fn is_running(&mut self) -> (res: (bool, Vec<Vec<char>>, Option<CollisionKind>))
        requires
            old(self).wf(),
        ensures
            final(self).wf(),
            final(self).jumper == old(self).jumper,
            final(self).cliffs == old(self).cliffs,
            final(self).score == old(self).score,
            final(self).line_since_last == old(self).line_since_last,
            final(self).collision is None,
            final(self).poll_timeout == timeout_spec(old(self).score as nat),
            final(self).cliff_separation == spacing_spec(old(self).score as nat),
            ({
                let base = old(self).jumper.frame_spec();
                let scan = scan_all(base, old(self).cliff_models());
                &&& res.2 == scan
                &&& res.0 == (scan is None)
                &&& rows_view(res.1@) == overlay_all(base, old(self).cliff_models())
                &&& res.1@.len() == old(self).jumper.area.height.0
                &&& forall|i: int|
                    0 <= i < res.1@.len() ==> (#[trigger] res.1@[i])@.len() == old(
                        self,
                    ).jumper.area.width.0
            }),
    {
        let mut frame = self.jumper.draw();
        self.poll_timeout = timeout_for_score(self.score);
        self.cliff_separation = spacing_for_score(self.score);
        self.draw_cliffs(&mut frame, false);
        let col = self.collision;
        self.collision = None;
        (col.is_none(), frame, col)
    }

    /// Forwards one movement keypress to the jumper.
    pub fn jumper_shift(&mut self, key: Key)
        requires
            old(self).wf(),
        ensures
            final(self).wf(),
            final(self).jumper.x_pos == old(self).jumper.shifted_x(key),
            final(self).jumper.area == old(self).jumper.area,
            final(self).jumper.y_pos == old(self).jumper.y_pos,
            final(self).jumper.body == old(self).jumper.body,
            final(self).jumper.size == old(self).jumper.size,
            final(self).cliffs == old(self).cliffs,
            final(self).score == old(self).score,
            final(self).poll_timeout == old(self).poll_timeout,
            final(self).cliff_separation == old(self).cliff_separation,
            final(self).line_since_last == old(self).line_since_last,
            final(self).collision == old(self).collision,
    {
        self.jumper.shift(key)
    }
}

} // verus!

