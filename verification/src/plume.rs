//! `sl` in its newest form: the trains are drawn picture by picture with
//! ASCII text clipped by runs, a train may start at the bottom of the
//! screen, and the smoke plume keeps at most 256 puffs, white and black in
//! turn.
use vstd::prelude::*;
use vstd::string::*;
use std::collections::VecDeque;
use crate::art::{
    all_ascii, c51_body, c51_body_text, c51_coal, c51_coal_text, c51_wheels, c51_wheels_text,
    d51_body, d51_body_text, d51_coal, d51_coal_text, d51_wheels, d51_wheels_text,
    lemma_man_smoke_ascii, logo_body,
    logo_body_text, logo_car, logo_car_text, logo_coal, logo_coal_text, logo_eraser,
    logo_eraser_text, logo_wheels, logo_wheels_text, man, man_text, next_frame, smoke_drift,
    smoke_dx, smoke_dy, smoke_eraser, smoke_eraser_text, smoke_rise, smoke_shape, smoke_text,
    text_of, wheels_eraser, wheels_eraser_text, lemma_c51_top_line, lemma_c51_shape, lemma_d51_shape, lemma_logo_shape,
    lemma_eraser_fits_smoke,
    SMOKE_FRAMES,
};
use crate::frame::{
    all_on_screen, blanked, group_on_screen, lemma_picture_append, lemma_picture_cell,
    lemma_text_lines_cell, lemma_text_lines_footprint, lemma_text_span_paints_visible_cells,
    picture, text_lines, text_span, visible_cells, Canvas, Span,
};
pub use crate::terminal::TerminalGuard;
use crate::geometry::{
    c51_pattern, d51_pattern, fits_i32, flying_top, logo_pattern, man_pose, man_pose_of,
    C51_FUNNEL, C51_HEIGHT, C51_LENGTH, D51_FUNNEL, D51_HEIGHT, D51_LENGTH, LOGO_FUNNEL,
    LOGO_HEIGHT, LOGO_LENGTH, PATTERNS,
};

verus! {

/// The options of the program.
#[derive(Clone, Copy, Debug, PartialEq, Eq, Structural)]
pub struct Config {
    /// People on board cry for help.
    pub accident: bool,
    /// The train flies up the screen.
    pub fly: bool,
    /// Draw the C51 instead of the D51.
    pub c51: bool,
    /// Draw the small SL train.
    pub logo: bool,
    /// Start at the bottom of the screen.
    pub one: bool,
}

/// The two kinds of smoke puff, drawn in turn.
#[derive(Clone, Copy, Debug, PartialEq, Eq, Structural)]
pub enum PuffKind {
    Black,
    White,
}

impl PuffKind {
    /// The row of the smoke table a puff of this kind is drawn from.
    pub open spec fn shade(self) -> int {
        match self {
            PuffKind::Black => 0,
            PuffKind::White => 1,
        }
    }

    /// The kind that follows this one.
    pub open spec fn other(self) -> PuffKind {
        match self {
            PuffKind::Black => PuffKind::White,
            PuffKind::White => PuffKind::Black,
        }
    }

    /// The kind of the puff after one of this kind.
    pub fn succ(&self) -> (k: PuffKind)
        ensures
            k == self.other(),
    {
        match self {
            PuffKind::Black => PuffKind::White,
            PuffKind::White => PuffKind::Black,
        }
    }

    /// The row of the smoke table a puff of this kind is drawn from.
    pub fn shade_index(&self) -> (i: usize)
        ensures
            i == self.shade(),
    {
        match self {
            PuffKind::Black => 0,
            PuffKind::White => 1,
        }
    }
}

impl Default for PuffKind {
    /// A plume starts with a white puff.
    fn default() -> (k: PuffKind)
        ensures
            k == PuffKind::White,
    {
        PuffKind::White
    }
}

/// The kinds alternate: the next kind is always the other one, and two
/// steps lead back to the start.
pub proof fn lemma_succ_alternates(k: PuffKind)
    ensures
        k.other() != k,
        k.other().other() == k,
        k.shade() + k.other().shade() == 1,
{
}

/// One puff of smoke: where it is, which frame it shows, and its kind.
#[derive(Clone, Copy, Debug, PartialEq, Eq, Structural)]
pub struct SmokePuff {
    pub y: i32,
    pub x: i32,
    pub frame: usize,
    pub kind: PuffKind,
}

/// How many puffs a plume keeps.
pub const PLUME_CAPACITY: usize = 256;

/// The model of a plume: its puffs, oldest first, and the kind of the next
/// puff.
pub struct PlumeState {
    pub puffs: Seq<SmokePuff>,
    pub next_puff: PuffKind,
}

/// The kind reached from `k` after `n` steps.
pub open spec fn kind_after(k: PuffKind, n: int) -> PuffKind {
    if n % 2 == 0 {
        k
    } else {
        k.other()
    }
}

/// Where a puff goes and what it shows at the next step.
pub open spec fn puff_moved(p: SmokePuff) -> SmokePuff {
    SmokePuff {
        y: (p.y - smoke_rise(p.frame as int)) as i32,
        x: (p.x + smoke_drift(p.frame as int)) as i32,
        frame: next_frame(p.frame as int) as usize,
        kind: p.kind,
    }
}

/// The puff can take its next step without leaving the range of `i32`.
pub open spec fn puff_can_move(p: SmokePuff) -> bool {
    fits_i32(p.y - smoke_rise(p.frame as int)) && fits_i32(p.x + smoke_drift(p.frame as int))
}

impl PlumeState {
    /// At most 256 puffs, each at one of the sixteen frames, and the kinds
    /// alternate from the oldest puff to the next one to come.
    pub open spec fn wf(self) -> bool {
        &&& self.puffs.len() <= PLUME_CAPACITY
        &&& forall|i: int| 0 <= i < self.puffs.len() ==> #[trigger] self.puffs[i].frame < SMOKE_FRAMES
        &&& forall|i: int|
            0 <= i < self.puffs.len() ==> #[trigger] self.puffs[i].kind == kind_after(
                self.next_puff,
                self.puffs.len() - i,
            )
    }

    /// Every puff can take its next step.
    pub open spec fn can_move(self) -> bool {
        forall|i: int| 0 <= i < self.puffs.len() ==> #[trigger] puff_can_move(self.puffs[i])
    }

    /// A new puff at column `x` can be added: either none is due there, or
    /// every puff can move.
    pub open spec fn ready_at(self, x: int) -> bool {
        x % 4 == 0 ==> self.can_move()
    }

    /// The plume after a new puff at row `y`, column `x`: every puff moves,
    /// the new one joins at frame 0, and the oldest leaves when there are
    /// more than 256.
    pub open spec fn after_puff(self, y: i32, x: i32) -> PlumeState {
        let pushed = self.puffs.map_values(|p: SmokePuff| puff_moved(p)).push(
            SmokePuff { y, x, frame: 0, kind: self.next_puff },
        );
        PlumeState {
            puffs: if pushed.len() > PLUME_CAPACITY {
                pushed.drop_first()
            } else {
                pushed
            },
            next_puff: self.next_puff.other(),
        }
    }

    /// The plume after the locomotive's funnel passes column `x`: a puff is
    /// added at every fourth column.
    pub open spec fn after(self, y: i32, x: i32) -> PlumeState {
        if x % 4 == 0 {
            self.after_puff(y, x)
        } else {
            self
        }
    }
}

/// What moving one puff draws: its old shape erased, its new shape drawn.
pub open spec fn puff_spans(p: SmokePuff, rows: int, cols: int) -> Seq<Span> {
    let m = puff_moved(p);
    text_span(p.y as int, p.x as int, smoke_eraser_text()[p.frame as int], rows, cols) + text_span(
        m.y as int,
        m.x as int,
        smoke_text(m.kind.shade())[m.frame as int],
        rows,
        cols,
    )
}

/// What moving each puff of `ps` in order draws.
pub open spec fn puffs_spans(ps: Seq<SmokePuff>, rows: int, cols: int) -> Seq<Span>
    decreases ps.len(),
{
    if ps.len() == 0 {
        Seq::empty()
    } else {
        puffs_spans(ps.drop_last(), rows, cols) + puff_spans(ps.last(), rows, cols)
    }
}

/// What the plume draws when the funnel passes row `y`, column `x`: at
/// every fourth column the puffs move and a new puff appears at the funnel.
pub open spec fn plume_spans(s: PlumeState, y: int, x: int, rows: int, cols: int) -> Seq<Span> {
    if x % 4 == 0 {
        puffs_spans(s.puffs, rows, cols) + text_span(
            y,
            x,
            smoke_text(s.next_puff.shade())[0],
            rows,
            cols,
        )
    } else {
        Seq::empty()
    }
}

/// The smoke of one train.
pub struct SmokePlume {
    puffs: VecDeque<SmokePuff>,
    next_puff: PuffKind,
}

impl View for SmokePlume {
    type V = PlumeState;

    closed spec fn view(&self) -> PlumeState {
        PlumeState { puffs: self.puffs@, next_puff: self.next_puff }
    }
}

/// The screen of the animation: its size, and the draws of the frame being
/// built.
pub struct Tui {
    pub rows: u16,
    pub cols: u16,
    pub canvas: Canvas,
}

impl SmokePlume {
    /// An empty plume whose first puff is white.
    pub fn new() -> (p: SmokePlume)
        ensures
            p@.puffs == Seq::<SmokePuff>::empty(),
            p@.next_puff == PuffKind::White,
            p@.wf(),
    {
        SmokePlume { puffs: VecDeque::with_capacity(PLUME_CAPACITY), next_puff: PuffKind::default() }
    }

    /// The number of puffs.
    pub fn len(&self) -> (n: usize)
        ensures
            n == self@.puffs.len(),
    {
        self.puffs.len()
    }

    /// The puff at position `i`, the oldest first.
    pub fn puff(&self, i: usize) -> (p: SmokePuff)
        requires
            i < self@.puffs.len(),
        ensures
            p == self@.puffs[i as int],
    {
        self.puffs[i]
    }

    /// The kind of the next puff.
    pub fn next_puff(&self) -> (k: PuffKind)
        ensures
            k == self@.next_puff,
    {
        self.next_puff
    }

    /// Moves the plume on as the funnel passes row `y`, column `x`: at every
    /// fourth column each puff is erased, moved and drawn again, a new puff
    /// is drawn at the funnel and joins the plume, and the oldest puff
    /// leaves when there are more than 256.
    pub fn add_smoke(&mut self, tui: &mut Tui, y: i32, x: i32)
        requires
            old(self)@.wf(),
            old(self)@.ready_at(x as int),
        ensures
            final(self)@ == old(self)@.after(y, x),
            final(self)@.wf(),
            final(tui).rows == old(tui).rows,
            final(tui).cols == old(tui).cols,
            final(tui).canvas@ == old(tui).canvas@ + plume_spans(
                old(self)@,
                y as int,
                x as int,
                old(tui).rows as int,
                old(tui).cols as int,
            ),
    {
        if x % 4 != 0 {
            assert(old(tui).canvas@ + Seq::<Span>::empty() =~= old(tui).canvas@);
            return ;
        }
        proof {
            lemma_man_smoke_ascii();
        }
        let ghost start = self@;
        let ghost canvas0 = tui.canvas@;
        let ghost rows = tui.rows as int;
        let ghost cols = tui.cols as int;
        let n = self.puffs.len();
        let mut i: usize = 0;
        while i < n
            invariant
                0 <= i <= n,
                n == start.puffs.len(),
                start.wf(),
                start.can_move(),
                self.next_puff == start.next_puff,
                self.puffs@ == start.puffs.subrange(i as int, n as int) + start.puffs.take(
                    i as int,
                ).map_values(|p: SmokePuff| puff_moved(p)),
                tui.rows as int == rows,
                tui.cols as int == cols,
                tui.canvas@ == canvas0 + puffs_spans(start.puffs.take(i as int), rows, cols),
                forall|k: int| 0 <= k < 2 ==> #[trigger] all_ascii(smoke_text(k)),
                all_ascii(smoke_eraser_text()),
            decreases n - i,
        {
            let ghost before = self.puffs@;
            let popped = self.puffs.pop_front();
            assert(before[0] == start.puffs[i as int]);
            match popped {
                Some(puff) => {
                    assert(puff == start.puffs[i as int]);
                    assert(puff.frame < SMOKE_FRAMES);
                    assert(puff_can_move(start.puffs[i as int]));
                    tui.draw_text(puff.y, puff.x, smoke_eraser(puff.frame));
                    let frame = if puff.frame < SMOKE_FRAMES - 1 {
                        puff.frame + 1
                    } else {
                        puff.frame
                    };
                    let moved = SmokePuff {
                        y: puff.y - smoke_dy(puff.frame),
                        x: puff.x + smoke_dx(puff.frame),
                        frame,
                        kind: puff.kind,
                    };
                    assert(moved == puff_moved(puff));
                    tui.draw_text(moved.y, moved.x, smoke_shape(moved.kind.shade_index(), moved.frame));
                    self.puffs.push_back(moved);
                    proof {
                        let t = start.puffs.take(i as int + 1);
                        assert(t.drop_last() =~= start.puffs.take(i as int));
                        assert(t.last() == puff);
                        assert(self.puffs@ =~= start.puffs.subrange(i as int + 1, n as int)
                            + t.map_values(|p: SmokePuff| puff_moved(p)));
                    }
                },
                None => {
                    assert(false);
                },
            }
            i = i + 1;
        }
        assert(start.puffs.take(n as int) =~= start.puffs);
        assert(self.puffs@ =~= start.puffs.map_values(|p: SmokePuff| puff_moved(p)));
        let kind = self.next_puff;
        tui.draw_text(y, x, smoke_shape(kind.shade_index(), 0));
        self.puffs.push_back(SmokePuff { y, x, frame: 0, kind });
        self.next_puff = self.next_puff.succ();
        if self.puffs.len() > PLUME_CAPACITY {
            let _ = self.puffs.pop_front();
        }
        proof {
            let after = start.after_puff(y, x);
            assert(self@.puffs =~= after.puffs);
            assert(self@ == after);
            assert forall|k: int| 0 <= k < after.puffs.len() implies #[trigger] after.puffs[k].frame
                < SMOKE_FRAMES by {
                let pushed = start.puffs.map_values(|p: SmokePuff| puff_moved(p)).push(
                    SmokePuff { y, x, frame: 0, kind: start.next_puff },
                );
                if pushed.len() > PLUME_CAPACITY {
                    assert(after.puffs[k] == pushed[k + 1]);
                } else {
                    assert(after.puffs[k] == pushed[k]);
                }
            }
            assert forall|k: int| 0 <= k < after.puffs.len() implies #[trigger] after.puffs[k].kind
                == kind_after(after.next_puff, after.puffs.len() - k) by {
                let pushed = start.puffs.map_values(|p: SmokePuff| puff_moved(p)).push(
                    SmokePuff { y, x, frame: 0, kind: start.next_puff },
                );
                let j = if pushed.len() > PLUME_CAPACITY {
                    k + 1
                } else {
                    k
                };
                assert(after.puffs[k] == pushed[j]);
                assert(after.puffs.len() - k == pushed.len() - j);
                if j < start.puffs.len() {
                    assert(pushed[j].kind == start.puffs[j].kind);
                }
            }
            assert(tui.canvas@ =~= canvas0 + plume_spans(start, y as int, x as int, rows, cols));
        }
    }
}

/// The top row of a train `height` rows high: it flies up the screen, or
/// stands at the bottom, or in the middle with its `standing` rows above
/// the middle line.
pub open spec fn train_top(
    cfg: Config,
    rows: int,
    cols: int,
    x: int,
    height: int,
    step: int,
    standing: int,
) -> int {
    if cfg.fly {
        flying_top(x, rows, cols, step, height)
    } else if cfg.one {
        rows - height
    } else {
        rows / 2 - standing
    }
}

/// What a person on board draws: the two lines of the pose that the
/// measure `train_length + x` selects, placed at row `y`, column `x`.
pub open spec fn man_spans(y: int, x: int, train_length: int, rows: int, cols: int) -> Seq<Span> {
    let p = man_pose(train_length + x);
    text_span(y, x, man_text(p)[0], rows, cols) + text_span(y + 1, x, man_text(p)[1], rows, cols)
}

/// The top row of the D51.
pub open spec fn d51_top(cfg: Config, rows: int, cols: int, x: int) -> int {
    train_top(cfg, rows, cols, x, D51_HEIGHT as int, 7, 5)
}

/// What the D51 at column `x` draws, before its smoke: body, wheels, the
/// blank line under them, the coal car, and the people crying for help.
pub open spec fn d51_spans(cfg: Config, rows: int, cols: int, x: int) -> Seq<Span> {
    let y = d51_top(cfg, rows, cols, x);
    let dy = if cfg.fly {
        1int
    } else {
        0
    };
    text_lines(y, x, d51_body_text(), rows, cols) + text_lines(
        y + 7,
        x,
        d51_wheels_text(d51_pattern(x)),
        rows,
        cols,
    ) + text_span(y + 10, x, wheels_eraser_text(), rows, cols) + text_lines(
        y + dy,
        x + 53,
        d51_coal_text(),
        rows,
        cols,
    ) + if cfg.accident {
        man_spans(y + 2, x + 43, D51_LENGTH as int, rows, cols) + man_spans(
            y + 2,
            x + 47,
            D51_LENGTH as int,
            rows,
            cols,
        )
    } else {
        Seq::empty()
    }
}

/// The top row of the C51.
pub open spec fn c51_top(cfg: Config, rows: int, cols: int, x: int) -> int {
    train_top(cfg, rows, cols, x, C51_HEIGHT as int, 7, 5)
}

/// What the C51 at column `x` draws, before its smoke.
pub open spec fn c51_spans(cfg: Config, rows: int, cols: int, x: int) -> Seq<Span> {
    let y = c51_top(cfg, rows, cols, x);
    let dy = if cfg.fly {
        1int
    } else {
        0
    };
    text_lines(y, x, c51_body_text(), rows, cols) + text_lines(
        y + 7,
        x,
        c51_wheels_text(c51_pattern(x)),
        rows,
        cols,
    ) + text_span(y + 11, x, wheels_eraser_text(), rows, cols) + text_lines(
        y + dy,
        x + 55,
        c51_coal_text(),
        rows,
        cols,
    ) + if cfg.accident {
        man_spans(y + 3, x + 45, C51_LENGTH as int, rows, cols) + man_spans(
            y + 3,
            x + 49,
            C51_LENGTH as int,
            rows,
            cols,
        )
    } else {
        Seq::empty()
    }
}

/// The top row of the small SL train.
pub open spec fn logo_top(cfg: Config, rows: int, cols: int, x: int) -> int {
    train_top(cfg, rows, cols, x, LOGO_HEIGHT as int, 6, 3)
}

/// The vertical offsets of the three cars of the small SL train: each car a
/// step lower than the one before when the train flies.
pub open spec fn logo_car_drop(cfg: Config, car: int) -> int {
    if cfg.fly {
        2 * car
    } else {
        0
    }
}

/// What the small SL locomotive and its cars draw.
pub open spec fn logo_train_spans(cfg: Config, rows: int, cols: int, x: int) -> Seq<Span> {
    let y = logo_top(cfg, rows, cols, x);
    text_lines(y, x, logo_body_text(), rows, cols) + text_lines(
        y + 4,
        x,
        logo_wheels_text(logo_pattern(x)),
        rows,
        cols,
    ) + text_span(y + 6, x, logo_eraser_text(), rows, cols) + text_lines(
        y + logo_car_drop(cfg, 1),
        x + 21,
        logo_coal_text(),
        rows,
        cols,
    ) + text_lines(y + logo_car_drop(cfg, 2), x + 42, logo_car_text(), rows, cols) + text_lines(
        y + logo_car_drop(cfg, 3),
        x + 63,
        logo_car_text(),
        rows,
        cols,
    )
}

/// What the people on board the small SL train draw when they cry for
/// help: one on the locomotive, two on each passenger car.
pub open spec fn logo_men_spans(cfg: Config, rows: int, cols: int, x: int) -> Seq<Span> {
    let y = logo_top(cfg, rows, cols, x);
    let l = LOGO_LENGTH as int;
    let y2 = y + 1 + logo_car_drop(cfg, 2);
    let y3 = y + 1 + logo_car_drop(cfg, 3);
    man_spans(y + 1, x + 14, l, rows, cols) + man_spans(y2, x + 45, l, rows, cols) + man_spans(
        y2,
        x + 53,
        l,
        rows,
        cols,
    ) + man_spans(y3, x + 66, l, rows, cols) + man_spans(y3, x + 74, l, rows, cols)
}

/// What the small SL train at column `x` draws, before its smoke: the
/// locomotive, its coal car and two passenger cars, then the people crying
/// for help.
pub open spec fn logo_spans(cfg: Config, rows: int, cols: int, x: int) -> Seq<Span> {
    logo_train_spans(cfg, rows, cols, x) + if cfg.accident {
        logo_men_spans(cfg, rows, cols, x)
    } else {
        Seq::empty()
    }
}

/// How far left of the screen the chosen train travels before it is gone.
pub open spec fn train_length(cfg: Config) -> int {
    if cfg.logo {
        LOGO_LENGTH as int
    } else if cfg.c51 {
        C51_LENGTH as int
    } else {
        D51_LENGTH as int
    }
}

/// The columns at which the chosen train can be drawn without leaving the
/// range of `i32`.
pub open spec fn train_fits(cfg: Config, x: int) -> bool {
    if cfg.logo {
        fits_i32(LOGO_LENGTH + x) && (cfg.accident ==> fits_i32(LOGO_LENGTH + x + 74))
    } else if cfg.c51 {
        fits_i32(C51_LENGTH + x) && (cfg.accident ==> fits_i32(C51_LENGTH + x + 49))
    } else {
        fits_i32(D51_LENGTH + x) && (cfg.accident ==> fits_i32(D51_LENGTH + x + 47))
    }
}

/// What the chosen train at column `x` draws, before its smoke.
pub open spec fn train_spans(cfg: Config, rows: int, cols: int, x: int) -> Seq<Span> {
    if cfg.logo {
        logo_spans(cfg, rows, cols, x)
    } else if cfg.c51 {
        c51_spans(cfg, rows, cols, x)
    } else {
        d51_spans(cfg, rows, cols, x)
    }
}

/// The row of the chosen train's funnel.
pub open spec fn funnel_row(cfg: Config, rows: int, cols: int, x: int) -> int {
    if cfg.logo {
        logo_top(cfg, rows, cols, x) - 1
    } else if cfg.c51 {
        c51_top(cfg, rows, cols, x) - 1
    } else {
        d51_top(cfg, rows, cols, x) - 1
    }
}

/// The column of the chosen train's funnel.
pub open spec fn funnel_col(cfg: Config, x: int) -> int {
    if cfg.logo {
        x + LOGO_FUNNEL
    } else if cfg.c51 {
        x + C51_FUNNEL
    } else {
        x + D51_FUNNEL
    }
}

impl Tui {
    /// A screen of the size the terminal reported, as (columns, rows), or
    /// 80 x 24 when it reported none.
    pub fn new(size: Option<(u16, u16)>) -> (t: Tui)
        ensures
            t.cols == (match size {
                Some(s) => s.0,
                None => 80,
            }),
            t.rows == (match size {
                Some(s) => s.1,
                None => 24,
            }),
            t.canvas@ == Seq::<Span>::empty(),
    {
        let (cols, rows) = match size {
            Some(s) => s,
            None => (80, 24),
        };
        Tui { rows, cols, canvas: Canvas::new() }
    }

    /// Queues the part of the ASCII text `s` placed at row `y`, column `x`
    /// that falls on the screen.
    pub fn draw_text(&mut self, y: i32, x: i32, s: &str)
        requires
            s.is_ascii(),
        ensures
            final(self).rows == old(self).rows,
            final(self).cols == old(self).cols,
            final(self).canvas@ == old(self).canvas@ + text_span(
                y as int,
                x as int,
                s@,
                old(self).rows as int,
                old(self).cols as int,
            ),
    {
        reveal(text_span);
        let n = s.unicode_len();
        let ghost expected = text_span(
            y as int,
            x as int,
            s@,
            self.rows as int,
            self.cols as int,
        );
        let rows = self.rows as i128;
        let cols = self.cols as i128;
        let len = n as i128;
        let xx = x as i128;
        let yy = y as i128;
        if yy < 0 || yy >= rows || xx >= cols || xx + len <= 0 {
            assert(expected =~= Seq::<Span>::empty());
            assert(old(self).canvas@ + expected =~= old(self).canvas@);
            return ;
        }
        let start: i128 = if xx < 0 {
            -xx
        } else {
            0
        };
        let end: i128 = if xx + len > cols {
            cols - xx
        } else {
            len
        };
        if start < end && end <= len {
            let visible = s.substring_ascii(start as usize, end as usize);
            let draw_x: i128 = if xx < 0 {
                0
            } else {
                xx
            };
            self.canvas.put(y as u16, draw_x as u16, visible.to_owned());
            assert(expected =~= seq![
                Span { row: y as int, col: draw_x as int, text: s@.subrange(start as int, end as int) },
            ]);
            assert(self.canvas@ =~= old(self).canvas@ + expected);
        } else {
            assert(expected =~= Seq::<Span>::empty());
            assert(old(self).canvas@ + expected =~= old(self).canvas@);
        }
    }

    /// Queues the lines of a picture, line `i` at row `y + i`, column `x`.
    pub fn draw_lines(&mut self, y: i32, x: i32, lines: &[&str])
        requires
            forall|i: int| 0 <= i < lines@.len() ==> (#[trigger] lines@[i]).is_ascii(),
            lines@.len() <= i32::MAX,
            y + lines@.len() <= i32::MAX + 1,
        ensures
            final(self).rows == old(self).rows,
            final(self).cols == old(self).cols,
            final(self).canvas@ == old(self).canvas@ + text_lines(
                y as int,
                x as int,
                text_of(lines@),
                old(self).rows as int,
                old(self).cols as int,
            ),
    {
        let ghost canvas0 = self.canvas@;
        let ghost rows = self.rows as int;
        let ghost cols = self.cols as int;
        let n = lines.len();
        let mut i: usize = 0;
        assert(text_of(lines@).take(0) =~= Seq::<Seq<char>>::empty());
        proof {
            reveal(text_lines);
        }
        assert(canvas0 + Seq::<Span>::empty() =~= canvas0);
        while i < n
            invariant
                0 <= i <= n,
                n == lines@.len(),
                forall|k: int| 0 <= k < lines@.len() ==> (#[trigger] lines@[k]).is_ascii(),
                y + lines@.len() <= i32::MAX + 1,
                lines@.len() <= i32::MAX,
                self.rows as int == rows,
                self.cols as int == cols,
                self.canvas@ == canvas0 + text_lines(
                    y as int,
                    x as int,
                    text_of(lines@).take(i as int),
                    rows,
                    cols,
                ),
            decreases n - i,
        {
            self.draw_text(y + i as i32, x, lines[i]);
            proof {
                reveal(text_lines);
                let t = text_of(lines@).take(i as int + 1);
                assert(t.drop_last() =~= text_of(lines@).take(i as int));
                assert(t.last() == lines@[i as int]@);
            }
            i = i + 1;
        }
        assert(text_of(lines@).take(n as int) =~= text_of(lines@));
    }

    /// Queues a person on board at row `y`, column `x`, in the pose that
    /// `train_length + x` selects.
    pub fn add_man(&mut self, y: i32, x: i32, train_length: i32)
        requires
            fits_i32(train_length + x),
            man_pose(train_length + x) >= 0,
            y < i32::MAX,
        ensures
            final(self).rows == old(self).rows,
            final(self).cols == old(self).cols,
            final(self).canvas@ == old(self).canvas@ + man_spans(
                y as int,
                x as int,
                train_length as int,
                old(self).rows as int,
                old(self).cols as int,
            ),
    {
        proof {
            lemma_man_smoke_ascii();
        }
        let idx = man_pose_of(train_length + x) as usize;
        let frame = man(idx);
        self.draw_text(y, x, frame[0]);
        self.draw_text(y + 1, x, frame[1]);
    }

    /// Draws the D51 with its left edge at column `x`, and moves its smoke
    /// on. Returns whether the train is still on its way; once it has
    /// travelled its length past the left edge nothing is drawn.
    pub fn render_d51(&mut self, env: &mut SmokePlume, args: &Config, x: i32) -> (visible: bool)
        requires
            old(env)@.wf(),
            fits_i32(D51_LENGTH + x),
            args.accident ==> fits_i32(D51_LENGTH + x + 47),
            old(env)@.ready_at(x + D51_FUNNEL),
        ensures
            visible == (x >= -D51_LENGTH),
            final(self).rows == old(self).rows,
            final(self).cols == old(self).cols,
            final(env)@.wf(),
            !visible ==> final(self).canvas@ == old(self).canvas@ && final(env)@ == old(env)@,
            visible ==> final(env)@ == old(env)@.after(
                (d51_top(*args, old(self).rows as int, old(self).cols as int, x as int) - 1) as i32,
                (x + D51_FUNNEL) as i32,
            ),
            visible ==> final(self).canvas@ == old(self).canvas@ + d51_spans(
                *args,
                old(self).rows as int,
                old(self).cols as int,
                x as int,
            ) + plume_spans(
                old(env)@,
                d51_top(*args, old(self).rows as int, old(self).cols as int, x as int) - 1,
                x + D51_FUNNEL,
                old(self).rows as int,
                old(self).cols as int,
            ),
    {
        if x < -D51_LENGTH {
            return false;
        }
        let ghost rows = self.rows as int;
        let ghost cols = self.cols as int;
        let ghost c0 = self.canvas@;
        let mut y = if args.one {
            self.rows as i32 - D51_HEIGHT
        } else {
            (self.rows as i32) / 2 - 5
        };
        let mut dy: i32 = 0;
        if args.fly {
            y = (x / 7) + (self.rows as i32) - (self.cols as i32 / 7) - D51_HEIGHT;
            dy = 1;
        }
        assert(y == d51_top(*args, rows, cols, x as int));
        let ptn = ((D51_LENGTH + x) as usize) % PATTERNS;
        let body = d51_body();
        self.draw_lines(y, x, &body);
        let ghost c1 = self.canvas@;
        let height = body.len() as i32;
        let wheels = d51_wheels(ptn);
        self.draw_lines(y + height, x, &wheels);
        let ghost c2 = self.canvas@;
        let height = height + wheels.len() as i32;
        self.draw_text(y + height, x, wheels_eraser());
        let ghost c3 = self.canvas@;
        let car_x_offset: i32 = 53;
        let coal = d51_coal();
        self.draw_lines(y + dy, x + car_x_offset, &coal);
        let ghost c4 = self.canvas@;
        if args.accident {
            proof {
                crate::geometry::lemma_man_pose_alternates(D51_LENGTH + x + 43);
                crate::geometry::lemma_man_pose_alternates(D51_LENGTH + x + 47);
            }
            self.add_man(y + 2, x + 43, D51_LENGTH);
            self.add_man(y + 2, x + 47, D51_LENGTH);
        }
        let ghost c5 = self.canvas@;
        assert(c5 =~= c0 + d51_spans(*args, rows, cols, x as int));
        env.add_smoke(self, y - 1, x + D51_FUNNEL);
        true
    }

    /// Draws the C51 with its left edge at column `x`, and moves its smoke
    /// on. Returns whether the train is still on its way.
    pub fn render_c51(&mut self, env: &mut SmokePlume, args: &Config, x: i32) -> (visible: bool)
        requires
            old(env)@.wf(),
            fits_i32(C51_LENGTH + x),
            args.accident ==> fits_i32(C51_LENGTH + x + 49),
            old(env)@.ready_at(x + C51_FUNNEL),
        ensures
            visible == (x >= -C51_LENGTH),
            final(self).rows == old(self).rows,
            final(self).cols == old(self).cols,
            final(env)@.wf(),
            !visible ==> final(self).canvas@ == old(self).canvas@ && final(env)@ == old(env)@,
            visible ==> final(env)@ == old(env)@.after(
                (c51_top(*args, old(self).rows as int, old(self).cols as int, x as int) - 1) as i32,
                (x + C51_FUNNEL) as i32,
            ),
            visible ==> final(self).canvas@ == old(self).canvas@ + c51_spans(
                *args,
                old(self).rows as int,
                old(self).cols as int,
                x as int,
            ) + plume_spans(
                old(env)@,
                c51_top(*args, old(self).rows as int, old(self).cols as int, x as int) - 1,
                x + C51_FUNNEL,
                old(self).rows as int,
                old(self).cols as int,
            ),
    {
        if x < -C51_LENGTH {
            return false;
        }
        let ghost rows = self.rows as int;
        let ghost cols = self.cols as int;
        let ghost c0 = self.canvas@;
        let mut y = if args.one {
            self.rows as i32 - C51_HEIGHT
        } else {
            (self.rows as i32) / 2 - 5
        };
        let mut dy: i32 = 0;
        if args.fly {
            y = (x / 7) + (self.rows as i32) - (self.cols as i32 / 7) - C51_HEIGHT;
            dy = 1;
        }
        assert(y == c51_top(*args, rows, cols, x as int));
        let ptn = ((C51_LENGTH + x) as usize) % PATTERNS;
        let body = c51_body();
        self.draw_lines(y, x, &body);
        let height = body.len() as i32;
        let wheels = c51_wheels(ptn);
        self.draw_lines(y + height, x, &wheels);
        let height = height + wheels.len() as i32;
        self.draw_text(y + height, x, wheels_eraser());
        let car_x_offset: i32 = 55;
        let coal = c51_coal();
        self.draw_lines(y + dy, x + car_x_offset, &coal);
        if args.accident {
            proof {
                crate::geometry::lemma_man_pose_alternates(C51_LENGTH + x + 45);
                crate::geometry::lemma_man_pose_alternates(C51_LENGTH + x + 49);
            }
            self.add_man(y + 3, x + 45, C51_LENGTH);
            self.add_man(y + 3, x + 49, C51_LENGTH);
        }
        assert(self.canvas@ =~= c0 + c51_spans(*args, rows, cols, x as int));
        env.add_smoke(self, y - 1, x + C51_FUNNEL);
        true
    }

    /// Draws the small SL train with its left edge at column `x`, and moves
    /// its smoke on. Returns whether the train is still on its way.
    #[verifier::rlimit(40)]
    #[verifier::spinoff_prover]
    pub fn render_logo(&mut self, env: &mut SmokePlume, args: &Config, x: i32) -> (visible: bool)
        requires
            old(env)@.wf(),
            fits_i32(LOGO_LENGTH + x),
            args.accident ==> fits_i32(LOGO_LENGTH + x + 74),
            old(env)@.ready_at(x + LOGO_FUNNEL),
        ensures
            visible == (x >= -LOGO_LENGTH),
            final(self).rows == old(self).rows,
            final(self).cols == old(self).cols,
            final(env)@.wf(),
            !visible ==> final(self).canvas@ == old(self).canvas@ && final(env)@ == old(env)@,
            visible ==> final(env)@ == old(env)@.after(
                (logo_top(*args, old(self).rows as int, old(self).cols as int, x as int) - 1) as i32,
                (x + LOGO_FUNNEL) as i32,
            ),
            visible ==> final(self).canvas@ == old(self).canvas@ + logo_spans(
                *args,
                old(self).rows as int,
                old(self).cols as int,
                x as int,
            ) + plume_spans(
                old(env)@,
                logo_top(*args, old(self).rows as int, old(self).cols as int, x as int) - 1,
                x + LOGO_FUNNEL,
                old(self).rows as int,
                old(self).cols as int,
            ),
    {
        if x < -LOGO_LENGTH {
            return false;
        }
        let ghost rows = self.rows as int;
        let ghost cols = self.cols as int;
        let ghost c0 = self.canvas@;
        let mut y = if args.one {
            self.rows as i32 - LOGO_HEIGHT
        } else {
            (self.rows as i32) / 2 - 3
        };
        let mut py1: i32 = 0;
        let mut py2: i32 = 0;
        let mut py3: i32 = 0;
        if args.fly {
            y = (x / 6) + (self.rows as i32) - (self.cols as i32 / 6) - LOGO_HEIGHT;
            py1 = 2;
            py2 = 4;
            py3 = 6;
        }
        assert(y == logo_top(*args, rows, cols, x as int));
        let ptn = ((LOGO_LENGTH + x) / 3 % PATTERNS as i32) as usize;
        let body = logo_body();
        self.draw_lines(y, x, &body);
        let height = body.len() as i32;
        let wheels = logo_wheels(ptn);
        self.draw_lines(y + height, x, &wheels);
        let height = height + wheels.len() as i32;
        self.draw_text(y + height, x, logo_eraser());
        let coal = logo_coal();
        self.draw_lines(y + py1, x + 21, &coal);
        let car = logo_car();
        self.draw_lines(y + py2, x + 42, &car);
        self.draw_lines(y + py3, x + 63, &car);
        let ghost c1 = self.canvas@;
        assert(c1 =~= c0 + logo_train_spans(*args, rows, cols, x as int));
        if args.accident {
            proof {
                crate::geometry::lemma_man_pose_alternates(LOGO_LENGTH + x + 14);
                crate::geometry::lemma_man_pose_alternates(LOGO_LENGTH + x + 45);
                crate::geometry::lemma_man_pose_alternates(LOGO_LENGTH + x + 53);
                crate::geometry::lemma_man_pose_alternates(LOGO_LENGTH + x + 66);
                crate::geometry::lemma_man_pose_alternates(LOGO_LENGTH + x + 74);
            }
            self.add_man(y + 1, x + 14, LOGO_LENGTH);
            self.add_man(y + 1 + py2, x + 45, LOGO_LENGTH);
            self.add_man(y + 1 + py2, x + 53, LOGO_LENGTH);
            self.add_man(y + 1 + py3, x + 66, LOGO_LENGTH);
            self.add_man(y + 1 + py3, x + 74, LOGO_LENGTH);
            assert(self.canvas@ =~= c1 + logo_men_spans(*args, rows, cols, x as int));
        }
        assert(self.canvas@ =~= c0 + logo_spans(*args, rows, cols, x as int));
        env.add_smoke(self, y - 1, x + LOGO_FUNNEL);
        true
    }

    /// Draws the train the options choose (the small SL train, else the
    /// C51, else the D51) at column `x` and moves its smoke on. Returns
    /// whether the train is still on its way.
    pub fn render_train(&mut self, env: &mut SmokePlume, args: &Config, x: i32) -> (visible: bool)
        requires
            old(env)@.wf(),
            train_fits(*args, x as int),
            old(env)@.ready_at(funnel_col(*args, x as int)),
        ensures
            visible == (x >= -train_length(*args)),
            final(self).rows == old(self).rows,
            final(self).cols == old(self).cols,
            final(env)@.wf(),
            !visible ==> final(self).canvas@ == old(self).canvas@ && final(env)@ == old(env)@,
            visible ==> final(env)@ == old(env)@.after(
                funnel_row(*args, old(self).rows as int, old(self).cols as int, x as int) as i32,
                funnel_col(*args, x as int) as i32,
            ),
            visible ==> final(self).canvas@ == old(self).canvas@ + train_spans(
                *args,
                old(self).rows as int,
                old(self).cols as int,
                x as int,
            ) + plume_spans(
                old(env)@,
                funnel_row(*args, old(self).rows as int, old(self).cols as int, x as int),
                funnel_col(*args, x as int),
                old(self).rows as int,
                old(self).cols as int,
            ),
    {
        if args.logo {
            self.render_logo(env, args, x)
        } else if args.c51 {
            self.render_c51(env, args, x)
        } else {
            self.render_d51(env, args, x)
        }
    }

}

/// Moving the puffs never draws outside the screen.
proof fn lemma_puffs_spans_on_screen(ps: Seq<SmokePuff>, rows: int, cols: int)
    ensures
        all_on_screen(puffs_spans(ps, rows, cols), rows, cols),
    decreases ps.len(),
{
    broadcast use group_on_screen;

    if ps.len() > 0 {
        lemma_puffs_spans_on_screen(ps.drop_last(), rows, cols);
    }
}

/// A whole frame, the chosen train and its smoke, lies on the screen:
/// nothing is ever drawn outside the terminal.
pub proof fn lemma_frame_on_screen(cfg: Config, s: PlumeState, rows: int, cols: int, x: int)
    ensures
        all_on_screen(
            train_spans(cfg, rows, cols, x) + plume_spans(
                s,
                funnel_row(cfg, rows, cols, x),
                funnel_col(cfg, x),
                rows,
                cols,
            ),
            rows,
            cols,
        ),
{
    broadcast use group_on_screen;

    lemma_puffs_spans_on_screen(s.puffs, rows, cols);
    assert(all_on_screen(train_spans(cfg, rows, cols, x), rows, cols));
}

/// With `-1` and without `-F` every train stands at the bottom of the
/// screen: its top row is the screen's height less the train's.
pub proof fn lemma_one_stands_at_bottom(cfg: Config, rows: int, cols: int, x: int)
    requires
        cfg.one,
        !cfg.fly,
    ensures
        d51_top(cfg, rows, cols, x) == rows - 10,
        c51_top(cfg, rows, cols, x) == rows - 11,
        logo_top(cfg, rows, cols, x) == rows - 6,
{
}

/// What a person on board paints: only the row given and the one under it,
/// from the column given on.
proof fn lemma_man_spans_footprint(y: int, x: int, l: int, rows: int, cols: int, p: (int, int))
    requires
        0 <= cols,
        picture(man_spans(y, x, l, rows, cols)).contains_key(p),
    ensures
        p.0 == y || p.0 == y + 1,
        x <= p.1,
{
    let pm = man_pose(l + x);
    lemma_text_span_paints_visible_cells(y, x, man_text(pm)[0], rows, cols);
    lemma_text_span_paints_visible_cells(y + 1, x, man_text(pm)[1], rows, cols);
    lemma_picture_cell(
        text_span(y, x, man_text(pm)[0], rows, cols),
        text_span(y + 1, x, man_text(pm)[1], rows, cols),
        p,
    );
}

/// With `-1` and without `-F` the C51 stands on the bottom of the screen:
/// the first line of its body shows on row `rows - 11`, from its left edge
/// to where its coal car starts.
pub proof fn lemma_c51_stands_at_bottom(cfg: Config, rows: int, cols: int, x: int, c: int)
    requires
        cfg.one,
        !cfg.fly,
        0 <= cols,
        rows >= 11,
        x <= c < x + 55,
        0 <= c < cols,
    ensures
        picture(c51_spans(cfg, rows, cols, x)).contains_key((rows - 11, c)),
        picture(c51_spans(cfg, rows, cols, x))[(rows - 11, c)] == c51_body_text()[0][c - x],
{
    let y = c51_top(cfg, rows, cols, x);
    assert(y == rows - 11);
    let p = (y, c);
    lemma_c51_top_line();
    let body = text_lines(y, x, c51_body_text(), rows, cols);
    let wheels = text_lines(y + 7, x, c51_wheels_text(c51_pattern(x)), rows, cols);
    let eraser = text_span(y + 11, x, wheels_eraser_text(), rows, cols);
    let coal = text_lines(y, x + 55, c51_coal_text(), rows, cols);
    lemma_text_lines_cell(y, x, c51_body_text(), rows, cols, 0, c);
    if picture(wheels).contains_key(p) {
        lemma_text_lines_footprint(y + 7, x, c51_wheels_text(c51_pattern(x)), rows, cols, p);
    }
    lemma_text_span_paints_visible_cells(y + 11, x, wheels_eraser_text(), rows, cols);
    if picture(coal).contains_key(p) {
        lemma_text_lines_footprint(y, x + 55, c51_coal_text(), rows, cols, p);
    }
    lemma_picture_cell(body, wheels, p);
    lemma_picture_cell(body + wheels, eraser, p);
    lemma_picture_cell(body + wheels + eraser, coal, p);
    let front = body + wheels + eraser + coal;
    if cfg.accident {
        let m1 = man_spans(y + 3, x + 45, C51_LENGTH as int, rows, cols);
        let m2 = man_spans(y + 3, x + 49, C51_LENGTH as int, rows, cols);
        if picture(m1).contains_key(p) {
            lemma_man_spans_footprint(y + 3, x + 45, C51_LENGTH as int, rows, cols, p);
        }
        if picture(m2).contains_key(p) {
            lemma_man_spans_footprint(y + 3, x + 49, C51_LENGTH as int, rows, cols, p);
        }
        lemma_picture_cell(m1, m2, p);
        lemma_picture_cell(front, m1 + m2, p);
        assert(c51_spans(cfg, rows, cols, x) == front + (m1 + m2));
    } else {
        lemma_picture_cell(front, Seq::<Span>::empty(), p);
        assert(c51_spans(cfg, rows, cols, x) == front + Seq::<Span>::empty());
    }
}

/// Moving a puff erases it: the cells its old shape covered are blanked,
/// and its new shape is drawn over them; nothing else is painted.
pub proof fn lemma_puff_move_erases(q: SmokePuff, rows: int, cols: int)
    requires
        0 <= cols,
        q.frame < SMOKE_FRAMES,
    ensures
        picture(puff_spans(q, rows, cols)) == blanked(
            visible_cells(q.y as int, q.x as int, smoke_text(q.kind.shade())[q.frame as int], rows, cols),
        ).union_prefer_right(
            visible_cells(
                puff_moved(q).y as int,
                puff_moved(q).x as int,
                smoke_text(q.kind.shade())[puff_moved(q).frame as int],
                rows,
                cols,
            ),
        ),
{
    let m = puff_moved(q);
    let erase = text_span(q.y as int, q.x as int, smoke_eraser_text()[q.frame as int], rows, cols);
    let draw = text_span(m.y as int, m.x as int, smoke_text(m.kind.shade())[m.frame as int], rows, cols);
    lemma_eraser_fits_smoke(q.kind.shade(), q.frame as int);
    lemma_picture_append(erase, draw);
    lemma_text_span_paints_visible_cells(q.y as int, q.x as int, smoke_eraser_text()[q.frame as int], rows, cols);
    lemma_text_span_paints_visible_cells(m.y as int, m.x as int, smoke_text(m.kind.shade())[m.frame as int], rows, cols);
    assert(visible_cells(q.y as int, q.x as int, smoke_eraser_text()[q.frame as int], rows, cols) =~= blanked(
        visible_cells(q.y as int, q.x as int, smoke_text(q.kind.shade())[q.frame as int], rows, cols),
    ));
}

/// Moving the puffs of `a` and then those of `b` draws what moving each
/// list draws, one after the other.
proof fn lemma_puffs_spans_append(a: Seq<SmokePuff>, b: Seq<SmokePuff>, rows: int, cols: int)
    ensures
        puffs_spans(a + b, rows, cols) == puffs_spans(a, rows, cols) + puffs_spans(b, rows, cols),
    decreases b.len(),
{
    if b.len() == 0 {
        assert(a + b =~= a);
        assert(puffs_spans(a, rows, cols) + puffs_spans(b, rows, cols) =~= puffs_spans(a, rows, cols));
    } else {
        lemma_puffs_spans_append(a, b.drop_last(), rows, cols);
        assert((a + b).drop_last() =~= a + b.drop_last());
        assert((a + b).last() == b.last());
        assert(puffs_spans(a + b, rows, cols) =~= puffs_spans(a, rows, cols) + puffs_spans(b, rows, cols));
    }
}

/// When the smoke moves, no puff leaves a trail: every cell of the screen
/// that puff `i` covered before the move is painted again in the frame,
/// and shows a blank unless something drawn after the blanks covers it:
/// the puff's own new shape, a later puff, or the new puff at the funnel.
pub proof fn lemma_old_puffs_erased(
    s: PlumeState,
    y: int,
    x: int,
    rows: int,
    cols: int,
    i: int,
    p: (int, int),
)
    requires
        s.wf(),
        0 <= cols,
        x % 4 == 0,
        0 <= i < s.puffs.len(),
        visible_cells(
            s.puffs[i].y as int,
            s.puffs[i].x as int,
            smoke_text(s.puffs[i].kind.shade())[s.puffs[i].frame as int],
            rows,
            cols,
        ).contains_key(p),
    ensures
        picture(plume_spans(s, y, x, rows, cols)).contains_key(p),
        ({
            let m = puff_moved(s.puffs[i]);
            let later = text_span(m.y as int, m.x as int, smoke_text(m.kind.shade())[m.frame as int], rows, cols)
                + puffs_spans(s.puffs.skip(i + 1), rows, cols) + text_span(
                y,
                x,
                smoke_text(s.next_puff.shade())[0],
                rows,
                cols,
            );
            picture(plume_spans(s, y, x, rows, cols))[p] == ' ' || picture(later).contains_key(p)
        }),
{
    let q = s.puffs[i];
    let m = puff_moved(q);
    assert(q.frame < SMOKE_FRAMES);
    lemma_eraser_fits_smoke(q.kind.shade(), q.frame as int);
    let erase = text_span(q.y as int, q.x as int, smoke_eraser_text()[q.frame as int], rows, cols);
    let draw = text_span(m.y as int, m.x as int, smoke_text(m.kind.shade())[m.frame as int], rows, cols);
    let front = puffs_spans(s.puffs.take(i), rows, cols);
    let back = puffs_spans(s.puffs.skip(i + 1), rows, cols);
    let fresh = text_span(y, x, smoke_text(s.next_puff.shade())[0], rows, cols);
    lemma_text_span_paints_visible_cells(q.y as int, q.x as int, smoke_eraser_text()[q.frame as int], rows, cols);
    assert(picture(erase).contains_key(p));
    assert(picture(erase)[p] == ' ');
    lemma_puffs_spans_append(s.puffs.take(i), s.puffs.skip(i), rows, cols);
    assert(s.puffs.take(i) + s.puffs.skip(i) =~= s.puffs);
    lemma_puffs_spans_append(seq![q], s.puffs.skip(i + 1), rows, cols);
    assert(seq![q] + s.puffs.skip(i + 1) =~= s.puffs.skip(i));
    assert(seq![q].drop_last() =~= Seq::<SmokePuff>::empty());
    assert(seq![q].last() == q);
    assert(puffs_spans(seq![q].drop_last(), rows, cols) == Seq::<Span>::empty());
    assert(puffs_spans(seq![q], rows, cols) == puffs_spans(seq![q].drop_last(), rows, cols) + puff_spans(q, rows, cols));
    assert(puffs_spans(seq![q], rows, cols) =~= erase + draw);
    let later = draw + back + fresh;
    assert(plume_spans(s, y, x, rows, cols) =~= front + erase + later);
    lemma_picture_cell(front, erase, p);
    lemma_picture_cell(front + erase, later, p);
}

/// The wheels of the D51 turn as it moves: at column `x` the three rows
/// under its seven-row body show wheel pattern `(83 + x) % 6`, which steps
/// on by one with every column and comes back every six.
pub proof fn lemma_d51_wheels_turn(cfg: Config, rows: int, cols: int, x: int, j: int, c: int)
    requires
        0 <= cols,
        0 <= j < 3,
        x <= c < x + 53,
        0 <= c < cols,
        0 <= d51_top(cfg, rows, cols, x) + 7 + j < rows,
    ensures
        picture(d51_spans(cfg, rows, cols, x)).contains_key((d51_top(cfg, rows, cols, x) + 7 + j, c)),
        picture(d51_spans(cfg, rows, cols, x))[(d51_top(cfg, rows, cols, x) + 7 + j, c)]
            == d51_wheels_text((D51_LENGTH + x) % 6)[j][c - x],
{
    let y = d51_top(cfg, rows, cols, x);
    let dy = if cfg.fly {
        1int
    } else {
        0
    };
    let p = (y + 7 + j, c);
    lemma_d51_shape();
    let body = text_lines(y, x, d51_body_text(), rows, cols);
    let wheels = text_lines(y + 7, x, d51_wheels_text(d51_pattern(x)), rows, cols);
    let eraser = text_span(y + 10, x, wheels_eraser_text(), rows, cols);
    let coal = text_lines(y + dy, x + 53, d51_coal_text(), rows, cols);
    lemma_text_lines_cell(y + 7, x, d51_wheels_text(d51_pattern(x)), rows, cols, j, c);
    lemma_text_span_paints_visible_cells(y + 10, x, wheels_eraser_text(), rows, cols);
    if picture(coal).contains_key(p) {
        lemma_text_lines_footprint(y + dy, x + 53, d51_coal_text(), rows, cols, p);
    }
    lemma_picture_cell(body, wheels, p);
    lemma_picture_cell(body + wheels, eraser, p);
    lemma_picture_cell(body + wheels + eraser, coal, p);
    let front = body + wheels + eraser + coal;
    if cfg.accident {
        let m1 = man_spans(y + 2, x + 43, D51_LENGTH as int, rows, cols);
        let m2 = man_spans(y + 2, x + 47, D51_LENGTH as int, rows, cols);
        if picture(m1).contains_key(p) {
            lemma_man_spans_footprint(y + 2, x + 43, D51_LENGTH as int, rows, cols, p);
        }
        if picture(m2).contains_key(p) {
            lemma_man_spans_footprint(y + 2, x + 47, D51_LENGTH as int, rows, cols, p);
        }
        lemma_picture_cell(m1, m2, p);
        lemma_picture_cell(front, m1 + m2, p);
        assert(d51_spans(cfg, rows, cols, x) == front + (m1 + m2));
    } else {
        lemma_picture_cell(front, Seq::<Span>::empty(), p);
        assert(d51_spans(cfg, rows, cols, x) == front + Seq::<Span>::empty());
    }
}

/// With an accident the small SL train carries five people crying for
/// help, one on the locomotive and two on each passenger car, drawn after
/// the train: the frame is the one without the accident followed by them.
pub proof fn lemma_logo_accident_adds_people(cfg: Config, rows: int, cols: int, x: int)
    ensures
        ({
            let y = logo_top(cfg, rows, cols, x);
            let y2 = y + 1 + if cfg.fly {
                4int
            } else {
                0
            };
            let y3 = y + 1 + if cfg.fly {
                6int
            } else {
                0
            };
            let l = LOGO_LENGTH as int;
            logo_spans(Config { accident: true, ..cfg }, rows, cols, x) == logo_spans(
                Config { accident: false, ..cfg },
                rows,
                cols,
                x,
            ) + man_spans(y + 1, x + 14, l, rows, cols) + man_spans(y2, x + 45, l, rows, cols)
                + man_spans(y2, x + 53, l, rows, cols) + man_spans(y3, x + 66, l, rows, cols)
                + man_spans(y3, x + 74, l, rows, cols)
        }),
{
    let on = Config { accident: true, ..cfg };
    let off = Config { accident: false, ..cfg };
    assert(logo_spans(off, rows, cols, x) + Seq::<Span>::empty() =~= logo_spans(off, rows, cols, x));
    assert(logo_spans(on, rows, cols, x) =~= logo_spans(off, rows, cols, x) + logo_men_spans(on, rows, cols, x));
}

/// With an accident two people on the D51 cry for help, drawn after the
/// train, two rows under its top and 43 and 47 columns from its left
/// edge: the frame is the one without the accident followed by them.
pub proof fn lemma_d51_accident_adds_people(cfg: Config, rows: int, cols: int, x: int)
    ensures
        ({
            let y = d51_top(cfg, rows, cols, x);
            d51_spans(Config { accident: true, ..cfg }, rows, cols, x) == d51_spans(
                Config { accident: false, ..cfg },
                rows,
                cols,
                x,
            ) + man_spans(y + 2, x + 43, D51_LENGTH as int, rows, cols) + man_spans(y + 2, x + 47, D51_LENGTH as int, rows, cols)
        }),
{
    let off = Config { accident: false, ..cfg };
    assert(d51_spans(off, rows, cols, x) + Seq::<Span>::empty() =~= d51_spans(off, rows, cols, x));
}

/// With an accident two people on the C51 cry for help, drawn after the
/// train, three rows under its top and 45 and 49 columns from its left
/// edge: the frame is the one without the accident followed by them.
pub proof fn lemma_c51_accident_adds_people(cfg: Config, rows: int, cols: int, x: int)
    ensures
        ({
            let y = c51_top(cfg, rows, cols, x);
            c51_spans(Config { accident: true, ..cfg }, rows, cols, x) == c51_spans(
                Config { accident: false, ..cfg },
                rows,
                cols,
                x,
            ) + man_spans(y + 3, x + 45, C51_LENGTH as int, rows, cols) + man_spans(y + 3, x + 49, C51_LENGTH as int, rows, cols)
        }),
{
    let off = Config { accident: false, ..cfg };
    assert(c51_spans(off, rows, cols, x) + Seq::<Span>::empty() =~= c51_spans(off, rows, cols, x));
}

/// The wheels of the C51 turn as it moves: at column `x` the four rows
/// under its seven-row body show wheel pattern `(87 + x) % 6`, which steps
/// on by one with every column and comes back every six.
pub proof fn lemma_c51_wheels_turn(cfg: Config, rows: int, cols: int, x: int, j: int, c: int)
    requires
        0 <= cols,
        0 <= j < 4,
        x <= c < x + 55,
        0 <= c < cols,
        0 <= c51_top(cfg, rows, cols, x) + 7 + j < rows,
    ensures
        picture(c51_spans(cfg, rows, cols, x)).contains_key((c51_top(cfg, rows, cols, x) + 7 + j, c)),
        picture(c51_spans(cfg, rows, cols, x))[(c51_top(cfg, rows, cols, x) + 7 + j, c)]
            == c51_wheels_text((C51_LENGTH + x) % 6)[j][c - x],
{
    let y = c51_top(cfg, rows, cols, x);
    let dy = if cfg.fly {
        1int
    } else {
        0
    };
    let p = (y + 7 + j, c);
    lemma_c51_shape();
    let body = text_lines(y, x, c51_body_text(), rows, cols);
    let wheels = text_lines(y + 7, x, c51_wheels_text(c51_pattern(x)), rows, cols);
    let eraser = text_span(y + 11, x, wheels_eraser_text(), rows, cols);
    let coal = text_lines(y + dy, x + 55, c51_coal_text(), rows, cols);
    lemma_text_lines_cell(y + 7, x, c51_wheels_text(c51_pattern(x)), rows, cols, j, c);
    lemma_text_span_paints_visible_cells(y + 11, x, wheels_eraser_text(), rows, cols);
    if picture(coal).contains_key(p) {
        lemma_text_lines_footprint(y + dy, x + 55, c51_coal_text(), rows, cols, p);
    }
    lemma_picture_cell(body, wheels, p);
    lemma_picture_cell(body + wheels, eraser, p);
    lemma_picture_cell(body + wheels + eraser, coal, p);
    let front = body + wheels + eraser + coal;
    if cfg.accident {
        let m1 = man_spans(y + 3, x + 45, C51_LENGTH as int, rows, cols);
        let m2 = man_spans(y + 3, x + 49, C51_LENGTH as int, rows, cols);
        if picture(m1).contains_key(p) {
            lemma_man_spans_footprint(y + 3, x + 45, C51_LENGTH as int, rows, cols, p);
        }
        if picture(m2).contains_key(p) {
            lemma_man_spans_footprint(y + 3, x + 49, C51_LENGTH as int, rows, cols, p);
        }
        lemma_picture_cell(m1, m2, p);
        lemma_picture_cell(front, m1 + m2, p);
        assert(c51_spans(cfg, rows, cols, x) == front + (m1 + m2));
    } else {
        lemma_picture_cell(front, Seq::<Span>::empty(), p);
        assert(c51_spans(cfg, rows, cols, x) == front + Seq::<Span>::empty());
    }
}

/// The wheels of the small SL locomotive turn as it moves: at column `x`
/// the two rows under its four-row body show wheel pattern
/// `((84 + x) / 3) % 6`, which steps on every third column.
pub proof fn lemma_logo_wheels_turn(cfg: Config, rows: int, cols: int, x: int, j: int, c: int)
    requires
        0 <= cols,
        0 <= j < 2,
        x <= c < x + 21,
        0 <= c < cols,
        0 <= logo_top(cfg, rows, cols, x) + 4 + j < rows,
    ensures
        picture(logo_spans(cfg, rows, cols, x)).contains_key((logo_top(cfg, rows, cols, x) + 4 + j, c)),
        picture(logo_spans(cfg, rows, cols, x))[(logo_top(cfg, rows, cols, x) + 4 + j, c)]
            == logo_wheels_text(((LOGO_LENGTH + x) / 3) % 6)[j][c - x],
{
    let y = logo_top(cfg, rows, cols, x);
    let p = (y + 4 + j, c);
    lemma_logo_shape();
    let body = text_lines(y, x, logo_body_text(), rows, cols);
    let wheels = text_lines(y + 4, x, logo_wheels_text(logo_pattern(x)), rows, cols);
    let eraser = text_span(y + 6, x, logo_eraser_text(), rows, cols);
    let coal = text_lines(y + logo_car_drop(cfg, 1), x + 21, logo_coal_text(), rows, cols);
    let car2 = text_lines(y + logo_car_drop(cfg, 2), x + 42, logo_car_text(), rows, cols);
    let car3 = text_lines(y + logo_car_drop(cfg, 3), x + 63, logo_car_text(), rows, cols);
    lemma_text_lines_cell(y + 4, x, logo_wheels_text(logo_pattern(x)), rows, cols, j, c);
    lemma_text_span_paints_visible_cells(y + 6, x, logo_eraser_text(), rows, cols);
    if picture(coal).contains_key(p) {
        lemma_text_lines_footprint(y + logo_car_drop(cfg, 1), x + 21, logo_coal_text(), rows, cols, p);
    }
    if picture(car2).contains_key(p) {
        lemma_text_lines_footprint(y + logo_car_drop(cfg, 2), x + 42, logo_car_text(), rows, cols, p);
    }
    if picture(car3).contains_key(p) {
        lemma_text_lines_footprint(y + logo_car_drop(cfg, 3), x + 63, logo_car_text(), rows, cols, p);
    }
    lemma_picture_cell(body, wheels, p);
    lemma_picture_cell(body + wheels, eraser, p);
    lemma_picture_cell(body + wheels + eraser, coal, p);
    lemma_picture_cell(body + wheels + eraser + coal, car2, p);
    lemma_picture_cell(body + wheels + eraser + coal + car2, car3, p);
    let front = body + wheels + eraser + coal + car2 + car3;
    assert(logo_train_spans(cfg, rows, cols, x) == front);
    if cfg.accident {
        let l = LOGO_LENGTH as int;
        let y2 = y + 1 + logo_car_drop(cfg, 2);
        let y3 = y + 1 + logo_car_drop(cfg, 3);
        let m1 = man_spans(y + 1, x + 14, l, rows, cols);
        let m2 = man_spans(y2, x + 45, l, rows, cols);
        let m3 = man_spans(y2, x + 53, l, rows, cols);
        let m4 = man_spans(y3, x + 66, l, rows, cols);
        let m5 = man_spans(y3, x + 74, l, rows, cols);
        if picture(m1).contains_key(p) {
            lemma_man_spans_footprint(y + 1, x + 14, l, rows, cols, p);
        }
        if picture(m2).contains_key(p) {
            lemma_man_spans_footprint(y2, x + 45, l, rows, cols, p);
        }
        if picture(m3).contains_key(p) {
            lemma_man_spans_footprint(y2, x + 53, l, rows, cols, p);
        }
        if picture(m4).contains_key(p) {
            lemma_man_spans_footprint(y3, x + 66, l, rows, cols, p);
        }
        if picture(m5).contains_key(p) {
            lemma_man_spans_footprint(y3, x + 74, l, rows, cols, p);
        }
        lemma_picture_cell(m1, m2, p);
        lemma_picture_cell(m1 + m2, m3, p);
        lemma_picture_cell(m1 + m2 + m3, m4, p);
        lemma_picture_cell(m1 + m2 + m3 + m4, m5, p);
        let men = m1 + m2 + m3 + m4 + m5;
        lemma_picture_cell(front, men, p);
        assert(logo_men_spans(cfg, rows, cols, x) == men);
        assert(logo_spans(cfg, rows, cols, x) == front + men);
    } else {
        lemma_picture_cell(front, Seq::<Span>::empty(), p);
        assert(logo_spans(cfg, rows, cols, x) == front + Seq::<Span>::empty());
    }
}

} // verus!
