//! `sl` in its classic form: the drawing routines take the screen size as
//! arguments, each train is drawn row by row with its cars beside it, the
//! program can be quit with `q` and follows resizes of the terminal, and
//! smoke that has drifted off the right edge in its last frame is dropped.
use vstd::prelude::*;
use vstd::string::*;
use crate::art::{
    c51_body, c51_body_text, c51_wheels, c51_wheels_text, classic_coal, classic_coal_text,
    coal_blank, coal_blank_text, d51_body, d51_body_text, d51_trail, d51_trail_text, d51_wheels,
    d51_wheels_text, logo_body, logo_body_text, logo_car, logo_car_text, logo_coal,
    logo_coal_text, logo_eraser, logo_eraser_text, logo_wheels, logo_wheels_text, man, man_text,
    next_frame, smoke_drift, smoke_dx, smoke_dy, smoke_eraser, smoke_eraser_text, smoke_rise,
    smoke_shape, smoke_text, text_of, wheels_eraser, wheels_eraser_text, lemma_c51_shape,
    lemma_d51_shape, lemma_logo_shape,
    lemma_eraser_fits_smoke, lemma_man_shape, SMOKE_FRAMES,
};
use crate::frame::{
    all_on_screen, blanked, group_on_screen, four_rows, lemma_paired_rows_first_layer, lemma_four_rows_first_layer,
    lemma_picture_append, lemma_picture_cell, lemma_text_span_paints_visible_cells, paired_rows,
    picture, text_span, visible_cells, Canvas, Clip, Layer, Span,
};
pub use crate::terminal::TerminalGuard;
use crate::geometry::{
    c51_pattern, d51_pattern, fits_i32, flying_top, logo_pattern, man_pose, man_pose_of,
    C51_FUNNEL, C51_HEIGHT, C51_LENGTH, D51_FUNNEL, D51_HEIGHT, D51_LENGTH, LOGO_FUNNEL,
    LOGO_HEIGHT, LOGO_LENGTH, PATTERNS,
};
use crate::terminal::{InputEvent, KeyCode};

verus! {

/// The options of the program.
#[derive(Clone, Copy, Debug, PartialEq, Eq, Structural)]
pub struct Config {
    /// People on board cry for help.
    pub accident: bool,
    /// The train flies up the screen.
    pub fly: bool,
    /// Draw the small SL train.
    pub logo: bool,
    /// Draw the C51 instead of the D51.
    pub c51: bool,
}

/// What the animation does about an input event.
#[derive(Clone, Copy, Debug, PartialEq, Eq, Structural)]
pub enum Reaction {
    /// Stop.
    Quit,
    /// Go on with a screen of the new size, cleared.
    Resize { cols: u16, rows: u16 },
    /// Go on.
    Continue,
}

/// What the animation does about `ev`: Control-C and `q` stop it, a resize
/// changes the screen size, anything else is ignored.
pub open spec fn reaction_to(ev: InputEvent) -> Reaction {
    match ev {
        InputEvent::Key { code: KeyCode::Char(c), control } => if (c == 'c' && control) || c
            == 'q' {
            Reaction::Quit
        } else {
            Reaction::Continue
        },
        InputEvent::Resize { cols, rows } => Reaction::Resize { cols, rows },
        _ => Reaction::Continue,
    }
}

/// Decides what the animation does about an input event.
pub fn handle_event(ev: &InputEvent) -> (r: Reaction)
    ensures
        r == reaction_to(*ev),
        (r is Quit) <==> (*ev matches InputEvent::Key { code: KeyCode::Char(c), control } && (c
            == 'q' || (c == 'c' && control))),
        *ev matches InputEvent::Resize { cols, rows } ==> r == (Reaction::Resize { cols, rows }),
        !(r is Quit) && !(*ev is Resize) ==> r == Reaction::Continue,
{
    match ev {
        InputEvent::Key { code: KeyCode::Char(c), control } => {
            if *c == 'c' && *control {
                Reaction::Quit
            } else if *c == 'q' {
                Reaction::Quit
            } else {
                Reaction::Continue
            }
        },
        InputEvent::Resize { cols, rows } => Reaction::Resize { cols: *cols, rows: *rows },
        _ => Reaction::Continue,
    }
}

/// Queues the part of the text `s` placed at row `y`, column `x` that falls
/// on a screen of `cols` columns and `rows` rows.
pub fn my_mvaddstr(out: &mut Canvas, y: i32, x: i32, s: &str, cols: u16, rows: u16)
    ensures
        final(out)@ == old(out)@ + text_span(y as int, x as int, s@, rows as int, cols as int),
{
    reveal(text_span);
    let ghost expected = text_span(y as int, x as int, s@, rows as int, cols as int);
    if y < 0 || y >= rows as i32 {
        assert(expected =~= Seq::<Span>::empty());
        assert(old(out)@ + expected =~= old(out)@);
        return ;
    }
    let n = s.unicode_len();
    let mut draw_x: i64 = x as i64;
    let mut start_idx: usize = 0;
    if x < 0 {
        start_idx = (-(x as i64)) as usize;
        draw_x = 0;
    }
    if start_idx >= n {
        assert(expected =~= Seq::<Span>::empty());
        assert(old(out)@ + expected =~= old(out)@);
        return ;
    }
    let room: i64 = cols as i64 - draw_x;
    let max_len: usize = if room > 0 {
        room as usize
    } else {
        0
    };
    let len = if n - start_idx < max_len {
        n - start_idx
    } else {
        max_len
    };
    if len == 0 {
        assert(expected =~= Seq::<Span>::empty());
        assert(old(out)@ + expected =~= old(out)@);
        return ;
    }
    let display_str = s.substring_char(start_idx, start_idx + len);
    out.put(y as u16, draw_x as u16, display_str.to_owned());
    assert(expected =~= seq![
        Span {
            row: y as int,
            col: draw_x as int,
            text: s@.subrange(start_idx as int, start_idx + len),
        },
    ]);
    assert(out@ =~= old(out)@ + expected);
}

/// What a person on board draws: the two lines of the pose that the train's
/// column `global_x` selects, placed at row `y`, column `x`.
pub open spec fn man_spans(y: int, x: int, global_x: int, rows: int, cols: int) -> Seq<Span> {
    let p = man_pose(LOGO_LENGTH + global_x);
    text_span(y, x, man_text(p)[0], rows, cols) + text_span(y + 1, x, man_text(p)[1], rows, cols)
}

/// Queues a person on board at row `y`, column `x`, in the pose that the
/// train's column `global_x` selects.
pub fn add_man(out: &mut Canvas, y: i32, x: i32, global_x: i32, cols: u16, rows: u16)
    requires
        fits_i32(LOGO_LENGTH + global_x),
        man_pose(LOGO_LENGTH + global_x) >= 0,
        y < i32::MAX,
    ensures
        final(out)@ == old(out)@ + man_spans(
            y as int,
            x as int,
            global_x as int,
            rows as int,
            cols as int,
        ),
{
    let ptrn = man_pose_of(LOGO_LENGTH + global_x) as usize;
    let m = man(ptrn);
    my_mvaddstr(out, y, x, m[0], cols, rows);
    my_mvaddstr(out, y + 1, x, m[1], cols, rows);
}

/// One puff of smoke: where it is, its frame, and its kind (0 or 1).
#[derive(Clone, Copy, Debug, PartialEq, Eq, Structural)]
pub struct SmokeDrop {
    pub y: i32,
    pub x: i32,
    pub ptrn: usize,
    pub kind: usize,
}

/// Where a puff goes and what it shows at the next step.
pub open spec fn drop_moved(d: SmokeDrop) -> SmokeDrop {
    SmokeDrop {
        y: (d.y - smoke_rise(d.ptrn as int)) as i32,
        x: (d.x + smoke_drift(d.ptrn as int)) as i32,
        ptrn: next_frame(d.ptrn as int) as usize,
        kind: d.kind,
    }
}

/// The puff can take its next step without leaving the range of `i32`.
pub open spec fn drop_can_move(d: SmokeDrop) -> bool {
    fits_i32(d.y - smoke_rise(d.ptrn as int)) && fits_i32(d.x + smoke_drift(d.ptrn as int))
}

/// A puff stays while it is still changing shape or has not reached the
/// right edge of a screen `cols` wide.
pub open spec fn lingers(d: SmokeDrop, cols: int) -> bool {
    d.ptrn < SMOKE_FRAMES - 1 || d.x < cols
}

/// The puffs of `ds` that stay, in order.
pub open spec fn retained(ds: Seq<SmokeDrop>, cols: int) -> Seq<SmokeDrop> {
    ds.filter(|d: SmokeDrop| lingers(d, cols))
}

/// The model of the smoke: the puffs, oldest first, and how many have been
/// made.
pub struct DropsState {
    pub drops: Seq<SmokeDrop>,
    pub next_kind: nat,
}

impl DropsState {
    /// Every puff is at one of the sixteen frames and of kind 0 or 1.
    pub open spec fn wf(self) -> bool {
        forall|i: int|
            0 <= i < self.drops.len() ==> #[trigger] self.drops[i].ptrn < SMOKE_FRAMES
                && self.drops[i].kind < 2
    }

    /// A new puff at column `x` can be added without leaving the range of
    /// the counter and coordinates.
    pub open spec fn ready_at(self, x: int) -> bool {
        x % 4 == 0 ==> {
            &&& self.next_kind < usize::MAX
            &&& forall|i: int| 0 <= i < self.drops.len() ==> #[trigger] drop_can_move(self.drops[i])
        }
    }

    /// The smoke after the funnel passes row `y`, column `x` on a screen
    /// `cols` wide: at every fourth column every puff moves and a new one
    /// joins; then the puffs in their last frame past the right edge go.
    pub open spec fn after(self, y: i32, x: i32, cols: int) -> DropsState {
        if x % 4 == 0 {
            DropsState {
                drops: retained(
                    self.drops.map_values(|d: SmokeDrop| drop_moved(d)).push(
                        SmokeDrop { y, x, ptrn: 0, kind: (self.next_kind % 2) as usize },
                    ),
                    cols,
                ),
                next_kind: self.next_kind + 1,
            }
        } else {
            DropsState { drops: retained(self.drops, cols), next_kind: self.next_kind }
        }
    }
}

/// What moving one puff draws: its old shape erased, its new one drawn.
pub open spec fn drop_spans(d: SmokeDrop, rows: int, cols: int) -> Seq<Span> {
    let m = drop_moved(d);
    text_span(d.y as int, d.x as int, smoke_eraser_text()[d.ptrn as int], rows, cols) + text_span(
        m.y as int,
        m.x as int,
        smoke_text(m.kind as int)[m.ptrn as int],
        rows,
        cols,
    )
}

/// What moving each puff of `ds` in order draws.
pub open spec fn drops_spans(ds: Seq<SmokeDrop>, rows: int, cols: int) -> Seq<Span>
    decreases ds.len(),
{
    if ds.len() == 0 {
        Seq::empty()
    } else {
        drops_spans(ds.drop_last(), rows, cols) + drop_spans(ds.last(), rows, cols)
    }
}

/// What the smoke draws when the funnel passes row `y`, column `x`.
pub open spec fn smoke_spans(s: DropsState, y: int, x: int, rows: int, cols: int) -> Seq<Span> {
    if x % 4 == 0 {
        drops_spans(s.drops, rows, cols) + text_span(
            y,
            x,
            smoke_text((s.next_kind % 2) as int)[0],
            rows,
            cols,
        )
    } else {
        Seq::empty()
    }
}

/// The smoke of one train.
pub struct SmokeState {
    drops: Vec<SmokeDrop>,
    next_kind: usize,
}

impl View for SmokeState {
    type V = DropsState;

    closed spec fn view(&self) -> DropsState {
        DropsState { drops: self.drops@, next_kind: self.next_kind as nat }
    }
}

impl SmokeState {
    /// No smoke yet.
    pub fn new() -> (s: SmokeState)
        ensures
            s@.drops == Seq::<SmokeDrop>::empty(),
            s@.next_kind == 0,
            s@.wf(),
    {
        SmokeState { drops: Vec::new(), next_kind: 0 }
    }

    /// The number of puffs.
    pub fn len(&self) -> (n: usize)
        ensures
            n == self@.drops.len(),
    {
        self.drops.len()
    }

    /// The puff at position `i`, the oldest first.
    pub fn drop_at(&self, i: usize) -> (d: SmokeDrop)
        requires
            i < self@.drops.len(),
        ensures
            d == self@.drops[i as int],
    {
        self.drops[i]
    }

    /// Keeps the puffs that linger on a screen `cols` wide, in order.
    fn retain_lingering(&mut self, cols: u16)
        ensures
            final(self)@ == (DropsState {
                drops: retained(old(self)@.drops, cols as int),
                next_kind: old(self)@.next_kind,
            }),
    {
        let ghost start = self.drops@;
        let mut kept: Vec<SmokeDrop> = Vec::new();
        let n = self.drops.len();
        let mut i: usize = 0;
        proof {
            reveal(Seq::filter);
        }
        assert(retained(start.take(0), cols as int) =~= Seq::<SmokeDrop>::empty());
        while i < n
            invariant
                0 <= i <= n,
                n == start.len(),
                self.drops@ == start,
                kept@ == retained(start.take(i as int), cols as int),
            decreases n - i,
        {
            let d = self.drops[i];
            if d.ptrn < SMOKE_FRAMES - 1 || d.x < cols as i32 {
                kept.push(d);
            }
            proof {
                reveal(Seq::filter);
                let t = start.take(i as int + 1);
                assert(t.drop_last() =~= start.take(i as int));
                assert(t.last() == d);
            }
            i = i + 1;
        }
        assert(start.take(n as int) =~= start);
        self.drops = kept;
    }
}

/// The smoke stays well formed when puffs in it are dropped, and only
/// lingering puffs stay.
proof fn lemma_retained_wf(s: DropsState, cols: int)
    requires
        s.wf(),
    ensures
        (DropsState { drops: retained(s.drops, cols), next_kind: s.next_kind }).wf(),
        forall|i: int|
            0 <= i < retained(s.drops, cols).len() ==> lingers(
                #[trigger] retained(s.drops, cols)[i],
                cols,
            ),
{
    let r = retained(s.drops, cols);
    s.drops.filter_lemma(|d: SmokeDrop| lingers(d, cols));
    assert forall|i: int| 0 <= i < r.len() implies #[trigger] r[i].ptrn < SMOKE_FRAMES
        && r[i].kind < 2 by {
        s.drops.lemma_filter_contains_rev(|d: SmokeDrop| lingers(d, cols), r[i]);
        assert(r.contains(r[i]));
        s.drops.filter_lemma(|d: SmokeDrop| lingers(d, cols));
    }
}

/// Moves the smoke on as the funnel passes row `y`, column `x` on a screen
/// of `cols` columns and `rows` rows: at every fourth column each puff is
/// erased, moved and drawn again and a new puff is drawn at the funnel and
/// joins; then the puffs in their last frame past the right edge go.
pub fn add_smoke(out: &mut Canvas, y: i32, x: i32, state: &mut SmokeState, cols: u16, rows: u16)
    requires
        old(state)@.wf(),
        old(state)@.ready_at(x as int),
    ensures
        final(state)@ == old(state)@.after(y, x, cols as int),
        final(state)@.wf(),
        forall|i: int|
            0 <= i < final(state)@.drops.len() ==> lingers(
                #[trigger] final(state)@.drops[i],
                cols as int,
            ),
        final(out)@ == old(out)@ + smoke_spans(
            old(state)@,
            y as int,
            x as int,
            rows as int,
            cols as int,
        ),
{
    let ghost start = state@;
    if x % 4 == 0 {
        let ghost canvas0 = out@;
        let n = state.drops.len();
        let mut i: usize = 0;
        while i < n
            invariant
                0 <= i <= n,
                n == start.drops.len(),
                start.wf(),
                start.ready_at(x as int),
                x % 4 == 0,
                state.next_kind == start.next_kind,
                state.drops@.len() == n,
                forall|k: int|
                    0 <= k < i ==> #[trigger] state.drops@[k] == drop_moved(start.drops[k]),
                forall|k: int| i <= k < n ==> #[trigger] state.drops@[k] == start.drops[k],
                out@ == canvas0 + drops_spans(start.drops.take(i as int), rows as int, cols as int),
            decreases n - i,
        {
            let d = state.drops[i];
            assert(d == start.drops[i as int]);
            assert(drop_can_move(start.drops[i as int]));
            my_mvaddstr(out, d.y, d.x, smoke_eraser(d.ptrn), cols, rows);
            let ptrn = if d.ptrn < SMOKE_FRAMES - 1 {
                d.ptrn + 1
            } else {
                d.ptrn
            };
            let moved = SmokeDrop {
                y: d.y - smoke_dy(d.ptrn),
                x: d.x + smoke_dx(d.ptrn),
                ptrn,
                kind: d.kind,
            };
            assert(moved == drop_moved(d));
            state.drops.set(i, moved);
            my_mvaddstr(out, moved.y, moved.x, smoke_shape(moved.kind, moved.ptrn), cols, rows);
            proof {
                let t = start.drops.take(i as int + 1);
                assert(t.drop_last() =~= start.drops.take(i as int));
                assert(t.last() == d);
            }
            i = i + 1;
        }
        assert(start.drops.take(n as int) =~= start.drops);
        let kind = state.next_kind % 2;
        my_mvaddstr(out, y, x, smoke_shape(kind, 0), cols, rows);
        state.drops.push(SmokeDrop { y, x, ptrn: 0, kind });
        state.next_kind = state.next_kind + 1;
        proof {
            let moved = start.drops.map_values(|d: SmokeDrop| drop_moved(d)).push(
                SmokeDrop { y, x, ptrn: 0, kind: (start.next_kind % 2) as usize },
            );
            assert(state@.drops =~= moved);
            let m = DropsState { drops: moved, next_kind: start.next_kind + 1 };
            assert(state@ == m);
            assert forall|k: int| 0 <= k < moved.len() implies #[trigger] moved[k].ptrn
                < SMOKE_FRAMES && moved[k].kind < 2 by {
                if k < n {
                    assert(moved[k] == drop_moved(start.drops[k]));
                }
            }
            assert(m.wf());
            lemma_retained_wf(m, cols as int);
            assert(out@ =~= canvas0 + smoke_spans(start, y as int, x as int, rows as int, cols as int));
        }
    } else {
        assert(out@ + Seq::<Span>::empty() =~= out@);
        proof {
            lemma_retained_wf(start, cols as int);
        }
    }
    state.retain_lingering(cols);
}

/// The top row of a train `height` rows high, flying or standing with its
/// `standing` rows above the middle line.
pub open spec fn train_top(
    cfg: Config,
    rows: int,
    cols: int,
    x: int,
    height: int,
    step: int,
    standing: int,
) -> int {
    if cfg.fly {
        flying_top(x, rows, cols, step, height)
    } else {
        rows / 2 - standing
    }
}

/// The D51 in pattern `p`: body, wheels, blank line.
pub open spec fn d51_picture(p: int) -> Seq<Seq<char>> {
    d51_body_text() + d51_wheels_text(p) + seq![d51_trail_text()]
}

/// The coal car behind the D51, with a blank last line.
pub open spec fn d51_tender() -> Seq<Seq<char>> {
    classic_coal_text() + seq![coal_blank_text()]
}

/// The C51 in pattern `p`: body, wheels (whose patterns run the other way
/// round than the D51's), blank line.
pub open spec fn c51_picture(p: int) -> Seq<Seq<char>> {
    c51_body_text() + c51_wheels_text(5 - p) + seq![wheels_eraser_text()]
}

/// The coal car behind the C51, one row lower than the D51's.
pub open spec fn c51_tender() -> Seq<Seq<char>> {
    seq![coal_blank_text()] + classic_coal_text() + seq![coal_blank_text()]
}

/// The small SL locomotive in pattern `p`: body, wheels, blank line.
pub open spec fn sl_picture(p: int) -> Seq<Seq<char>> {
    logo_body_text() + logo_wheels_text(p) + seq![logo_eraser_text()]
}

/// The D51 pictures, as the classic drawing shows them.
fn d51_arr(p: usize) -> (lines: [&'static str; 11])
    requires
        p < PATTERNS,
    ensures
        text_of(lines@) == d51_picture(p as int),
{
    let b = d51_body();
    let w = d51_wheels(p);
    let lines = [b[0], b[1], b[2], b[3], b[4], b[5], b[6], w[0], w[1], w[2], d51_trail()];
    assert(text_of(lines@) =~= d51_picture(p as int));
    lines
}

/// The coal car behind the D51.
fn d51_coal_arr() -> (lines: [&'static str; 11])
    ensures
        text_of(lines@) == d51_tender(),
{
    let c = classic_coal();
    let lines = [c[0], c[1], c[2], c[3], c[4], c[5], c[6], c[7], c[8], c[9], coal_blank()];
    assert(text_of(lines@) =~= d51_tender());
    lines
}

/// The C51 pictures, as the classic drawing shows them.
fn c51_arr(p: usize) -> (lines: [&'static str; 12])
    requires
        p < PATTERNS,
    ensures
        text_of(lines@) == c51_picture(p as int),
{
    let b = c51_body();
    let w = c51_wheels(PATTERNS - 1 - p);
    let lines = [b[0], b[1], b[2], b[3], b[4], b[5], b[6], w[0], w[1], w[2], w[3], wheels_eraser()];
    assert(text_of(lines@) =~= c51_picture(p as int));
    lines
}

/// The coal car behind the C51.
fn c51_coal_arr() -> (lines: [&'static str; 12])
    ensures
        text_of(lines@) == c51_tender(),
{
    let c = classic_coal();
    let blank = coal_blank();
    let lines = [blank, c[0], c[1], c[2], c[3], c[4], c[5], c[6], c[7], c[8], c[9], blank];
    assert(text_of(lines@) =~= c51_tender());
    lines
}

/// The small SL locomotive pictures.
fn sl_arr(p: usize) -> (lines: [&'static str; 7])
    requires
        p < PATTERNS,
    ensures
        text_of(lines@) == sl_picture(p as int),
{
    let b = logo_body();
    let w = logo_wheels(p);
    let lines = [b[0], b[1], b[2], b[3], w[0], w[1], logo_eraser()];
    assert(text_of(lines@) =~= sl_picture(p as int));
    lines
}

/// What the D51 at column `x` draws, before its smoke: row by row the
/// locomotive and its coal car, then the people crying for help.
pub open spec fn d51_spans(cfg: Config, rows: int, cols: int, x: int) -> Seq<Span> {
    let y = train_top(cfg, rows, cols, x, D51_HEIGHT as int, 7, 5);
    let dy = if cfg.fly {
        1int
    } else {
        0
    };
    paired_rows(
        Clip::Runs,
        Layer { top: y, left: x, lines: d51_picture(d51_pattern(x)) },
        Layer { top: y + dy, left: x + 53, lines: d51_tender() },
        rows,
        cols,
        11,
    ) + if cfg.accident {
        man_spans(y + 2, x + 43, x, rows, cols) + man_spans(y + 2, x + 47, x, rows, cols)
    } else {
        Seq::empty()
    }
}

/// What the C51 at column `x` draws, before its smoke.
pub open spec fn c51_spans(cfg: Config, rows: int, cols: int, x: int) -> Seq<Span> {
    let y = train_top(cfg, rows, cols, x, C51_HEIGHT as int, 7, 5);
    let dy = if cfg.fly {
        1int
    } else {
        0
    };
    paired_rows(
        Clip::Runs,
        Layer { top: y, left: x, lines: c51_picture(c51_pattern(x)) },
        Layer { top: y + dy, left: x + 55, lines: c51_tender() },
        rows,
        cols,
        12,
    ) + if cfg.accident {
        man_spans(y + 3, x + 45, x, rows, cols) + man_spans(y + 3, x + 49, x, rows, cols)
    } else {
        Seq::empty()
    }
}

/// The vertical offset of car `car` of the small SL train.
pub open spec fn car_drop(cfg: Config, car: int) -> int {
    if cfg.fly {
        2 * car
    } else {
        0
    }
}

/// What the people on board the small SL train draw.
pub open spec fn sl_men_spans(cfg: Config, rows: int, cols: int, x: int) -> Seq<Span> {
    let y = train_top(cfg, rows, cols, x, LOGO_HEIGHT as int, 6, 3);
    let y2 = y + 1 + car_drop(cfg, 2);
    let y3 = y + 1 + car_drop(cfg, 3);
    man_spans(y + 1, x + 14, x, rows, cols) + man_spans(y2, x + 45, x, rows, cols) + man_spans(
        y2,
        x + 53,
        x,
        rows,
        cols,
    ) + man_spans(y3, x + 66, x, rows, cols) + man_spans(y3, x + 74, x, rows, cols)
}

/// What the small SL train at column `x` draws, before its smoke: row by
/// row the locomotive, the coal car and the two passenger cars, then the
/// people crying for help.
pub open spec fn sl_spans(cfg: Config, rows: int, cols: int, x: int) -> Seq<Span> {
    let y = train_top(cfg, rows, cols, x, LOGO_HEIGHT as int, 6, 3);
    four_rows(
        Clip::Runs,
        Layer { top: y, left: x, lines: sl_picture(logo_pattern(x)) },
        Layer { top: y + car_drop(cfg, 1), left: x + 21, lines: logo_coal_text() },
        Layer { top: y + car_drop(cfg, 2), left: x + 42, lines: logo_car_text() },
        Layer { top: y + car_drop(cfg, 3), left: x + 63, lines: logo_car_text() },
        rows,
        cols,
        7,
    ) + if cfg.accident {
        sl_men_spans(cfg, rows, cols, x)
    } else {
        Seq::empty()
    }
}

/// How far left of the screen the chosen train travels before it is gone.
pub open spec fn train_length(cfg: Config) -> int {
    if cfg.logo {
        LOGO_LENGTH as int
    } else if cfg.c51 {
        C51_LENGTH as int
    } else {
        D51_LENGTH as int
    }
}

/// The columns at which the chosen train can be drawn without leaving the
/// range of `i32`.
pub open spec fn train_fits(cfg: Config, x: int) -> bool {
    if cfg.logo {
        fits_i32(LOGO_LENGTH + x)
    } else if cfg.c51 {
        fits_i32(C51_LENGTH + x)
    } else {
        fits_i32(D51_LENGTH + x) && (cfg.accident ==> fits_i32(LOGO_LENGTH + x))
    }
}

/// What the chosen train at column `x` draws, before its smoke.
pub open spec fn train_spans(cfg: Config, rows: int, cols: int, x: int) -> Seq<Span> {
    if cfg.logo {
        sl_spans(cfg, rows, cols, x)
    } else if cfg.c51 {
        c51_spans(cfg, rows, cols, x)
    } else {
        d51_spans(cfg, rows, cols, x)
    }
}

/// The row of the chosen train's funnel.
pub open spec fn funnel_row(cfg: Config, rows: int, cols: int, x: int) -> int {
    if cfg.logo {
        train_top(cfg, rows, cols, x, LOGO_HEIGHT as int, 6, 3) - 1
    } else if cfg.c51 {
        train_top(cfg, rows, cols, x, C51_HEIGHT as int, 7, 5) - 1
    } else {
        train_top(cfg, rows, cols, x, D51_HEIGHT as int, 7, 5) - 1
    }
}

/// The column of the chosen train's funnel.
pub open spec fn funnel_col(cfg: Config, x: int) -> int {
    if cfg.logo {
        x + LOGO_FUNNEL
    } else if cfg.c51 {
        x + C51_FUNNEL
    } else {
        x + D51_FUNNEL
    }
}

/// Draws the D51 with its left edge at column `x` on a screen of `cols`
/// columns and `rows` rows, and moves its smoke on. Returns whether the
/// train is still on its way: once it has travelled its length past the
/// left edge nothing is drawn.
pub fn add_d51(
    out: &mut Canvas,
    x: i32,
    config: &Config,
    cols: u16,
    rows: u16,
    smokes: &mut SmokeState,
) -> (visible: bool)
    requires
        old(smokes)@.wf(),
        train_fits(Config { logo: false, c51: false, ..*config }, x as int),
        old(smokes)@.ready_at(x + D51_FUNNEL),
    ensures
        visible == (x >= -D51_LENGTH),
        final(smokes)@.wf(),
        !visible ==> final(out)@ == old(out)@ && final(smokes)@ == old(smokes)@,
        visible ==> final(smokes)@ == old(smokes)@.after(
            (train_top(*config, rows as int, cols as int, x as int, D51_HEIGHT as int, 7, 5) - 1) as i32,
            (x + D51_FUNNEL) as i32,
            cols as int,
        ),
        visible ==> final(out)@ == old(out)@ + d51_spans(*config, rows as int, cols as int, x as int)
            + smoke_spans(
            old(smokes)@,
            train_top(*config, rows as int, cols as int, x as int, D51_HEIGHT as int, 7, 5) - 1,
            x + D51_FUNNEL,
            rows as int,
            cols as int,
        ),
{
    if x < -D51_LENGTH {
        return false;
    }
    let ghost c0 = out@;
    let mut y = (rows / 2) as i32 - 5;
    let mut dy: i32 = 0;
    if config.fly {
        y = (x / 7) + rows as i32 - (cols as i32 / 7) - D51_HEIGHT;
        dy = 1;
    }
    let ghost top = train_top(*config, rows as int, cols as int, x as int, D51_HEIGHT as int, 7, 5);
    assert(y == top);
    let ptrn = ((D51_LENGTH + x) % PATTERNS as i32) as usize;
    let engine = d51_arr(ptrn);
    let tender = d51_coal_arr();
    let ghost la = Layer { top, left: x as int, lines: d51_picture(d51_pattern(x as int)) };
    let ghost lb = Layer { top: top + dy, left: x + 53, lines: d51_tender() };
    let mut i: i32 = 0;
    assert(c0 + Seq::<Span>::empty() =~= c0);
    assert(-1_000_000_000 <= y <= 1_000_000_000);
    while i <= D51_HEIGHT
        invariant
            0 <= i <= D51_HEIGHT + 1,
            y == top,
            -1_000_000_000 <= y <= 1_000_000_000,
            0 <= dy <= 1,
            -D51_LENGTH <= x,
            fits_i32(D51_LENGTH + x),
            text_of(engine@) == la.lines,
            text_of(tender@) == lb.lines,
            la == (Layer { top: top, left: x as int, lines: la.lines }),
            lb == (Layer { top: top + dy, left: x + 53, lines: lb.lines }),
            out@ == c0 + paired_rows(Clip::Runs, la, lb, rows as int, cols as int, i as int),
        decreases D51_HEIGHT + 1 - i,
    {
        let k = i as usize;
        my_mvaddstr(out, y + i, x, engine[k], cols, rows);
        my_mvaddstr(out, y + i + dy, x + 53, tender[k], cols, rows);
        assert(engine@[i as int]@ == la.lines[i as int]);
        assert(tender@[i as int]@ == lb.lines[i as int]);
        i = i + 1;
    }
    if config.accident {
        proof {
            crate::geometry::lemma_man_pose_defined(LOGO_LENGTH + x);
        }
        add_man(out, y + 2, x + 43, x, cols, rows);
        add_man(out, y + 2, x + 47, x, cols, rows);
    }
    assert(out@ =~= c0 + d51_spans(*config, rows as int, cols as int, x as int));
    add_smoke(out, y - 1, x + D51_FUNNEL, smokes, cols, rows);
    true
}

/// Draws the C51 with its left edge at column `x` and moves its smoke on.
/// Returns whether the train is still on its way.
pub fn add_c51(
    out: &mut Canvas,
    x: i32,
    config: &Config,
    cols: u16,
    rows: u16,
    smokes: &mut SmokeState,
) -> (visible: bool)
    requires
        old(smokes)@.wf(),
        train_fits(Config { logo: false, c51: true, ..*config }, x as int),
        old(smokes)@.ready_at(x + C51_FUNNEL),
    ensures
        visible == (x >= -C51_LENGTH),
        final(smokes)@.wf(),
        !visible ==> final(out)@ == old(out)@ && final(smokes)@ == old(smokes)@,
        visible ==> final(smokes)@ == old(smokes)@.after(
            (train_top(*config, rows as int, cols as int, x as int, C51_HEIGHT as int, 7, 5) - 1) as i32,
            (x + C51_FUNNEL) as i32,
            cols as int,
        ),
        visible ==> final(out)@ == old(out)@ + c51_spans(*config, rows as int, cols as int, x as int)
            + smoke_spans(
            old(smokes)@,
            train_top(*config, rows as int, cols as int, x as int, C51_HEIGHT as int, 7, 5) - 1,
            x + C51_FUNNEL,
            rows as int,
            cols as int,
        ),
{
    if x < -C51_LENGTH {
        return false;
    }
    let ghost c0 = out@;
    let mut y = (rows / 2) as i32 - 5;
    let mut dy: i32 = 0;
    if config.fly {
        y = (x / 7) + rows as i32 - (cols as i32 / 7) - C51_HEIGHT;
        dy = 1;
    }
    let ghost top = train_top(*config, rows as int, cols as int, x as int, C51_HEIGHT as int, 7, 5);
    assert(y == top);
    let ptrn = ((C51_LENGTH + x) % PATTERNS as i32) as usize;
    let engine = c51_arr(ptrn);
    let tender = c51_coal_arr();
    let ghost la = Layer { top, left: x as int, lines: c51_picture(c51_pattern(x as int)) };
    let ghost lb = Layer { top: top + dy, left: x + 55, lines: c51_tender() };
    let mut i: i32 = 0;
    assert(c0 + Seq::<Span>::empty() =~= c0);
    assert(-1_000_000_000 <= y <= 1_000_000_000);
    while i <= C51_HEIGHT
        invariant
            0 <= i <= C51_HEIGHT + 1,
            y == top,
            -1_000_000_000 <= y <= 1_000_000_000,
            0 <= dy <= 1,
            -C51_LENGTH <= x,
            fits_i32(C51_LENGTH + x),
            text_of(engine@) == la.lines,
            text_of(tender@) == lb.lines,
            la == (Layer { top: top, left: x as int, lines: la.lines }),
            lb == (Layer { top: top + dy, left: x + 55, lines: lb.lines }),
            out@ == c0 + paired_rows(Clip::Runs, la, lb, rows as int, cols as int, i as int),
        decreases C51_HEIGHT + 1 - i,
    {
        let k = i as usize;
        my_mvaddstr(out, y + i, x, engine[k], cols, rows);
        my_mvaddstr(out, y + i + dy, x + 55, tender[k], cols, rows);
        assert(engine@[i as int]@ == la.lines[i as int]);
        assert(tender@[i as int]@ == lb.lines[i as int]);
        i = i + 1;
    }
    if config.accident {
        proof {
            crate::geometry::lemma_man_pose_defined(LOGO_LENGTH + x);
        }
        add_man(out, y + 3, x + 45, x, cols, rows);
        add_man(out, y + 3, x + 49, x, cols, rows);
    }
    assert(out@ =~= c0 + c51_spans(*config, rows as int, cols as int, x as int));
    add_smoke(out, y - 1, x + C51_FUNNEL, smokes, cols, rows);
    true
}

/// Draws the small SL train with its left edge at column `x` and moves its
/// smoke on. Returns whether the train is still on its way.
pub fn add_sl(
    out: &mut Canvas,
    x: i32,
    config: &Config,
    cols: u16,
    rows: u16,
    smokes: &mut SmokeState,
) -> (visible: bool)
    requires
        old(smokes)@.wf(),
        train_fits(Config { logo: true, ..*config }, x as int),
        old(smokes)@.ready_at(x + LOGO_FUNNEL),
    ensures
        visible == (x >= -LOGO_LENGTH),
        final(smokes)@.wf(),
        !visible ==> final(out)@ == old(out)@ && final(smokes)@ == old(smokes)@,
        visible ==> final(smokes)@ == old(smokes)@.after(
            (train_top(*config, rows as int, cols as int, x as int, LOGO_HEIGHT as int, 6, 3) - 1) as i32,
            (x + LOGO_FUNNEL) as i32,
            cols as int,
        ),
        visible ==> final(out)@ == old(out)@ + sl_spans(*config, rows as int, cols as int, x as int)
            + smoke_spans(
            old(smokes)@,
            train_top(*config, rows as int, cols as int, x as int, LOGO_HEIGHT as int, 6, 3) - 1,
            x + LOGO_FUNNEL,
            rows as int,
            cols as int,
        ),
{
    if x < -LOGO_LENGTH {
        return false;
    }
    let ghost c0 = out@;
    let mut y = (rows / 2) as i32 - 3;
    let mut py1: i32 = 0;
    let mut py2: i32 = 0;
    let mut py3: i32 = 0;
    if config.fly {
        y = (x / 6) + rows as i32 - (cols as i32 / 6) - LOGO_HEIGHT;
        py1 = 2;
        py2 = 4;
        py3 = 6;
    }
    let ghost top = train_top(*config, rows as int, cols as int, x as int, LOGO_HEIGHT as int, 6, 3);
    assert(y == top);
    let ptrn = (((LOGO_LENGTH + x) / 3) % PATTERNS as i32) as usize;
    let engine = sl_arr(ptrn);
    let coal = logo_coal();
    let car = logo_car();
    let ghost la = Layer { top, left: x as int, lines: sl_picture(logo_pattern(x as int)) };
    let ghost lb = Layer { top: top + car_drop(*config, 1), left: x + 21, lines: logo_coal_text() };
    let ghost lc = Layer { top: top + car_drop(*config, 2), left: x + 42, lines: logo_car_text() };
    let ghost ld = Layer { top: top + car_drop(*config, 3), left: x + 63, lines: logo_car_text() };
    let mut i: i32 = 0;
    assert(c0 + Seq::<Span>::empty() =~= c0);
    assert(-1_000_000_000 <= y <= 1_000_000_000);
    while i <= LOGO_HEIGHT
        invariant
            0 <= i <= LOGO_HEIGHT + 1,
            y == top,
            -1_000_000_000 <= y <= 1_000_000_000,
            py1 == car_drop(*config, 1),
            py2 == car_drop(*config, 2),
            py3 == car_drop(*config, 3),
            -LOGO_LENGTH <= x,
            fits_i32(LOGO_LENGTH + x),
            text_of(engine@) == la.lines,
            text_of(coal@) == lb.lines,
            text_of(car@) == lc.lines,
            lc.lines == ld.lines,
            la == (Layer { top: top, left: x as int, lines: la.lines }),
            lb == (Layer { top: top + car_drop(*config, 1), left: x + 21, lines: lb.lines }),
            lc == (Layer { top: top + car_drop(*config, 2), left: x + 42, lines: lc.lines }),
            ld == (Layer { top: top + car_drop(*config, 3), left: x + 63, lines: ld.lines }),
            out@ == c0 + four_rows(Clip::Runs, la, lb, lc, ld, rows as int, cols as int, i as int),
        decreases LOGO_HEIGHT + 1 - i,
    {
        let k = i as usize;
        my_mvaddstr(out, y + i, x, engine[k], cols, rows);
        my_mvaddstr(out, y + i + py1, x + 21, coal[k], cols, rows);
        my_mvaddstr(out, y + i + py2, x + 42, car[k], cols, rows);
        my_mvaddstr(out, y + i + py3, x + 63, car[k], cols, rows);
        assert(engine@[i as int]@ == la.lines[i as int]);
        assert(coal@[i as int]@ == lb.lines[i as int]);
        assert(car@[i as int]@ == lc.lines[i as int]);
        i = i + 1;
    }
    let ghost c1 = out@;
    if config.accident {
        proof {
            crate::geometry::lemma_man_pose_defined(LOGO_LENGTH + x);
        }
        add_man(out, y + 1, x + 14, x, cols, rows);
        add_man(out, y + 1 + py2, x + 45, x, cols, rows);
        add_man(out, y + 1 + py2, x + 53, x, cols, rows);
        add_man(out, y + 1 + py3, x + 66, x, cols, rows);
        add_man(out, y + 1 + py3, x + 74, x, cols, rows);
        assert(out@ =~= c1 + sl_men_spans(*config, rows as int, cols as int, x as int));
    }
    assert(out@ =~= c0 + sl_spans(*config, rows as int, cols as int, x as int));
    add_smoke(out, y - 1, x + LOGO_FUNNEL, smokes, cols, rows);
    true
}

/// Draws the train the options choose (the small SL train, else the C51,
/// else the D51) at column `x` and moves its smoke on. Returns whether the
/// train is still on its way.
pub fn add_train(
    out: &mut Canvas,
    x: i32,
    config: &Config,
    cols: u16,
    rows: u16,
    smokes: &mut SmokeState,
) -> (visible: bool)
    requires
        old(smokes)@.wf(),
        train_fits(*config, x as int),
        old(smokes)@.ready_at(funnel_col(*config, x as int)),
    ensures
        visible == (x >= -train_length(*config)),
        final(smokes)@.wf(),
        !visible ==> final(out)@ == old(out)@ && final(smokes)@ == old(smokes)@,
        visible ==> final(smokes)@ == old(smokes)@.after(
            funnel_row(*config, rows as int, cols as int, x as int) as i32,
            funnel_col(*config, x as int) as i32,
            cols as int,
        ),
        visible ==> final(out)@ == old(out)@ + train_spans(*config, rows as int, cols as int, x as int)
            + smoke_spans(
            old(smokes)@,
            funnel_row(*config, rows as int, cols as int, x as int),
            funnel_col(*config, x as int),
            rows as int,
            cols as int,
        ),
{
    if config.logo {
        add_sl(out, x, config, cols, rows, smokes)
    } else if config.c51 {
        add_c51(out, x, config, cols, rows, smokes)
    } else {
        add_d51(out, x, config, cols, rows, smokes)
    }
}

/// Moving the puffs never draws outside the screen.
proof fn lemma_drops_spans_on_screen(ps: Seq<SmokeDrop>, rows: int, cols: int)
    ensures
        all_on_screen(drops_spans(ps, rows, cols), rows, cols),
    decreases ps.len(),
{
    broadcast use group_on_screen;

    if ps.len() > 0 {
        lemma_drops_spans_on_screen(ps.drop_last(), rows, cols);
    }
}

/// A whole frame, the chosen train and its smoke, lies on the screen:
/// nothing is ever drawn outside the terminal.
pub proof fn lemma_frame_on_screen(cfg: Config, s: DropsState, rows: int, cols: int, x: int)
    ensures
        all_on_screen(
            train_spans(cfg, rows, cols, x) + smoke_spans(
                s,
                funnel_row(cfg, rows, cols, x),
                funnel_col(cfg, x),
                rows,
                cols,
            ),
            rows,
            cols,
        ),
{
    broadcast use group_on_screen;

    lemma_drops_spans_on_screen(s.drops, rows, cols);
    assert(all_on_screen(train_spans(cfg, rows, cols, x), rows, cols));
}

/// Only `q`, with or without Control, and Control-C stop the animation;
/// every other key is ignored.
pub proof fn lemma_only_q_and_control_c_quit(c: char, control: bool)
    ensures
        reaction_to(InputEvent::Key { code: KeyCode::Char(c), control }) == if c == 'q' || (c
            == 'c' && control) {
            Reaction::Quit
        } else {
            Reaction::Continue
        },
{
}

/// What a person on board paints: only the row given and the one under it,
/// from the column given on.
proof fn lemma_man_spans_footprint(y: int, x: int, gx: int, rows: int, cols: int, p: (int, int))
    requires
        0 <= cols,
        picture(man_spans(y, x, gx, rows, cols)).contains_key(p),
    ensures
        p.0 == y || p.0 == y + 1,
        x <= p.1,
{
    let pm = man_pose(LOGO_LENGTH + gx);
    lemma_text_span_paints_visible_cells(y, x, man_text(pm)[0], rows, cols);
    lemma_text_span_paints_visible_cells(y + 1, x, man_text(pm)[1], rows, cols);
    lemma_picture_cell(
        text_span(y, x, man_text(pm)[0], rows, cols),
        text_span(y + 1, x, man_text(pm)[1], rows, cols),
        p,
    );
}

/// The body of a person on board shows on the row under the one given.
proof fn lemma_man_spans_body(y: int, x: int, gx: int, rows: int, cols: int, c: int)
    requires
        0 <= cols,
        0 <= c < 3,
        0 <= y + 1 < rows,
        0 <= x + c < cols,
    ensures
        picture(man_spans(y, x, gx, rows, cols)).contains_key((y + 1, x + c)),
        picture(man_spans(y, x, gx, rows, cols))[(y + 1, x + c)] == man_text(
            man_pose(LOGO_LENGTH + gx),
        )[1][c],
{
    let pm = man_pose(LOGO_LENGTH + gx);
    lemma_man_shape(pm);
    lemma_text_span_paints_visible_cells(y, x, man_text(pm)[0], rows, cols);
    lemma_text_span_paints_visible_cells(y + 1, x, man_text(pm)[1], rows, cols);
    lemma_picture_cell(
        text_span(y, x, man_text(pm)[0], rows, cols),
        text_span(y + 1, x, man_text(pm)[1], rows, cols),
        (y + 1, x + c),
    );
}

/// The wheels of the D51 turn as it moves: at column `x` the three rows
/// under its seven-row body show wheel pattern `(83 + x) % 6`, which steps
/// on by one with every column and comes back every six.
pub proof fn lemma_d51_wheels_turn(cfg: Config, rows: int, cols: int, x: int, j: int, c: int)
    requires
        0 <= cols,
        0 <= j < 3,
        x <= c < x + 53,
        0 <= c < cols,
        0 <= train_top(cfg, rows, cols, x, D51_HEIGHT as int, 7, 5) + 7 + j < rows,
    ensures
        picture(d51_spans(cfg, rows, cols, x)).contains_key(
            (train_top(cfg, rows, cols, x, D51_HEIGHT as int, 7, 5) + 7 + j, c),
        ),
        picture(d51_spans(cfg, rows, cols, x))[(
            train_top(cfg, rows, cols, x, D51_HEIGHT as int, 7, 5) + 7 + j,
            c,
        )] == d51_wheels_text((D51_LENGTH + x) % 6)[j][c - x],
{
    let y = train_top(cfg, rows, cols, x, D51_HEIGHT as int, 7, 5);
    let dy = if cfg.fly {
        1int
    } else {
        0
    };
    let la = Layer { top: y, left: x, lines: d51_picture(d51_pattern(x)) };
    let lb = Layer { top: y + dy, left: x + 53, lines: d51_tender() };
    let p = (y + 7 + j, c);
    lemma_d51_shape();
    assert(la.lines[7 + j] == d51_wheels_text(d51_pattern(x))[j]);
    lemma_paired_rows_first_layer(Clip::Runs, la, lb, rows, cols, 11, 7 + j, c);
    let body = paired_rows(Clip::Runs, la, lb, rows, cols, 11);
    if cfg.accident {
        let m1 = man_spans(y + 2, x + 43, x, rows, cols);
        let m2 = man_spans(y + 2, x + 47, x, rows, cols);
        if picture(m1).contains_key(p) {
            lemma_man_spans_footprint(y + 2, x + 43, x, rows, cols, p);
        }
        if picture(m2).contains_key(p) {
            lemma_man_spans_footprint(y + 2, x + 47, x, rows, cols, p);
        }
        lemma_picture_cell(m1, m2, p);
        lemma_picture_cell(body, m1 + m2, p);
        assert(d51_spans(cfg, rows, cols, x) == body + (m1 + m2));
    } else {
        lemma_picture_cell(body, Seq::<Span>::empty(), p);
        assert(d51_spans(cfg, rows, cols, x) == body + Seq::<Span>::empty());
    }
}

/// With an accident the small SL train carries five people crying for
/// help, one on the locomotive and two on each passenger car, drawn after
/// the train: the frame is the one without the accident followed by them.
pub proof fn lemma_sl_accident_adds_people(cfg: Config, rows: int, cols: int, x: int)
    ensures
        ({
            let y = train_top(cfg, rows, cols, x, LOGO_HEIGHT as int, 6, 3);
            let y2 = y + 1 + if cfg.fly {
                4int
            } else {
                0
            };
            let y3 = y + 1 + if cfg.fly {
                6int
            } else {
                0
            };
            sl_spans(Config { accident: true, ..cfg }, rows, cols, x) == sl_spans(
                Config { accident: false, ..cfg },
                rows,
                cols,
                x,
            ) + man_spans(y + 1, x + 14, x, rows, cols) + man_spans(y2, x + 45, x, rows, cols)
                + man_spans(y2, x + 53, x, rows, cols) + man_spans(y3, x + 66, x, rows, cols)
                + man_spans(y3, x + 74, x, rows, cols)
        }),
{
    let y = train_top(cfg, rows, cols, x, LOGO_HEIGHT as int, 6, 3);
    let on = Config { accident: true, ..cfg };
    let off = Config { accident: false, ..cfg };
    assert(sl_spans(off, rows, cols, x) + Seq::<Span>::empty() =~= sl_spans(off, rows, cols, x));
    assert(sl_spans(on, rows, cols, x) =~= sl_spans(off, rows, cols, x) + sl_men_spans(on, rows, cols, x));
}

/// With an accident the person on the small SL locomotive shows: the body
/// of the pose that the train's column selects, three columns wide, two
/// rows under the top of the train and fourteen columns from its left edge.
pub proof fn lemma_sl_locomotive_person_shows(cfg: Config, rows: int, cols: int, x: int, c: int)
    requires
        cfg.accident,
        0 <= cols,
        0 <= c < 3,
        0 <= train_top(cfg, rows, cols, x, LOGO_HEIGHT as int, 6, 3) + 2 < rows,
        0 <= x + 14 + c < cols,
    ensures
        picture(sl_spans(cfg, rows, cols, x)).contains_key(
            (train_top(cfg, rows, cols, x, LOGO_HEIGHT as int, 6, 3) + 2, x + 14 + c),
        ),
        picture(sl_spans(cfg, rows, cols, x))[(
            train_top(cfg, rows, cols, x, LOGO_HEIGHT as int, 6, 3) + 2,
            x + 14 + c,
        )] == man_text(man_pose(LOGO_LENGTH + x))[1][c],
{
    let y = train_top(cfg, rows, cols, x, LOGO_HEIGHT as int, 6, 3);
    let y2 = y + 1 + car_drop(cfg, 2);
    let y3 = y + 1 + car_drop(cfg, 3);
    let p = (y + 2, x + 14 + c);
    let m1 = man_spans(y + 1, x + 14, x, rows, cols);
    let m2 = man_spans(y2, x + 45, x, rows, cols);
    let m3 = man_spans(y2, x + 53, x, rows, cols);
    let m4 = man_spans(y3, x + 66, x, rows, cols);
    let m5 = man_spans(y3, x + 74, x, rows, cols);
    lemma_man_spans_body(y + 1, x + 14, x, rows, cols, c);
    if picture(m2).contains_key(p) {
        lemma_man_spans_footprint(y2, x + 45, x, rows, cols, p);
    }
    if picture(m3).contains_key(p) {
        lemma_man_spans_footprint(y2, x + 53, x, rows, cols, p);
    }
    if picture(m4).contains_key(p) {
        lemma_man_spans_footprint(y3, x + 66, x, rows, cols, p);
    }
    if picture(m5).contains_key(p) {
        lemma_man_spans_footprint(y3, x + 74, x, rows, cols, p);
    }
    let rest = four_rows(
        Clip::Runs,
        Layer { top: y, left: x, lines: sl_picture(logo_pattern(x)) },
        Layer { top: y + car_drop(cfg, 1), left: x + 21, lines: logo_coal_text() },
        Layer { top: y + car_drop(cfg, 2), left: x + 42, lines: logo_car_text() },
        Layer { top: y + car_drop(cfg, 3), left: x + 63, lines: logo_car_text() },
        rows,
        cols,
        7,
    );
    lemma_picture_cell(rest + m1, m2, p);
    lemma_picture_cell(rest + m1 + m2, m3, p);
    lemma_picture_cell(rest + m1 + m2 + m3, m4, p);
    lemma_picture_cell(rest + m1 + m2 + m3 + m4, m5, p);
    lemma_picture_cell(rest, m1, p);
    assert(sl_spans(cfg, rows, cols, x) =~= rest + m1 + m2 + m3 + m4 + m5);
}

/// Moving a puff erases it: the cells its old shape covered are blanked,
/// and its new shape is drawn over them; nothing else is painted.
pub proof fn lemma_drop_move_erases(d: SmokeDrop, rows: int, cols: int)
    requires
        0 <= cols,
        d.ptrn < SMOKE_FRAMES,
        d.kind < 2,
    ensures
        picture(drop_spans(d, rows, cols)) == blanked(
            visible_cells(d.y as int, d.x as int, smoke_text(d.kind as int)[d.ptrn as int], rows, cols),
        ).union_prefer_right(
            visible_cells(
                drop_moved(d).y as int,
                drop_moved(d).x as int,
                smoke_text(d.kind as int)[drop_moved(d).ptrn as int],
                rows,
                cols,
            ),
        ),
{
    let m = drop_moved(d);
    let erase = text_span(d.y as int, d.x as int, smoke_eraser_text()[d.ptrn as int], rows, cols);
    let draw = text_span(m.y as int, m.x as int, smoke_text(m.kind as int)[m.ptrn as int], rows, cols);
    lemma_eraser_fits_smoke(d.kind as int, d.ptrn as int);
    lemma_picture_append(erase, draw);
    lemma_text_span_paints_visible_cells(d.y as int, d.x as int, smoke_eraser_text()[d.ptrn as int], rows, cols);
    lemma_text_span_paints_visible_cells(m.y as int, m.x as int, smoke_text(m.kind as int)[m.ptrn as int], rows, cols);
    assert(visible_cells(d.y as int, d.x as int, smoke_eraser_text()[d.ptrn as int], rows, cols) =~= blanked(
        visible_cells(d.y as int, d.x as int, smoke_text(d.kind as int)[d.ptrn as int], rows, cols),
    ));
}

/// Moving the puffs of `a` and then those of `b` draws what moving each
/// list draws, one after the other.
proof fn lemma_drops_spans_append(a: Seq<SmokeDrop>, b: Seq<SmokeDrop>, rows: int, cols: int)
    ensures
        drops_spans(a + b, rows, cols) == drops_spans(a, rows, cols) + drops_spans(b, rows, cols),
    decreases b.len(),
{
    if b.len() == 0 {
        assert(a + b =~= a);
        assert(drops_spans(a, rows, cols) + drops_spans(b, rows, cols) =~= drops_spans(a, rows, cols));
    } else {
        lemma_drops_spans_append(a, b.drop_last(), rows, cols);
        assert((a + b).drop_last() =~= a + b.drop_last());
        assert((a + b).last() == b.last());
        assert(drops_spans(a + b, rows, cols) =~= drops_spans(a, rows, cols) + drops_spans(b, rows, cols));
    }
}

/// When the smoke moves, no puff leaves a trail: every cell of the screen
/// that puff `i` covered before the move is painted again in the frame,
/// and shows a blank unless something drawn after the blanks covers it:
/// the puff's own new shape, a later puff, or the new puff at the funnel.
pub proof fn lemma_old_drops_erased(
    s: DropsState,
    y: int,
    x: int,
    rows: int,
    cols: int,
    i: int,
    p: (int, int),
)
    requires
        s.wf(),
        0 <= cols,
        x % 4 == 0,
        0 <= i < s.drops.len(),
        visible_cells(
            s.drops[i].y as int,
            s.drops[i].x as int,
            smoke_text(s.drops[i].kind as int)[s.drops[i].ptrn as int],
            rows,
            cols,
        ).contains_key(p),
    ensures
        picture(smoke_spans(s, y, x, rows, cols)).contains_key(p),
        ({
            let m = drop_moved(s.drops[i]);
            let later = text_span(m.y as int, m.x as int, smoke_text(m.kind as int)[m.ptrn as int], rows, cols)
                + drops_spans(s.drops.skip(i + 1), rows, cols) + text_span(
                y,
                x,
                smoke_text((s.next_kind % 2) as int)[0],
                rows,
                cols,
            );
            picture(smoke_spans(s, y, x, rows, cols))[p] == ' ' || picture(later).contains_key(p)
        }),
{
    let d = s.drops[i];
    let m = drop_moved(d);
    assert(d.ptrn < SMOKE_FRAMES && d.kind < 2);
    lemma_eraser_fits_smoke(d.kind as int, d.ptrn as int);
    let erase = text_span(d.y as int, d.x as int, smoke_eraser_text()[d.ptrn as int], rows, cols);
    let draw = text_span(m.y as int, m.x as int, smoke_text(m.kind as int)[m.ptrn as int], rows, cols);
    let front = drops_spans(s.drops.take(i), rows, cols);
    let back = drops_spans(s.drops.skip(i + 1), rows, cols);
    let fresh = text_span(y, x, smoke_text((s.next_kind % 2) as int)[0], rows, cols);
    lemma_text_span_paints_visible_cells(d.y as int, d.x as int, smoke_eraser_text()[d.ptrn as int], rows, cols);
    assert(picture(erase).contains_key(p));
    assert(picture(erase)[p] == ' ');
    lemma_drops_spans_append(s.drops.take(i), s.drops.skip(i), rows, cols);
    assert(s.drops.take(i) + s.drops.skip(i) =~= s.drops);
    lemma_drops_spans_append(seq![d], s.drops.skip(i + 1), rows, cols);
    assert(seq![d] + s.drops.skip(i + 1) =~= s.drops.skip(i));
    assert(seq![d].drop_last() =~= Seq::<SmokeDrop>::empty());
    assert(seq![d].last() == d);
    assert(drops_spans(seq![d].drop_last(), rows, cols) == Seq::<Span>::empty());
    assert(drops_spans(seq![d], rows, cols) == drops_spans(seq![d].drop_last(), rows, cols) + drop_spans(d, rows, cols));
    assert(drops_spans(seq![d], rows, cols) =~= erase + draw);
    let later = draw + back + fresh;
    assert(smoke_spans(s, y, x, rows, cols) =~= front + erase + later);
    lemma_picture_cell(front, erase, p);
    lemma_picture_cell(front + erase, later, p);
}

/// The wheels of the C51 turn as it moves: at column `x` the four rows
/// under its seven-row body show wheel picture `5 - (87 + x) % 6`, which
/// steps on with every column and comes back every six.
pub proof fn lemma_c51_wheels_turn(cfg: Config, rows: int, cols: int, x: int, j: int, c: int)
    requires
        0 <= cols,
        0 <= j < 4,
        x <= c < x + 55,
        0 <= c < cols,
        0 <= train_top(cfg, rows, cols, x, C51_HEIGHT as int, 7, 5) + 7 + j < rows,
    ensures
        picture(c51_spans(cfg, rows, cols, x)).contains_key(
            (train_top(cfg, rows, cols, x, C51_HEIGHT as int, 7, 5) + 7 + j, c),
        ),
        picture(c51_spans(cfg, rows, cols, x))[(
            train_top(cfg, rows, cols, x, C51_HEIGHT as int, 7, 5) + 7 + j,
            c,
        )] == c51_wheels_text(5 - (C51_LENGTH + x) % 6)[j][c - x],
{
    let y = train_top(cfg, rows, cols, x, C51_HEIGHT as int, 7, 5);
    let dy = if cfg.fly {
        1int
    } else {
        0
    };
    let la = Layer { top: y, left: x, lines: c51_picture(c51_pattern(x)) };
    let lb = Layer { top: y + dy, left: x + 55, lines: c51_tender() };
    let p = (y + 7 + j, c);
    lemma_c51_shape();
    assert(la.lines[7 + j] == c51_wheels_text(5 - c51_pattern(x))[j]);
    lemma_paired_rows_first_layer(Clip::Runs, la, lb, rows, cols, 12, 7 + j, c);
    let body = paired_rows(Clip::Runs, la, lb, rows, cols, 12);
    if cfg.accident {
        let m1 = man_spans(y + 3, x + 45, x, rows, cols);
        let m2 = man_spans(y + 3, x + 49, x, rows, cols);
        if picture(m1).contains_key(p) {
            lemma_man_spans_footprint(y + 3, x + 45, x, rows, cols, p);
        }
        if picture(m2).contains_key(p) {
            lemma_man_spans_footprint(y + 3, x + 49, x, rows, cols, p);
        }
        lemma_picture_cell(m1, m2, p);
        lemma_picture_cell(body, m1 + m2, p);
        assert(c51_spans(cfg, rows, cols, x) == body + (m1 + m2));
    } else {
        lemma_picture_cell(body, Seq::<Span>::empty(), p);
        assert(c51_spans(cfg, rows, cols, x) == body + Seq::<Span>::empty());
    }
}

/// With an accident two people on the D51 cry for help, drawn after the
/// train, two rows under its top and 43 and 47 columns from its left
/// edge: the frame is the one without the accident followed by them.
pub proof fn lemma_d51_accident_adds_people(cfg: Config, rows: int, cols: int, x: int)
    ensures
        ({
            let y = train_top(cfg, rows, cols, x, D51_HEIGHT as int, 7, 5);
            d51_spans(Config { accident: true, ..cfg }, rows, cols, x) == d51_spans(
                Config { accident: false, ..cfg },
                rows,
                cols,
                x,
            ) + man_spans(y + 2, x + 43, x, rows, cols) + man_spans(y + 2, x + 47, x, rows, cols)
        }),
{
    let off = Config { accident: false, ..cfg };
    assert(d51_spans(off, rows, cols, x) + Seq::<Span>::empty() =~= d51_spans(off, rows, cols, x));
}

/// With an accident two people on the C51 cry for help, drawn after the
/// train, three rows under its top and 45 and 49 columns from its left
/// edge: the frame is the one without the accident followed by them.
pub proof fn lemma_c51_accident_adds_people(cfg: Config, rows: int, cols: int, x: int)
    ensures
        ({
            let y = train_top(cfg, rows, cols, x, C51_HEIGHT as int, 7, 5);
            c51_spans(Config { accident: true, ..cfg }, rows, cols, x) == c51_spans(
                Config { accident: false, ..cfg },
                rows,
                cols,
                x,
            ) + man_spans(y + 3, x + 45, x, rows, cols) + man_spans(y + 3, x + 49, x, rows, cols)
        }),
{
    let off = Config { accident: false, ..cfg };
    assert(c51_spans(off, rows, cols, x) + Seq::<Span>::empty() =~= c51_spans(off, rows, cols, x));
}

/// The wheels of the small SL locomotive turn as it moves: at column `x`
/// the two rows under its four-row body show wheel pattern
/// `((84 + x) / 3) % 6`, which steps on every third column.
pub proof fn lemma_sl_wheels_turn(cfg: Config, rows: int, cols: int, x: int, j: int, c: int)
    requires
        0 <= cols,
        0 <= j < 2,
        x <= c < x + 21,
        0 <= c < cols,
        0 <= train_top(cfg, rows, cols, x, LOGO_HEIGHT as int, 6, 3) + 4 + j < rows,
    ensures
        picture(sl_spans(cfg, rows, cols, x)).contains_key(
            (train_top(cfg, rows, cols, x, LOGO_HEIGHT as int, 6, 3) + 4 + j, c),
        ),
        picture(sl_spans(cfg, rows, cols, x))[(
            train_top(cfg, rows, cols, x, LOGO_HEIGHT as int, 6, 3) + 4 + j,
            c,
        )] == logo_wheels_text(((LOGO_LENGTH + x) / 3) % 6)[j][c - x],
{
    let y = train_top(cfg, rows, cols, x, LOGO_HEIGHT as int, 6, 3);
    let p = (y + 4 + j, c);
    let la = Layer { top: y, left: x, lines: sl_picture(logo_pattern(x)) };
    let lb = Layer { top: y + car_drop(cfg, 1), left: x + 21, lines: logo_coal_text() };
    let lc = Layer { top: y + car_drop(cfg, 2), left: x + 42, lines: logo_car_text() };
    let ld = Layer { top: y + car_drop(cfg, 3), left: x + 63, lines: logo_car_text() };
    lemma_logo_shape();
    assert(la.lines[4 + j] == logo_wheels_text(logo_pattern(x))[j]);
    lemma_four_rows_first_layer(Clip::Runs, la, lb, lc, ld, rows, cols, 7, 4 + j, c);
    let rest = four_rows(Clip::Runs, la, lb, lc, ld, rows, cols, 7);
    if cfg.accident {
        let y2 = y + 1 + car_drop(cfg, 2);
        let y3 = y + 1 + car_drop(cfg, 3);
        let m1 = man_spans(y + 1, x + 14, x, rows, cols);
        let m2 = man_spans(y2, x + 45, x, rows, cols);
        let m3 = man_spans(y2, x + 53, x, rows, cols);
        let m4 = man_spans(y3, x + 66, x, rows, cols);
        let m5 = man_spans(y3, x + 74, x, rows, cols);
        if picture(m1).contains_key(p) {
            lemma_man_spans_footprint(y + 1, x + 14, x, rows, cols, p);
        }
        if picture(m2).contains_key(p) {
            lemma_man_spans_footprint(y2, x + 45, x, rows, cols, p);
        }
        if picture(m3).contains_key(p) {
            lemma_man_spans_footprint(y2, x + 53, x, rows, cols, p);
        }
        if picture(m4).contains_key(p) {
            lemma_man_spans_footprint(y3, x + 66, x, rows, cols, p);
        }
        if picture(m5).contains_key(p) {
            lemma_man_spans_footprint(y3, x + 74, x, rows, cols, p);
        }
        lemma_picture_cell(m1, m2, p);
        lemma_picture_cell(m1 + m2, m3, p);
        lemma_picture_cell(m1 + m2 + m3, m4, p);
        lemma_picture_cell(m1 + m2 + m3 + m4, m5, p);
        let men = m1 + m2 + m3 + m4 + m5;
        lemma_picture_cell(rest, men, p);
        assert(sl_men_spans(cfg, rows, cols, x) == men);
        assert(sl_spans(cfg, rows, cols, x) == rest + men);
    } else {
        lemma_picture_cell(rest, Seq::<Span>::empty(), p);
        assert(sl_spans(cfg, rows, cols, x) == rest + Seq::<Span>::empty());
    }
}

} // verus!
