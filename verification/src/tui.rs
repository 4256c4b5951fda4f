//! `sl` with a screen object: the options come from single-letter flags,
//! every character is placed in its own cell, and the smoke keeps every
//! puff it ever made, white and black in turn.
use vstd::prelude::*;
use vstd::string::*;
use crate::art::{
    c51_body, c51_body_text, c51_coal, c51_coal_text, c51_wheels, c51_wheels_text, d51_body,
    d51_body_text, d51_coal, d51_coal_text, d51_wheels, d51_wheels_text, logo_body,
    logo_body_text, logo_car, logo_car_text, logo_coal, logo_coal_text, logo_eraser,
    logo_eraser_text, logo_wheels, logo_wheels_text, man, man_text, next_frame, smoke_drift,
    smoke_dx, smoke_dy, smoke_eraser, smoke_eraser_text, smoke_rise, smoke_shape, smoke_text,
    text_of, wheels_eraser, wheels_eraser_text, lemma_c51_shape, lemma_d51_shape, lemma_logo_shape, lemma_eraser_fits_smoke,
    lemma_man_shape, SMOKE_FRAMES,
};
use crate::frame::{
    all_on_screen, blanked, group_on_screen, lemma_glyph_lines_cell, lemma_four_rows_first_layer, lemma_glyph_lines_footprint,
    lemma_glyph_spans_paint_visible_cells,
    lemma_picture_append, lemma_picture_cell, picture, visible_cells, four_rows, glyph_at, glyph_lines, glyph_prefix, glyph_spans, Canvas, Clip, Layer, Span,
};
pub use crate::terminal::TerminalGuard;
use crate::geometry::{
    c51_pattern, d51_pattern, fits_i32, flying_top, logo_pattern, man_pose, man_pose_of,
    C51_FUNNEL, C51_HEIGHT, C51_LENGTH, D51_FUNNEL, D51_HEIGHT, D51_LENGTH, LOGO_FUNNEL,
    LOGO_HEIGHT, LOGO_LENGTH, PATTERNS,
};

verus! {

/// The trains the program can draw.
#[derive(Clone, Copy, Debug, PartialEq, Eq, Structural)]
pub enum Train {
    C51,
    D51,
    Logo,
}

/// The options of the program.
#[derive(Clone, Copy, Debug, PartialEq, Eq, Structural)]
pub struct State {
    /// People on board cry for help.
    pub accident: bool,
    /// Which train to draw.
    pub train: Train,
    /// The train flies up the screen.
    pub fly: bool,
}

/// The options before any flag: the D51, on the ground, nobody crying.
pub open spec fn default_state() -> State {
    State { accident: false, train: Train::D51, fly: false }
}

/// What one flag letter does to the options: `a` accident, `F` fly, `l`
/// the small SL train, `c` the C51; any other letter nothing.
pub open spec fn apply_flag(s: State, c: char) -> State {
    if c == 'a' {
        State { accident: true, ..s }
    } else if c == 'F' {
        State { fly: true, ..s }
    } else if c == 'l' {
        State { train: Train::Logo, ..s }
    } else if c == 'c' {
        State { train: Train::C51, ..s }
    } else {
        s
    }
}

/// The flag letters `cs` applied in order.
pub open spec fn apply_flags(s: State, cs: Seq<char>) -> State
    decreases cs.len(),
{
    if cs.len() == 0 {
        s
    } else {
        apply_flag(apply_flags(s, cs.drop_last()), cs.last())
    }
}

/// One argument applied: one that starts with `-` is a group of flag
/// letters, any other is ignored.
pub open spec fn apply_arg(s: State, arg: Seq<char>) -> State {
    if arg.len() > 0 && arg[0] == '-' {
        apply_flags(s, arg.drop_first())
    } else {
        s
    }
}

/// The arguments applied in order.
pub open spec fn apply_args(s: State, args: Seq<Seq<char>>) -> State
    decreases args.len(),
{
    if args.len() == 0 {
        s
    } else {
        apply_arg(apply_args(s, args.drop_last()), args.last())
    }
}

/// The characters of each argument.
pub open spec fn args_text(args: Seq<String>) -> Seq<Seq<char>> {
    args.map_values(|a: String| a@)
}

impl State {
    /// The options given by a command line whose first word is the
    /// program's name.
    pub fn from_args(args: &Vec<String>) -> (st: State)
        ensures
            st == apply_args(
                default_state(),
                if args@.len() == 0 {
                    Seq::<Seq<char>>::empty()
                } else {
                    args_text(args@).drop_first()
                },
            ),
    {
        let mut st = State { accident: false, fly: false, train: Train::D51 };
        let n = args.len();
        if n == 0 {
            return st;
        }
        let ghost words = args_text(args@).drop_first();
        let mut i: usize = 1;
        assert(words.take(0) =~= Seq::<Seq<char>>::empty());
        while i < n
            invariant
                1 <= i <= n,
                n == args@.len(),
                words == args_text(args@).drop_first(),
                st == apply_args(default_state(), words.take(i - 1)),
            decreases n - i,
        {
            let arg = args[i].as_str();
            let len = arg.unicode_len();
            let ghost before = st;
            if len > 0 && arg.get_char(0) == '-' {
                let mut j: usize = 1;
                assert(arg@.drop_first().take(0) =~= Seq::<char>::empty());
                while j < len
                    invariant
                        1 <= j <= len,
                        len == arg@.len(),
                        st == apply_flags(before, arg@.drop_first().take(j - 1)),
                    decreases len - j,
                {
                    let c = arg.get_char(j);
                    if c == 'a' {
                        st.accident = true;
                    } else if c == 'F' {
                        st.fly = true;
                    } else if c == 'l' {
                        st.train = Train::Logo;
                    } else if c == 'c' {
                        st.train = Train::C51;
                    }
                    proof {
                        let t = arg@.drop_first().take(j as int);
                        assert(t.drop_last() =~= arg@.drop_first().take(j - 1));
                        assert(t.last() == c);
                    }
                    j = j + 1;
                }
                assert(arg@.drop_first().take(len - 1) =~= arg@.drop_first());
            }
            proof {
                let t = words.take(i as int);
                assert(t.drop_last() =~= words.take(i - 1));
                assert(t.last() == arg@);
            }
            i = i + 1;
        }
        assert(words.take(n - 1) =~= words);
        st
    }
}

/// One puff of smoke: where it is, its frame, and its kind (0 or 1).
#[derive(Clone, Copy, Debug, PartialEq, Eq, Structural)]
pub struct Smoke {
    pub y: i32,
    pub x: i32,
    pub ptrn: usize,
    pub kind: usize,
}

/// Where a puff goes and what it shows at the next step.
pub open spec fn smoke_moved(s: Smoke) -> Smoke {
    Smoke {
        y: (s.y - smoke_rise(s.ptrn as int)) as i32,
        x: (s.x + smoke_drift(s.ptrn as int)) as i32,
        ptrn: next_frame(s.ptrn as int) as usize,
        kind: s.kind,
    }
}

/// The puff can take its next step without leaving the range of `i32`.
pub open spec fn smoke_can_move(s: Smoke) -> bool {
    fits_i32(s.y - smoke_rise(s.ptrn as int)) && fits_i32(s.x + smoke_drift(s.ptrn as int))
}

/// The model of the smoke: every puff made so far, oldest first, and how
/// many have been made.
pub struct EnvState {
    pub smokes: Seq<Smoke>,
    pub smoke_count: nat,
}

impl EnvState {
    /// Every puff is at one of the sixteen frames, every puff made is kept,
    /// and the puffs are of kind 0 and 1 in turn, the first of kind 0.
    pub open spec fn wf(self) -> bool {
        &&& self.smoke_count == self.smokes.len()
        &&& forall|i: int|
            0 <= i < self.smokes.len() ==> #[trigger] self.smokes[i].ptrn < SMOKE_FRAMES
                && self.smokes[i].kind == i % 2
    }

    /// A new puff at column `x` can be added without leaving the range of
    /// the counters and coordinates.
    pub open spec fn ready_at(self, x: int) -> bool {
        x % 4 == 0 ==> {
            &&& self.smoke_count < usize::MAX
            &&& forall|i: int| 0 <= i < self.smokes.len() ==> #[trigger] smoke_can_move(self.smokes[i])
        }
    }

    /// The smoke after the funnel passes row `y`, column `x`: at every
    /// fourth column every puff moves and a new one joins.
    pub open spec fn after(self, y: i32, x: i32) -> EnvState {
        if x % 4 == 0 {
            EnvState {
                smokes: self.smokes.map_values(|s: Smoke| smoke_moved(s)).push(
                    Smoke { y, x, ptrn: 0, kind: (self.smoke_count % 2) as usize },
                ),
                smoke_count: self.smoke_count + 1,
            }
        } else {
            self
        }
    }
}

/// What moving one puff draws: its old shape erased, its new one drawn.
pub open spec fn smoke_spans(s: Smoke, rows: int, cols: int) -> Seq<Span> {
    let m = smoke_moved(s);
    glyph_spans(s.y as int, s.x as int, smoke_eraser_text()[s.ptrn as int], rows, cols)
        + glyph_spans(m.y as int, m.x as int, smoke_text(m.kind as int)[m.ptrn as int], rows, cols)
}

/// What moving each puff of `ss` in order draws.
pub open spec fn smokes_spans(ss: Seq<Smoke>, rows: int, cols: int) -> Seq<Span>
    decreases ss.len(),
{
    if ss.len() == 0 {
        Seq::empty()
    } else {
        smokes_spans(ss.drop_last(), rows, cols) + smoke_spans(ss.last(), rows, cols)
    }
}

/// What the smoke draws when the funnel passes row `y`, column `x`.
pub open spec fn env_spans(e: EnvState, y: int, x: int, rows: int, cols: int) -> Seq<Span> {
    if x % 4 == 0 {
        smokes_spans(e.smokes, rows, cols) + glyph_spans(
            y,
            x,
            smoke_text((e.smoke_count % 2) as int)[0],
            rows,
            cols,
        )
    } else {
        Seq::empty()
    }
}

/// The smoke of one train.
pub struct SmokeEnv {
    smokes: Vec<Smoke>,
    smoke_count: usize,
}

impl View for SmokeEnv {
    type V = EnvState;

    closed spec fn view(&self) -> EnvState {
        EnvState { smokes: self.smokes@, smoke_count: self.smoke_count as nat }
    }
}

/// The screen of the animation: its size, and the draws of the frame being
/// built.
pub struct Tui {
    pub rows: u16,
    pub cols: u16,
    pub canvas: Canvas,
}

impl SmokeEnv {
    /// No smoke yet.
    pub fn new() -> (e: SmokeEnv)
        ensures
            e@.smokes == Seq::<Smoke>::empty(),
            e@.smoke_count == 0,
            e@.wf(),
    {
        SmokeEnv { smokes: Vec::new(), smoke_count: 0 }
    }

    /// The number of puffs.
    pub fn len(&self) -> (n: usize)
        ensures
            n == self@.smokes.len(),
    {
        self.smokes.len()
    }

    /// The puff at position `i`, the oldest first.
    pub fn smoke(&self, i: usize) -> (s: Smoke)
        requires
            i < self@.smokes.len(),
        ensures
            s == self@.smokes[i as int],
    {
        self.smokes[i]
    }

    /// Moves the smoke on as the funnel passes row `y`, column `x`: at
    /// every fourth column each puff is erased, moved and drawn again, and a
    /// new puff is drawn at the funnel and joins the smoke.
    pub fn add_smoke(&mut self, tui: &mut Tui, y: i32, x: i32)
        requires
            old(self)@.wf(),
            old(self)@.ready_at(x as int),
        ensures
            final(self)@ == old(self)@.after(y, x),
            final(self)@.wf(),
            final(tui).rows == old(tui).rows,
            final(tui).cols == old(tui).cols,
            final(tui).canvas@ == old(tui).canvas@ + env_spans(
                old(self)@,
                y as int,
                x as int,
                old(tui).rows as int,
                old(tui).cols as int,
            ),
    {
        if x % 4 != 0 {
            assert(old(tui).canvas@ + Seq::<Span>::empty() =~= old(tui).canvas@);
            return ;
        }
        let ghost start = self@;
        let ghost canvas0 = tui.canvas@;
        let ghost rows = tui.rows as int;
        let ghost cols = tui.cols as int;
        let n = self.smokes.len();
        let mut i: usize = 0;
        while i < n
            invariant
                0 <= i <= n,
                n == start.smokes.len(),
                start.wf(),
                start.ready_at(x as int),
                x % 4 == 0,
                self.smoke_count == start.smoke_count,
                self.smokes@.len() == n,
                forall|k: int|
                    0 <= k < i ==> #[trigger] self.smokes@[k] == smoke_moved(start.smokes[k]),
                forall|k: int| i <= k < n ==> #[trigger] self.smokes@[k] == start.smokes[k],
                tui.rows as int == rows,
                tui.cols as int == cols,
                tui.canvas@ == canvas0 + smokes_spans(start.smokes.take(i as int), rows, cols),
            decreases n - i,
        {
            let smoke = self.smokes[i];
            assert(smoke == start.smokes[i as int]);
            assert(smoke_can_move(start.smokes[i as int]));
            tui.my_mvaddstr(smoke.y, smoke.x, smoke_eraser(smoke.ptrn));
            let ptrn = if smoke.ptrn < SMOKE_FRAMES - 1 {
                smoke.ptrn + 1
            } else {
                smoke.ptrn
            };
            let moved = Smoke {
                y: smoke.y - smoke_dy(smoke.ptrn),
                x: smoke.x + smoke_dx(smoke.ptrn),
                ptrn,
                kind: smoke.kind,
            };
            assert(moved == smoke_moved(smoke));
            tui.my_mvaddstr(moved.y, moved.x, smoke_shape(moved.kind, moved.ptrn));
            self.smokes.set(i, moved);
            proof {
                let t = start.smokes.take(i as int + 1);
                assert(t.drop_last() =~= start.smokes.take(i as int));
                assert(t.last() == smoke);
            }
            i = i + 1;
        }
        assert(start.smokes.take(n as int) =~= start.smokes);
        let kind = self.smoke_count % 2;
        tui.my_mvaddstr(y, x, smoke_shape(kind, 0));
        self.smokes.push(Smoke { y, x, ptrn: 0, kind });
        self.smoke_count = self.smoke_count + 1;
        proof {
            let after = start.after(y, x);
            assert(self@.smokes =~= after.smokes);
            assert(self@ == after);
            assert forall|k: int| 0 <= k < after.smokes.len() implies #[trigger] after.smokes[k].ptrn
                < SMOKE_FRAMES && after.smokes[k].kind == k % 2 by {
                if k < n {
                    assert(after.smokes[k] == smoke_moved(start.smokes[k]));
                }
            }
            assert(tui.canvas@ =~= canvas0 + env_spans(start, y as int, x as int, rows, cols));
        }
    }
}

/// What a person on board draws: the two lines of the pose that
/// `LOGO_LENGTH + x` selects, placed at row `y`, column `x`.
pub open spec fn man_spans(y: int, x: int, rows: int, cols: int) -> Seq<Span> {
    let p = man_pose(LOGO_LENGTH + x);
    glyph_spans(y, x, man_text(p)[0], rows, cols) + glyph_spans(y + 1, x, man_text(p)[1], rows, cols)
}

/// The top row of a train `height` rows high, flying or standing with its
/// `standing` rows above the middle line.
pub open spec fn train_top(
    st: State,
    rows: int,
    cols: int,
    x: int,
    height: int,
    step: int,
    standing: int,
) -> int {
    if st.fly {
        flying_top(x, rows, cols, step, height)
    } else {
        rows / 2 - standing
    }
}

/// What the D51 at column `x` draws, before its smoke.
pub open spec fn d51_spans(st: State, rows: int, cols: int, x: int) -> Seq<Span> {
    let y = train_top(st, rows, cols, x, D51_HEIGHT as int, 7, 5);
    let dy = if st.fly {
        1int
    } else {
        0
    };
    glyph_lines(y, x, d51_body_text(), rows, cols) + glyph_lines(
        y + 7,
        x,
        d51_wheels_text(d51_pattern(x)),
        rows,
        cols,
    ) + glyph_spans(y + 10, x, wheels_eraser_text(), rows, cols) + glyph_lines(
        y + dy,
        x + 53,
        d51_coal_text(),
        rows,
        cols,
    ) + if st.accident {
        man_spans(y + 2, x + 43, rows, cols) + man_spans(y + 2, x + 47, rows, cols)
    } else {
        Seq::empty()
    }
}

/// What the C51 at column `x` draws, before its smoke.
pub open spec fn c51_spans(st: State, rows: int, cols: int, x: int) -> Seq<Span> {
    let y = train_top(st, rows, cols, x, C51_HEIGHT as int, 7, 5);
    let dy = if st.fly {
        1int
    } else {
        0
    };
    glyph_lines(y, x, c51_body_text(), rows, cols) + glyph_lines(
        y + 7,
        x,
        c51_wheels_text(c51_pattern(x)),
        rows,
        cols,
    ) + glyph_spans(y + 11, x, wheels_eraser_text(), rows, cols) + glyph_lines(
        y + dy,
        x + 55,
        c51_coal_text(),
        rows,
        cols,
    ) + if st.accident {
        man_spans(y + 3, x + 45, rows, cols) + man_spans(y + 3, x + 49, rows, cols)
    } else {
        Seq::empty()
    }
}

/// The small SL locomotive in pattern `p`: body, wheels, blank line.
pub open spec fn sl_picture(p: int) -> Seq<Seq<char>> {
    logo_body_text() + logo_wheels_text(p) + seq![logo_eraser_text()]
}

/// The vertical offset of car `car` of the small SL train.
pub open spec fn car_drop(st: State, car: int) -> int {
    if st.fly {
        2 * car
    } else {
        0
    }
}

/// What the small SL train at column `x` draws, before its smoke: row by
/// row, the locomotive, the coal car and the two passenger cars, then the
/// people crying for help.
pub open spec fn sl_spans(st: State, rows: int, cols: int, x: int) -> Seq<Span> {
    let y = train_top(st, rows, cols, x, LOGO_HEIGHT as int, 6, 3);
    four_rows(
        Clip::Cells,
        Layer { top: y, left: x, lines: sl_picture(logo_pattern(x)) },
        Layer { top: y + car_drop(st, 1), left: x + 21, lines: logo_coal_text() },
        Layer { top: y + car_drop(st, 2), left: x + 42, lines: logo_car_text() },
        Layer { top: y + car_drop(st, 3), left: x + 63, lines: logo_car_text() },
        rows,
        cols,
        7,
    ) + if st.accident {
        sl_men_spans(st, rows, cols, x)
    } else {
        Seq::empty()
    }
}

/// What the people on board the small SL train draw.
pub open spec fn sl_men_spans(st: State, rows: int, cols: int, x: int) -> Seq<Span> {
    let y = train_top(st, rows, cols, x, LOGO_HEIGHT as int, 6, 3);
    let y2 = y + 1 + car_drop(st, 2);
    let y3 = y + 1 + car_drop(st, 3);
    man_spans(y + 1, x + 14, rows, cols) + man_spans(y2, x + 45, rows, cols) + man_spans(
        y2,
        x + 53,
        rows,
        cols,
    ) + man_spans(y3, x + 66, rows, cols) + man_spans(y3, x + 74, rows, cols)
}

/// How far left of the screen the chosen train travels before it is gone.
pub open spec fn train_length(st: State) -> int {
    match st.train {
        Train::Logo => LOGO_LENGTH as int,
        Train::C51 => C51_LENGTH as int,
        Train::D51 => D51_LENGTH as int,
    }
}

/// The columns at which the chosen train can be drawn without leaving the
/// range of `i32`.
pub open spec fn train_fits(st: State, x: int) -> bool {
    match st.train {
        Train::Logo => fits_i32(LOGO_LENGTH + x) && (st.accident ==> fits_i32(LOGO_LENGTH + x + 74)),
        Train::C51 => fits_i32(C51_LENGTH + x) && (st.accident ==> fits_i32(LOGO_LENGTH + x + 49)),
        Train::D51 => fits_i32(D51_LENGTH + x) && (st.accident ==> fits_i32(LOGO_LENGTH + x + 47)),
    }
}

/// What the chosen train at column `x` draws, before its smoke.
pub open spec fn train_spans(st: State, rows: int, cols: int, x: int) -> Seq<Span> {
    match st.train {
        Train::Logo => sl_spans(st, rows, cols, x),
        Train::C51 => c51_spans(st, rows, cols, x),
        Train::D51 => d51_spans(st, rows, cols, x),
    }
}

/// The row of the chosen train's funnel.
pub open spec fn funnel_row(st: State, rows: int, cols: int, x: int) -> int {
    match st.train {
        Train::Logo => train_top(st, rows, cols, x, LOGO_HEIGHT as int, 6, 3) - 1,
        Train::C51 => train_top(st, rows, cols, x, C51_HEIGHT as int, 7, 5) - 1,
        Train::D51 => train_top(st, rows, cols, x, D51_HEIGHT as int, 7, 5) - 1,
    }
}

/// The column of the chosen train's funnel.
pub open spec fn funnel_col(st: State, x: int) -> int {
    match st.train {
        Train::Logo => x + LOGO_FUNNEL,
        Train::C51 => x + C51_FUNNEL,
        Train::D51 => x + D51_FUNNEL,
    }
}

impl Tui {
    /// A screen of the size the terminal reported, as (columns, rows), or
    /// 80 x 24 when it reported none.
    pub fn new(size: Option<(u16, u16)>) -> (t: Tui)
        ensures
            t.cols == (match size {
                Some(s) => s.0,
                None => 80,
            }),
            t.rows == (match size {
                Some(s) => s.1,
                None => 24,
            }),
            t.canvas@ == Seq::<Span>::empty(),
    {
        let (cols, rows) = match size {
            Some(s) => s,
            None => (80, 24),
        };
        Tui { rows, cols, canvas: Canvas::new() }
    }

    /// Queues, one cell at a time, the characters of `s` placed at row `y`,
    /// column `x` that fall on the screen.
    pub fn my_mvaddstr(&mut self, y: i32, x: i32, s: &str)
        ensures
            final(self).rows == old(self).rows,
            final(self).cols == old(self).cols,
            final(self).canvas@ == old(self).canvas@ + glyph_spans(
                y as int,
                x as int,
                s@,
                old(self).rows as int,
                old(self).cols as int,
            ),
    {
        reveal(glyph_spans);
        reveal(glyph_prefix);
        let ghost c0 = self.canvas@;
        let ghost rows = self.rows as int;
        let ghost cols = self.cols as int;
        let r = self.rows as i32;
        let c = self.cols as i32;
        if 0 <= y && y < r {
            let n = s.unicode_len();
            let mut i: usize = 0;
            assert(c0 + Seq::<Span>::empty() =~= c0);
            while i < n
                invariant
                    0 <= i <= n,
                    n == s@.len(),
                    0 <= y < rows,
                    self.rows as int == rows,
                    self.cols as int == cols,
                    c as int == cols,
                    self.canvas@ == c0 + glyph_prefix(y as int, x as int, s@, rows, cols, i as int),
                decreases n - i,
            {
                let col = x as i128 + i as i128;
                let ghost before = self.canvas@;
                proof {
                    reveal(glyph_prefix);
                }
                assert(glyph_prefix(y as int, x as int, s@, rows, cols, i as int + 1)
                    == glyph_prefix(y as int, x as int, s@, rows, cols, i as int) + glyph_at(
                    y as int,
                    x + i,
                    s@[i as int],
                    cols,
                ));
                if 0 <= col && col < c as i128 {
                    let glyph = s.substring_char(i, i + 1);
                    self.canvas.put(y as u16, col as u16, glyph.to_owned());
                    assert(glyph@ =~= seq![s@[i as int]]);
                    assert(self.canvas@ =~= before + glyph_at(y as int, x + i, s@[i as int], cols));
                } else {
                    assert(before + glyph_at(y as int, x + i, s@[i as int], cols) =~= before);
                }
                assert(self.canvas@ =~= c0 + glyph_prefix(
                    y as int,
                    x as int,
                    s@,
                    rows,
                    cols,
                    i as int + 1,
                ));
                i = i + 1;
            }
        } else {
            assert(glyph_prefix(y as int, x as int, s@, rows, cols, s@.len() as int)
                =~= Seq::<Span>::empty());
            assert(c0 + Seq::<Span>::empty() =~= c0);
        }
    }

    /// Queues, cell by cell, the lines of a picture, line `i` at row
    /// `y + i`, column `x`.
    fn draw_picture(&mut self, y: i32, x: i32, lines: &[&str])
        requires
            lines@.len() <= i32::MAX,
            y + lines@.len() <= i32::MAX + 1,
        ensures
            final(self).rows == old(self).rows,
            final(self).cols == old(self).cols,
            final(self).canvas@ == old(self).canvas@ + glyph_lines(
                y as int,
                x as int,
                text_of(lines@),
                old(self).rows as int,
                old(self).cols as int,
            ),
    {
        let ghost canvas0 = self.canvas@;
        let ghost rows = self.rows as int;
        let ghost cols = self.cols as int;
        let n = lines.len();
        let mut i: usize = 0;
        assert(text_of(lines@).take(0) =~= Seq::<Seq<char>>::empty());
        proof {
            reveal(glyph_lines);
        }
        assert(canvas0 + Seq::<Span>::empty() =~= canvas0);
        while i < n
            invariant
                0 <= i <= n,
                n == lines@.len(),
                y + lines@.len() <= i32::MAX + 1,
                lines@.len() <= i32::MAX,
                self.rows as int == rows,
                self.cols as int == cols,
                self.canvas@ == canvas0 + glyph_lines(
                    y as int,
                    x as int,
                    text_of(lines@).take(i as int),
                    rows,
                    cols,
                ),
            decreases n - i,
        {
            self.my_mvaddstr(y + i as i32, x, lines[i]);
            proof {
                reveal(glyph_lines);
                let t = text_of(lines@).take(i as int + 1);
                assert(t.drop_last() =~= text_of(lines@).take(i as int));
                assert(t.last() == lines@[i as int]@);
            }
            i = i + 1;
        }
        assert(text_of(lines@).take(n as int) =~= text_of(lines@));
    }

    /// Queues a person on board at row `y`, column `x`, in the pose that
    /// `LOGO_LENGTH + x` selects.
    pub fn add_man(&mut self, y: i32, x: i32)
        requires
            fits_i32(LOGO_LENGTH + x),
            man_pose(LOGO_LENGTH + x) >= 0,
            y < i32::MAX,
        ensures
            final(self).rows == old(self).rows,
            final(self).cols == old(self).cols,
            final(self).canvas@ == old(self).canvas@ + man_spans(
                y as int,
                x as int,
                old(self).rows as int,
                old(self).cols as int,
            ),
    {
        let idx = man_pose_of(LOGO_LENGTH + x) as usize;
        let frame = man(idx);
        self.my_mvaddstr(y, x, frame[0]);
        self.my_mvaddstr(y + 1, x, frame[1]);
    }

    /// Draws the D51 with its left edge at column `x`, and moves its smoke
    /// on. Returns whether the train is gone: once it has travelled its
    /// length past the left edge nothing is drawn.
    pub fn render_d51(&mut self, env: &mut SmokeEnv, state: &State, x: i32) -> (done: bool)
        requires
            old(env)@.wf(),
            train_fits(State { train: Train::D51, ..*state }, x as int),
            old(env)@.ready_at(x + D51_FUNNEL),
        ensures
            done == (x < -D51_LENGTH),
            final(self).rows == old(self).rows,
            final(self).cols == old(self).cols,
            final(env)@.wf(),
            done ==> final(self).canvas@ == old(self).canvas@ && final(env)@ == old(env)@,
            !done ==> final(env)@ == old(env)@.after(
                (train_top(*state, old(self).rows as int, old(self).cols as int, x as int, D51_HEIGHT as int, 7, 5) - 1) as i32,
                (x + D51_FUNNEL) as i32,
            ),
            !done ==> final(self).canvas@ == old(self).canvas@ + d51_spans(
                *state,
                old(self).rows as int,
                old(self).cols as int,
                x as int,
            ) + env_spans(
                old(env)@,
                train_top(*state, old(self).rows as int, old(self).cols as int, x as int, D51_HEIGHT as int, 7, 5) - 1,
                x + D51_FUNNEL,
                old(self).rows as int,
                old(self).cols as int,
            ),
    {
        if x < -D51_LENGTH {
            return true;
        }
        let ghost rows = self.rows as int;
        let ghost cols = self.cols as int;
        let ghost c0 = self.canvas@;
        let mut y = (self.rows as i32) / 2 - 5;
        let mut dy: i32 = 0;
        if state.fly {
            y = (x / 7) + (self.rows as i32) - (self.cols as i32 / 7) - D51_HEIGHT;
            dy = 1;
        }
        assert(y == train_top(*state, rows, cols, x as int, D51_HEIGHT as int, 7, 5));
        let ptn = ((D51_LENGTH + x) as usize) % PATTERNS;
        let body = d51_body();
        self.draw_picture(y, x, &body);
        let height = body.len() as i32;
        let wheels = d51_wheels(ptn);
        self.draw_picture(y + height, x, &wheels);
        let height = height + wheels.len() as i32;
        self.my_mvaddstr(y + height, x, wheels_eraser());
        let car_x_offset: i32 = 53;
        let car_y_offset: i32 = 0;
        let coal = d51_coal();
        self.draw_picture(y + dy + car_y_offset, x + car_x_offset, &coal);
        if state.accident {
            proof {
                crate::geometry::lemma_man_pose_alternates(LOGO_LENGTH + x + 43);
                crate::geometry::lemma_man_pose_alternates(LOGO_LENGTH + x + 47);
            }
            self.add_man(y + 2, x + 43);
            self.add_man(y + 2, x + 47);
        }
        assert(self.canvas@ =~= c0 + d51_spans(*state, rows, cols, x as int));
        env.add_smoke(self, y - 1, x + D51_FUNNEL);
        false
    }

    /// Draws the C51 with its left edge at column `x`, and moves its smoke
    /// on. Returns whether the train is gone.
    pub fn render_c51(&mut self, env: &mut SmokeEnv, state: &State, x: i32) -> (done: bool)
        requires
            old(env)@.wf(),
            train_fits(State { train: Train::C51, ..*state }, x as int),
            old(env)@.ready_at(x + C51_FUNNEL),
        ensures
            done == (x < -C51_LENGTH),
            final(self).rows == old(self).rows,
            final(self).cols == old(self).cols,
            final(env)@.wf(),
            done ==> final(self).canvas@ == old(self).canvas@ && final(env)@ == old(env)@,
            !done ==> final(env)@ == old(env)@.after(
                (train_top(*state, old(self).rows as int, old(self).cols as int, x as int, C51_HEIGHT as int, 7, 5) - 1) as i32,
                (x + C51_FUNNEL) as i32,
            ),
            !done ==> final(self).canvas@ == old(self).canvas@ + c51_spans(
                *state,
                old(self).rows as int,
                old(self).cols as int,
                x as int,
            ) + env_spans(
                old(env)@,
                train_top(*state, old(self).rows as int, old(self).cols as int, x as int, C51_HEIGHT as int, 7, 5) - 1,
                x + C51_FUNNEL,
                old(self).rows as int,
                old(self).cols as int,
            ),
    {
        if x < -C51_LENGTH {
            return true;
        }
        let ghost rows = self.rows as int;
        let ghost cols = self.cols as int;
        let ghost c0 = self.canvas@;
        let mut y = (self.rows as i32) / 2 - 5;
        let mut dy: i32 = 0;
        if state.fly {
            y = (x / 7) + (self.rows as i32) - (self.cols as i32 / 7) - C51_HEIGHT;
            dy = 1;
        }
        assert(y == train_top(*state, rows, cols, x as int, C51_HEIGHT as int, 7, 5));
        let ptn = ((C51_LENGTH + x) as usize) % PATTERNS;
        let body = c51_body();
        self.draw_picture(y, x, &body);
        let height = body.len() as i32;
        let wheels = c51_wheels(ptn);
        self.draw_picture(y + height, x, &wheels);
        let height = height + wheels.len() as i32;
        self.my_mvaddstr(y + height, x, wheels_eraser());
        let car_x_offset: i32 = 55;
        let car_y_offset: i32 = 0;
        let coal = c51_coal();
        self.draw_picture(y + dy + car_y_offset, x + car_x_offset, &coal);
        if state.accident {
            proof {
                crate::geometry::lemma_man_pose_alternates(LOGO_LENGTH + x + 45);
                crate::geometry::lemma_man_pose_alternates(LOGO_LENGTH + x + 49);
            }
            self.add_man(y + 3, x + 45);
            self.add_man(y + 3, x + 49);
        }
        assert(self.canvas@ =~= c0 + c51_spans(*state, rows, cols, x as int));
        env.add_smoke(self, y - 1, x + C51_FUNNEL);
        false
    }

    /// Draws the small SL train with its left edge at column `x`, row by
    /// row, and moves its smoke on. Returns whether the train is gone.
    pub fn render_sl(&mut self, env: &mut SmokeEnv, state: &State, x: i32) -> (done: bool)
        requires
            old(env)@.wf(),
            train_fits(State { train: Train::Logo, ..*state }, x as int),
            old(env)@.ready_at(x + LOGO_FUNNEL),
        ensures
            done == (x < -LOGO_LENGTH),
            final(self).rows == old(self).rows,
            final(self).cols == old(self).cols,
            final(env)@.wf(),
            done ==> final(self).canvas@ == old(self).canvas@ && final(env)@ == old(env)@,
            !done ==> final(env)@ == old(env)@.after(
                (train_top(*state, old(self).rows as int, old(self).cols as int, x as int, LOGO_HEIGHT as int, 6, 3) - 1) as i32,
                (x + LOGO_FUNNEL) as i32,
            ),
            !done ==> final(self).canvas@ == old(self).canvas@ + sl_spans(
                *state,
                old(self).rows as int,
                old(self).cols as int,
                x as int,
            ) + env_spans(
                old(env)@,
                train_top(*state, old(self).rows as int, old(self).cols as int, x as int, LOGO_HEIGHT as int, 6, 3) - 1,
                x + LOGO_FUNNEL,
                old(self).rows as int,
                old(self).cols as int,
            ),
    {
        if x < -LOGO_LENGTH {
            return true;
        }
        let ghost rows = self.rows as int;
        let ghost cols = self.cols as int;
        let ghost c0 = self.canvas@;
        let ptn = ((LOGO_LENGTH + x) / 3 % PATTERNS as i32) as usize;
        let body = logo_body();
        let wheels = logo_wheels(ptn);
        let sl = [body[0], body[1], body[2], body[3], wheels[0], wheels[1], logo_eraser()];
        let coal = logo_coal();
        let car = logo_car();
        assert(text_of(sl@) =~= sl_picture(logo_pattern(x as int)));
        let mut y = (self.rows as i32) / 2 - 3;
        let mut py1: i32 = 0;
        let mut py2: i32 = 0;
        let mut py3: i32 = 0;
        if state.fly {
            y = (x / 6) + (self.rows as i32) - (self.cols as i32 / 6) - LOGO_HEIGHT;
            py1 = 2;
            py2 = 4;
            py3 = 6;
        }
        let ghost top = train_top(*state, rows, cols, x as int, LOGO_HEIGHT as int, 6, 3);
        assert(y == top);
        let ghost la = Layer { top: top, left: x as int, lines: sl_picture(logo_pattern(x as int)) };
        let ghost lb = Layer { top: top + car_drop(*state, 1), left: x + 21, lines: logo_coal_text() };
        let ghost lc = Layer { top: top + car_drop(*state, 2), left: x + 42, lines: logo_car_text() };
        let ghost ld = Layer { top: top + car_drop(*state, 3), left: x + 63, lines: logo_car_text() };
        let mut i: i32 = 0;
        assert(c0 + Seq::<Span>::empty() =~= c0);
        assert(-1_000_000_000 <= y <= 1_000_000_000);
        while i <= LOGO_HEIGHT
            invariant
                0 <= i <= LOGO_HEIGHT + 1,
                y == top,
                -1_000_000_000 <= y <= 1_000_000_000,
                self.rows as int == rows,
                self.cols as int == cols,
                py1 == car_drop(*state, 1),
                py2 == car_drop(*state, 2),
                py3 == car_drop(*state, 3),
                fits_i32(LOGO_LENGTH + x),
                -LOGO_LENGTH <= x,
                text_of(sl@) == la.lines,
                text_of(coal@) == lb.lines,
                text_of(car@) == lc.lines,
                lc.lines == ld.lines,
                la == (Layer { top: top, left: x as int, lines: la.lines }),
                lb == (Layer { top: top + car_drop(*state, 1), left: x + 21, lines: lb.lines }),
                lc == (Layer { top: top + car_drop(*state, 2), left: x + 42, lines: lc.lines }),
                ld == (Layer { top: top + car_drop(*state, 3), left: x + 63, lines: ld.lines }),
                self.canvas@ == c0 + four_rows(Clip::Cells, la, lb, lc, ld, rows, cols, i as int),
            decreases LOGO_HEIGHT + 1 - i,
        {
            let k = i as usize;
            self.my_mvaddstr(y + i, x, sl[k]);
            self.my_mvaddstr(y + i + py1, x + 21, coal[k]);
            self.my_mvaddstr(y + i + py2, x + 42, car[k]);
            self.my_mvaddstr(y + i + py3, x + 63, car[k]);
            assert(sl@[i as int]@ == la.lines[i as int]);
            assert(coal@[i as int]@ == lb.lines[i as int]);
            assert(car@[i as int]@ == lc.lines[i as int]);
            i = i + 1;
        }
        let ghost c1 = self.canvas@;
        if state.accident {
            proof {
                crate::geometry::lemma_man_pose_alternates(LOGO_LENGTH + x + 14);
                crate::geometry::lemma_man_pose_alternates(LOGO_LENGTH + x + 45);
                crate::geometry::lemma_man_pose_alternates(LOGO_LENGTH + x + 53);
                crate::geometry::lemma_man_pose_alternates(LOGO_LENGTH + x + 66);
                crate::geometry::lemma_man_pose_alternates(LOGO_LENGTH + x + 74);
            }
            self.add_man(y + 1, x + 14);
            self.add_man(y + 1 + py2, x + 45);
            self.add_man(y + 1 + py2, x + 53);
            self.add_man(y + 1 + py3, x + 66);
            self.add_man(y + 1 + py3, x + 74);
            assert(self.canvas@ =~= c1 + sl_men_spans(*state, rows, cols, x as int));
        }
        assert(self.canvas@ =~= c0 + sl_spans(*state, rows, cols, x as int));
        env.add_smoke(self, y - 1, x + LOGO_FUNNEL);
        false
    }

    /// Draws the train the options choose at column `x` and moves its smoke
    /// on. Returns whether the train is still on its way.
    pub fn render_train(&mut self, env: &mut SmokeEnv, state: &State, x: i32) -> (visible: bool)
        requires
            old(env)@.wf(),
            train_fits(*state, x as int),
            old(env)@.ready_at(funnel_col(*state, x as int)),
        ensures
            visible == (x >= -train_length(*state)),
            final(self).rows == old(self).rows,
            final(self).cols == old(self).cols,
            final(env)@.wf(),
            !visible ==> final(self).canvas@ == old(self).canvas@ && final(env)@ == old(env)@,
            visible ==> final(env)@ == old(env)@.after(
                funnel_row(*state, old(self).rows as int, old(self).cols as int, x as int) as i32,
                funnel_col(*state, x as int) as i32,
            ),
            visible ==> final(self).canvas@ == old(self).canvas@ + train_spans(
                *state,
                old(self).rows as int,
                old(self).cols as int,
                x as int,
            ) + env_spans(
                old(env)@,
                funnel_row(*state, old(self).rows as int, old(self).cols as int, x as int),
                funnel_col(*state, x as int),
                old(self).rows as int,
                old(self).cols as int,
            ),
    {
        let done = match state.train {
            Train::Logo => self.render_sl(env, state, x),
            Train::C51 => self.render_c51(env, state, x),
            Train::D51 => self.render_d51(env, state, x),
        };
        !done
    }

}

/// Moving the puffs never draws outside the screen.
proof fn lemma_smokes_spans_on_screen(ps: Seq<Smoke>, rows: int, cols: int)
    ensures
        all_on_screen(smokes_spans(ps, rows, cols), rows, cols),
    decreases ps.len(),
{
    broadcast use group_on_screen;

    if ps.len() > 0 {
        lemma_smokes_spans_on_screen(ps.drop_last(), rows, cols);
    }
}

/// A whole frame, the chosen train and its smoke, lies on the screen:
/// nothing is ever drawn outside the terminal.
pub proof fn lemma_frame_on_screen(cfg: State, s: EnvState, rows: int, cols: int, x: int)
    ensures
        all_on_screen(
            train_spans(cfg, rows, cols, x) + env_spans(
                s,
                funnel_row(cfg, rows, cols, x),
                funnel_col(cfg, x),
                rows,
                cols,
            ),
            rows,
            cols,
        ),
{
    broadcast use group_on_screen;

    lemma_smokes_spans_on_screen(s.smokes, rows, cols);
    assert(all_on_screen(train_spans(cfg, rows, cols, x), rows, cols));
}

/// Moving a puff erases it: the cells its old shape covered are blanked,
/// and its new shape is drawn over them; nothing else is painted.
pub proof fn lemma_smoke_move_erases(s: Smoke, rows: int, cols: int)
    requires
        s.ptrn < SMOKE_FRAMES,
        s.kind < 2,
    ensures
        picture(smoke_spans(s, rows, cols)) == blanked(
            visible_cells(s.y as int, s.x as int, smoke_text(s.kind as int)[s.ptrn as int], rows, cols),
        ).union_prefer_right(
            visible_cells(
                smoke_moved(s).y as int,
                smoke_moved(s).x as int,
                smoke_text(s.kind as int)[smoke_moved(s).ptrn as int],
                rows,
                cols,
            ),
        ),
{
    let m = smoke_moved(s);
    let erase = glyph_spans(s.y as int, s.x as int, smoke_eraser_text()[s.ptrn as int], rows, cols);
    let draw = glyph_spans(m.y as int, m.x as int, smoke_text(m.kind as int)[m.ptrn as int], rows, cols);
    lemma_eraser_fits_smoke(s.kind as int, s.ptrn as int);
    lemma_picture_append(erase, draw);
    lemma_glyph_spans_paint_visible_cells(s.y as int, s.x as int, smoke_eraser_text()[s.ptrn as int], rows, cols);
    lemma_glyph_spans_paint_visible_cells(m.y as int, m.x as int, smoke_text(m.kind as int)[m.ptrn as int], rows, cols);
    assert(visible_cells(s.y as int, s.x as int, smoke_eraser_text()[s.ptrn as int], rows, cols) =~= blanked(
        visible_cells(s.y as int, s.x as int, smoke_text(s.kind as int)[s.ptrn as int], rows, cols),
    ));
}

/// Moving the puffs of `a` and then those of `b` draws what moving each
/// list draws, one after the other.
proof fn lemma_smokes_spans_append(a: Seq<Smoke>, b: Seq<Smoke>, rows: int, cols: int)
    ensures
        smokes_spans(a + b, rows, cols) == smokes_spans(a, rows, cols) + smokes_spans(b, rows, cols),
    decreases b.len(),
{
    if b.len() == 0 {
        assert(a + b =~= a);
        assert(smokes_spans(a, rows, cols) + smokes_spans(b, rows, cols) =~= smokes_spans(a, rows, cols));
    } else {
        lemma_smokes_spans_append(a, b.drop_last(), rows, cols);
        assert((a + b).drop_last() =~= a + b.drop_last());
        assert((a + b).last() == b.last());
        assert(smokes_spans(a + b, rows, cols) =~= smokes_spans(a, rows, cols) + smokes_spans(b, rows, cols));
    }
}

/// When the smoke moves, no puff leaves a trail: every cell of the screen
/// that puff `i` covered before the move is painted again in the frame,
/// and shows a blank unless something drawn after the blanks covers it:
/// the puff's own new shape, a later puff, or the new puff at the funnel.
pub proof fn lemma_old_puffs_erased(
    e: EnvState,
    y: int,
    x: int,
    rows: int,
    cols: int,
    i: int,
    p: (int, int),
)
    requires
        e.wf(),
        x % 4 == 0,
        0 <= i < e.smokes.len(),
        visible_cells(
            e.smokes[i].y as int,
            e.smokes[i].x as int,
            smoke_text(e.smokes[i].kind as int)[e.smokes[i].ptrn as int],
            rows,
            cols,
        ).contains_key(p),
    ensures
        picture(env_spans(e, y, x, rows, cols)).contains_key(p),
        ({
            let m = smoke_moved(e.smokes[i]);
            let later = glyph_spans(m.y as int, m.x as int, smoke_text(m.kind as int)[m.ptrn as int], rows, cols)
                + smokes_spans(e.smokes.skip(i + 1), rows, cols) + glyph_spans(
                y,
                x,
                smoke_text((e.smoke_count % 2) as int)[0],
                rows,
                cols,
            );
            picture(env_spans(e, y, x, rows, cols))[p] == ' ' || picture(later).contains_key(p)
        }),
{
    let s = e.smokes[i];
    let m = smoke_moved(s);
    assert(s.ptrn < SMOKE_FRAMES && s.kind == i % 2);
    lemma_eraser_fits_smoke(s.kind as int, s.ptrn as int);
    let erase = glyph_spans(s.y as int, s.x as int, smoke_eraser_text()[s.ptrn as int], rows, cols);
    let draw = glyph_spans(m.y as int, m.x as int, smoke_text(m.kind as int)[m.ptrn as int], rows, cols);
    let front = smokes_spans(e.smokes.take(i), rows, cols);
    let back = smokes_spans(e.smokes.skip(i + 1), rows, cols);
    let fresh = glyph_spans(y, x, smoke_text((e.smoke_count % 2) as int)[0], rows, cols);
    lemma_glyph_spans_paint_visible_cells(s.y as int, s.x as int, smoke_eraser_text()[s.ptrn as int], rows, cols);
    assert(picture(erase).contains_key(p));
    assert(picture(erase)[p] == ' ');
    lemma_smokes_spans_append(e.smokes.take(i), e.smokes.skip(i), rows, cols);
    assert(e.smokes.take(i) + e.smokes.skip(i) =~= e.smokes);
    lemma_smokes_spans_append(seq![s], e.smokes.skip(i + 1), rows, cols);
    assert(seq![s] + e.smokes.skip(i + 1) =~= e.smokes.skip(i));
    assert(seq![s].drop_last() =~= Seq::<Smoke>::empty());
    assert(seq![s].last() == s);
    assert(smokes_spans(seq![s].drop_last(), rows, cols) == Seq::<Span>::empty());
    assert(smokes_spans(seq![s], rows, cols) == smokes_spans(seq![s].drop_last(), rows, cols) + smoke_spans(s, rows, cols));
    assert(smokes_spans(seq![s], rows, cols) =~= erase + draw);
    let later = draw + back + fresh;
    assert(env_spans(e, y, x, rows, cols) =~= front + erase + later);
    lemma_picture_cell(front, erase, p);
    lemma_picture_cell(front + erase, later, p);
}

/// What a person on board paints: only the row given and the one under it,
/// from the column given on.
proof fn lemma_man_spans_footprint(y: int, x: int, rows: int, cols: int, p: (int, int))
    requires
        picture(man_spans(y, x, rows, cols)).contains_key(p),
    ensures
        p.0 == y || p.0 == y + 1,
        x <= p.1,
{
    let pm = man_pose(LOGO_LENGTH + x);
    lemma_glyph_spans_paint_visible_cells(y, x, man_text(pm)[0], rows, cols);
    lemma_glyph_spans_paint_visible_cells(y + 1, x, man_text(pm)[1], rows, cols);
    lemma_picture_cell(
        glyph_spans(y, x, man_text(pm)[0], rows, cols),
        glyph_spans(y + 1, x, man_text(pm)[1], rows, cols),
        p,
    );
}

/// The wheels of the D51 turn as it moves: at column `x` the three rows
/// under its seven-row body show wheel pattern `(83 + x) % 6`, which steps
/// on by one with every column and comes back every six.
pub proof fn lemma_d51_wheels_turn(st: State, rows: int, cols: int, x: int, j: int, c: int)
    requires
        0 <= j < 3,
        x <= c < x + 53,
        0 <= c < cols,
        0 <= train_top(st, rows, cols, x, D51_HEIGHT as int, 7, 5) + 7 + j < rows,
    ensures
        picture(d51_spans(st, rows, cols, x)).contains_key(
            (train_top(st, rows, cols, x, D51_HEIGHT as int, 7, 5) + 7 + j, c),
        ),
        picture(d51_spans(st, rows, cols, x))[(
            train_top(st, rows, cols, x, D51_HEIGHT as int, 7, 5) + 7 + j,
            c,
        )] == d51_wheels_text((D51_LENGTH + x) % 6)[j][c - x],
{
    let y = train_top(st, rows, cols, x, D51_HEIGHT as int, 7, 5);
    let dy = if st.fly {
        1int
    } else {
        0
    };
    let p = (y + 7 + j, c);
    lemma_d51_shape();
    let body = glyph_lines(y, x, d51_body_text(), rows, cols);
    let wheels = glyph_lines(y + 7, x, d51_wheels_text(d51_pattern(x)), rows, cols);
    let eraser = glyph_spans(y + 10, x, wheels_eraser_text(), rows, cols);
    let coal = glyph_lines(y + dy, x + 53, d51_coal_text(), rows, cols);
    lemma_glyph_lines_cell(y + 7, x, d51_wheels_text(d51_pattern(x)), rows, cols, j, c);
    lemma_glyph_spans_paint_visible_cells(y + 10, x, wheels_eraser_text(), rows, cols);
    if picture(coal).contains_key(p) {
        lemma_glyph_lines_footprint(y + dy, x + 53, d51_coal_text(), rows, cols, p);
    }
    lemma_picture_cell(body, wheels, p);
    lemma_picture_cell(body + wheels, eraser, p);
    lemma_picture_cell(body + wheels + eraser, coal, p);
    let front = body + wheels + eraser + coal;
    if st.accident {
        let m1 = man_spans(y + 2, x + 43, rows, cols);
        let m2 = man_spans(y + 2, x + 47, rows, cols);
        if picture(m1).contains_key(p) {
            lemma_man_spans_footprint(y + 2, x + 43, rows, cols, p);
        }
        if picture(m2).contains_key(p) {
            lemma_man_spans_footprint(y + 2, x + 47, rows, cols, p);
        }
        lemma_picture_cell(m1, m2, p);
        lemma_picture_cell(front, m1 + m2, p);
        assert(d51_spans(st, rows, cols, x) == front + (m1 + m2));
    } else {
        lemma_picture_cell(front, Seq::<Span>::empty(), p);
        assert(d51_spans(st, rows, cols, x) == front + Seq::<Span>::empty());
    }
}

/// With an accident the small SL train carries five people crying for
/// help, one on the locomotive and two on each passenger car, drawn after
/// the train: the frame is the one without the accident followed by them.
pub proof fn lemma_sl_accident_adds_people(st: State, rows: int, cols: int, x: int)
    ensures
        ({
            let y = train_top(st, rows, cols, x, LOGO_HEIGHT as int, 6, 3);
            let y2 = y + 1 + if st.fly {
                4int
            } else {
                0
            };
            let y3 = y + 1 + if st.fly {
                6int
            } else {
                0
            };
            sl_spans(State { accident: true, ..st }, rows, cols, x) == sl_spans(
                State { accident: false, ..st },
                rows,
                cols,
                x,
            ) + man_spans(y + 1, x + 14, rows, cols) + man_spans(y2, x + 45, rows, cols)
                + man_spans(y2, x + 53, rows, cols) + man_spans(y3, x + 66, rows, cols)
                + man_spans(y3, x + 74, rows, cols)
        }),
{
    let on = State { accident: true, ..st };
    let off = State { accident: false, ..st };
    assert(sl_spans(off, rows, cols, x) + Seq::<Span>::empty() =~= sl_spans(off, rows, cols, x));
    assert(sl_spans(on, rows, cols, x) =~= sl_spans(off, rows, cols, x) + sl_men_spans(on, rows, cols, x));
}

/// With an accident two people on the D51 cry for help, drawn after the
/// train, two rows under its top and 43 and 47 columns from its left
/// edge: the frame is the one without the accident followed by them.
pub proof fn lemma_d51_accident_adds_people(st: State, rows: int, cols: int, x: int)
    ensures
        ({
            let y = train_top(st, rows, cols, x, D51_HEIGHT as int, 7, 5);
            d51_spans(State { accident: true, ..st }, rows, cols, x) == d51_spans(
                State { accident: false, ..st },
                rows,
                cols,
                x,
            ) + man_spans(y + 2, x + 43, rows, cols) + man_spans(y + 2, x + 47, rows, cols)
        }),
{
    let off = State { accident: false, ..st };
    assert(d51_spans(off, rows, cols, x) + Seq::<Span>::empty() =~= d51_spans(off, rows, cols, x));
}

/// With an accident two people on the C51 cry for help, drawn after the
/// train, three rows under its top and 45 and 49 columns from its left
/// edge: the frame is the one without the accident followed by them.
pub proof fn lemma_c51_accident_adds_people(st: State, rows: int, cols: int, x: int)
    ensures
        ({
            let y = train_top(st, rows, cols, x, C51_HEIGHT as int, 7, 5);
            c51_spans(State { accident: true, ..st }, rows, cols, x) == c51_spans(
                State { accident: false, ..st },
                rows,
                cols,
                x,
            ) + man_spans(y + 3, x + 45, rows, cols) + man_spans(y + 3, x + 49, rows, cols)
        }),
{
    let off = State { accident: false, ..st };
    assert(c51_spans(off, rows, cols, x) + Seq::<Span>::empty() =~= c51_spans(off, rows, cols, x));
}

/// The wheels of the small SL locomotive turn as it moves: at column `x`
/// the two rows under its four-row body show wheel pattern
/// `((84 + x) / 3) % 6`, which steps on every third column.
pub proof fn lemma_sl_wheels_turn(st: State, rows: int, cols: int, x: int, j: int, c: int)
    requires
        0 <= cols,
        0 <= j < 2,
        x <= c < x + 21,
        0 <= c < cols,
        0 <= train_top(st, rows, cols, x, LOGO_HEIGHT as int, 6, 3) + 4 + j < rows,
    ensures
        picture(sl_spans(st, rows, cols, x)).contains_key(
            (train_top(st, rows, cols, x, LOGO_HEIGHT as int, 6, 3) + 4 + j, c),
        ),
        picture(sl_spans(st, rows, cols, x))[(
            train_top(st, rows, cols, x, LOGO_HEIGHT as int, 6, 3) + 4 + j,
            c,
        )] == logo_wheels_text(((LOGO_LENGTH + x) / 3) % 6)[j][c - x],
{
    let y = train_top(st, rows, cols, x, LOGO_HEIGHT as int, 6, 3);
    let p = (y + 4 + j, c);
    let la = Layer { top: y, left: x, lines: sl_picture(logo_pattern(x)) };
    let lb = Layer { top: y + car_drop(st, 1), left: x + 21, lines: logo_coal_text() };
    let lc = Layer { top: y + car_drop(st, 2), left: x + 42, lines: logo_car_text() };
    let ld = Layer { top: y + car_drop(st, 3), left: x + 63, lines: logo_car_text() };
    lemma_logo_shape();
    assert(la.lines[4 + j] == logo_wheels_text(logo_pattern(x))[j]);
    lemma_four_rows_first_layer(Clip::Cells, la, lb, lc, ld, rows, cols, 7, 4 + j, c);
    let rest = four_rows(Clip::Cells, la, lb, lc, ld, rows, cols, 7);
    if st.accident {
        let y2 = y + 1 + car_drop(st, 2);
        let y3 = y + 1 + car_drop(st, 3);
        let m1 = man_spans(y + 1, x + 14, rows, cols);
        let m2 = man_spans(y2, x + 45, rows, cols);
        let m3 = man_spans(y2, x + 53, rows, cols);
        let m4 = man_spans(y3, x + 66, rows, cols);
        let m5 = man_spans(y3, x + 74, rows, cols);
        if picture(m1).contains_key(p) {
            lemma_man_spans_footprint(y + 1, x + 14, rows, cols, p);
        }
        if picture(m2).contains_key(p) {
            lemma_man_spans_footprint(y2, x + 45, rows, cols, p);
        }
        if picture(m3).contains_key(p) {
            lemma_man_spans_footprint(y2, x + 53, rows, cols, p);
        }
        if picture(m4).contains_key(p) {
            lemma_man_spans_footprint(y3, x + 66, rows, cols, p);
        }
        if picture(m5).contains_key(p) {
            lemma_man_spans_footprint(y3, x + 74, rows, cols, p);
        }
        lemma_picture_cell(m1, m2, p);
        lemma_picture_cell(m1 + m2, m3, p);
        lemma_picture_cell(m1 + m2 + m3, m4, p);
        lemma_picture_cell(m1 + m2 + m3 + m4, m5, p);
        let men = m1 + m2 + m3 + m4 + m5;
        lemma_picture_cell(rest, men, p);
        assert(sl_men_spans(st, rows, cols, x) == men);
        assert(sl_spans(st, rows, cols, x) == rest + men);
    } else {
        lemma_picture_cell(rest, Seq::<Span>::empty(), p);
        assert(sl_spans(st, rows, cols, x) == rest + Seq::<Span>::empty());
    }
}

/// The wheels of the C51 turn as it moves: at column `x` the four rows
/// under its seven-row body show wheel pattern `(87 + x) % 6`, which steps
/// on by one with every column and comes back every six.
pub proof fn lemma_c51_wheels_turn(st: State, rows: int, cols: int, x: int, j: int, c: int)
    requires
        0 <= cols,
        0 <= j < 4,
        x <= c < x + 55,
        0 <= c < cols,
        0 <= train_top(st, rows, cols, x, C51_HEIGHT as int, 7, 5) + 7 + j < rows,
    ensures
        picture(c51_spans(st, rows, cols, x)).contains_key((train_top(st, rows, cols, x, C51_HEIGHT as int, 7, 5) + 7 + j, c)),
        picture(c51_spans(st, rows, cols, x))[(train_top(st, rows, cols, x, C51_HEIGHT as int, 7, 5) + 7 + j, c)]
            == c51_wheels_text((C51_LENGTH + x) % 6)[j][c - x],
{
    let y = train_top(st, rows, cols, x, C51_HEIGHT as int, 7, 5);
    let dy = if st.fly {
        1int
    } else {
        0
    };
    let p = (y + 7 + j, c);
    lemma_c51_shape();
    let body = glyph_lines(y, x, c51_body_text(), rows, cols);
    let wheels = glyph_lines(y + 7, x, c51_wheels_text(c51_pattern(x)), rows, cols);
    let eraser = glyph_spans(y + 11, x, wheels_eraser_text(), rows, cols);
    let coal = glyph_lines(y + dy, x + 55, c51_coal_text(), rows, cols);
    lemma_glyph_lines_cell(y + 7, x, c51_wheels_text(c51_pattern(x)), rows, cols, j, c);
    lemma_glyph_spans_paint_visible_cells(y + 11, x, wheels_eraser_text(), rows, cols);
    if picture(coal).contains_key(p) {
        lemma_glyph_lines_footprint(y + dy, x + 55, c51_coal_text(), rows, cols, p);
    }
    lemma_picture_cell(body, wheels, p);
    lemma_picture_cell(body + wheels, eraser, p);
    lemma_picture_cell(body + wheels + eraser, coal, p);
    let front = body + wheels + eraser + coal;
    if st.accident {
        let m1 = man_spans(y + 3, x + 45, rows, cols);
        let m2 = man_spans(y + 3, x + 49, rows, cols);
        if picture(m1).contains_key(p) {
            lemma_man_spans_footprint(y + 3, x + 45, rows, cols, p);
        }
        if picture(m2).contains_key(p) {
            lemma_man_spans_footprint(y + 3, x + 49, rows, cols, p);
        }
        lemma_picture_cell(m1, m2, p);
        lemma_picture_cell(front, m1 + m2, p);
        assert(c51_spans(st, rows, cols, x) == front + (m1 + m2));
    } else {
        lemma_picture_cell(front, Seq::<Span>::empty(), p);
        assert(c51_spans(st, rows, cols, x) == front + Seq::<Span>::empty());
    }
}

} // verus!
