//! The screen model shared by every renderer: what a frame asks the
//! terminal to print, which cells of the terminal that paints, and the two
//! clipping strategies used by the renderers (one run of text per line, or
//! one cell per character).
use vstd::prelude::*;

verus! {

/// A run of characters placed on the screen, starting at `row`, `col` and
/// running to the right.
pub struct Span {
    pub row: int,
    pub col: int,
    pub text: Seq<char>,
}

/// One piece of text that the terminal is asked to print at a position.
pub struct Draw {
    pub row: u16,
    pub col: u16,
    pub text: String,
}

impl View for Draw {
    type V = Span;

    open spec fn view(&self) -> Span {
        Span { row: self.row as int, col: self.col as int, text: self.text@ }
    }
}

/// The spans that a list of draws stands for, in order.
pub open spec fn spans_of(draws: Seq<Draw>) -> Seq<Span> {
    draws.map_values(|d: Draw| d@)
}

/// The draws of one frame, in the order in which they are printed.
pub struct Canvas {
    draws: Vec<Draw>,
}

impl View for Canvas {
    type V = Seq<Span>;

    closed spec fn view(&self) -> Seq<Span> {
        spans_of(self.draws@)
    }
}

impl Canvas {
    /// An empty frame.
    pub fn new() -> (c: Canvas)
        ensures
            c@ == Seq::<Span>::empty(),
    {
        let c = Canvas { draws: Vec::new() };
        assert(c@ =~= Seq::<Span>::empty());
        c
    }

    /// The number of draws queued so far.
    pub fn len(&self) -> (n: usize)
        ensures
            n == self@.len(),
    {
        self.draws.len()
    }

    /// Queues `text` at row `row`, column `col`.
    pub fn put(&mut self, row: u16, col: u16, text: String)
        ensures
            final(self)@ == old(self)@.push(Span { row: row as int, col: col as int, text: text@ }),
    {
        let ghost before = self.draws@;
        let d = Draw { row, col, text };
        self.draws.push(d);
        assert(spans_of(self.draws@) =~= spans_of(before).push(d@));
    }

    /// Hands out the queued draws, in order, and leaves the frame empty.
    pub fn take(&mut self) -> (draws: Vec<Draw>)
        ensures
            spans_of(draws@) == old(self)@,
            final(self)@ == Seq::<Span>::empty(),
    {
        let mut out: Vec<Draw> = Vec::new();
        std::mem::swap(&mut out, &mut self.draws);
        assert(spans_of(self.draws@) =~= Seq::<Span>::empty());
        out
    }
}

/// A span is on a `rows` x `cols` screen: it is not empty and every cell
/// it covers lies on the screen.
pub open spec fn is_on_screen(sp: Span, rows: int, cols: int) -> bool {
    &&& 0 <= sp.row < rows
    &&& 0 <= sp.col
    &&& sp.col + sp.text.len() <= cols
    &&& sp.text.len() > 0
}

/// Every span of `spans` is on the screen.
pub open spec fn all_on_screen(spans: Seq<Span>, rows: int, cols: int) -> bool {
    forall|i: int| 0 <= i < spans.len() ==> #[trigger] is_on_screen(spans[i], rows, cols)
}

/// The index of the first character of a text placed at column `x` that
/// falls on the screen.
pub open spec fn visible_start(x: int) -> int {
    if x < 0 {
        -x
    } else {
        0
    }
}

/// One past the index of the last character of a text of length `len`
/// placed at column `x` that falls on a screen `cols` wide.
pub open spec fn visible_end(x: int, len: int, cols: int) -> int {
    if len <= cols - x {
        len
    } else {
        cols - x
    }
}

/// Clipping by runs: the text `s` placed at row `y`, column `x` becomes at
/// most one span, the part of `s` that falls on the screen.
#[verifier::opaque]
pub open spec fn text_span(y: int, x: int, s: Seq<char>, rows: int, cols: int) -> Seq<Span> {
    let start = visible_start(x);
    let end = visible_end(x, s.len() as int, cols);
    if 0 <= y < rows && start < end {
        seq![Span { row: y, col: x + start, text: s.subrange(start, end) }]
    } else {
        Seq::empty()
    }
}

/// The one-cell span of character `ch` at row `y`, column `c`, when that
/// column is on the screen.
pub open spec fn glyph_at(y: int, c: int, ch: char, cols: int) -> Seq<Span> {
    if 0 <= c < cols {
        seq![Span { row: y, col: c, text: seq![ch] }]
    } else {
        Seq::empty()
    }
}

/// Clipping by cells, for the first `n` characters of `s`.
#[verifier::opaque]
pub open spec fn glyph_prefix(y: int, x: int, s: Seq<char>, rows: int, cols: int, n: int) -> Seq<
    Span,
>
    decreases n,
{
    if n <= 0 || !(0 <= y < rows) {
        Seq::empty()
    } else {
        glyph_prefix(y, x, s, rows, cols, n - 1) + glyph_at(y, x + n - 1, s[n - 1], cols)
    }
}

/// Clipping by cells: the text `s` placed at row `y`, column `x` becomes
/// one span per character that falls on the screen, from left to right.
#[verifier::opaque]
pub open spec fn glyph_spans(y: int, x: int, s: Seq<char>, rows: int, cols: int) -> Seq<Span> {
    glyph_prefix(y, x, s, rows, cols, s.len() as int)
}

/// Clipping by runs of a picture: line `i` of `lines` is placed at row
/// `y + i`, column `x`.
#[verifier::opaque]
pub open spec fn text_lines(y: int, x: int, lines: Seq<Seq<char>>, rows: int, cols: int) -> Seq<
    Span,
>
    decreases lines.len(),
{
    if lines.len() == 0 {
        Seq::empty()
    } else {
        text_lines(y, x, lines.drop_last(), rows, cols) + text_span(
            y + lines.len() - 1,
            x,
            lines.last(),
            rows,
            cols,
        )
    }
}

/// Clipping by cells of a picture: line `i` of `lines` is placed at row
/// `y + i`, column `x`.
#[verifier::opaque]
pub open spec fn glyph_lines(y: int, x: int, lines: Seq<Seq<char>>, rows: int, cols: int) -> Seq<
    Span,
>
    decreases lines.len(),
{
    if lines.len() == 0 {
        Seq::empty()
    } else {
        glyph_lines(y, x, lines.drop_last(), rows, cols) + glyph_spans(
            y + lines.len() - 1,
            x,
            lines.last(),
            rows,
            cols,
        )
    }
}

/// The two ways the renderers clip text to the screen.
pub enum Clip {
    /// One span per line: the visible part of the text.
    Runs,
    /// One span per visible character.
    Cells,
}

/// Clipping of the text `s` placed at row `y`, column `x`, the one way or
/// the other.
pub open spec fn clip(how: Clip, y: int, x: int, s: Seq<char>, rows: int, cols: int) -> Seq<Span> {
    match how {
        Clip::Runs => text_span(y, x, s, rows, cols),
        Clip::Cells => glyph_spans(y, x, s, rows, cols),
    }
}

/// A picture placed with its top-left corner at row `top`, column `left`.
pub struct Layer {
    pub top: int,
    pub left: int,
    pub lines: Seq<Seq<char>>,
}

/// What line `i` of a placed picture draws.
pub open spec fn layer_row(how: Clip, l: Layer, i: int, rows: int, cols: int) -> Seq<Span> {
    clip(how, l.top + i, l.left, l.lines[i], rows, cols)
}

/// Two pictures drawn row by row, line `i` of the first, then line `i` of
/// the second, for the first `n` rows.
pub open spec fn paired_rows(how: Clip, a: Layer, b: Layer, rows: int, cols: int, n: int) -> Seq<
    Span,
>
    decreases n,
{
    if n <= 0 {
        Seq::empty()
    } else {
        paired_rows(how, a, b, rows, cols, n - 1) + layer_row(how, a, n - 1, rows, cols)
            + layer_row(how, b, n - 1, rows, cols)
    }
}

/// Four pictures drawn row by row, line `i` of each in turn, for the first
/// `n` rows.
pub open spec fn four_rows(
    how: Clip,
    a: Layer,
    b: Layer,
    c: Layer,
    d: Layer,
    rows: int,
    cols: int,
    n: int,
) -> Seq<Span>
    decreases n,
{
    if n <= 0 {
        Seq::empty()
    } else {
        four_rows(how, a, b, c, d, rows, cols, n - 1) + layer_row(how, a, n - 1, rows, cols)
            + layer_row(how, b, n - 1, rows, cols) + layer_row(how, c, n - 1, rows, cols)
            + layer_row(how, d, n - 1, rows, cols)
    }
}

/// The cells that one span paints, with the character each one shows.
pub open spec fn span_cells(sp: Span) -> Map<(int, int), char> {
    Map::new(
        |p: (int, int)| p.0 == sp.row && sp.col <= p.1 < sp.col + sp.text.len(),
        |p: (int, int)| sp.text[p.1 - sp.col],
    )
}

/// What a sequence of spans leaves on the screen when printed in order:
/// a later span paints over an earlier one.
pub open spec fn picture(spans: Seq<Span>) -> Map<(int, int), char>
    decreases spans.len(),
{
    if spans.len() == 0 {
        Map::empty()
    } else {
        picture(spans.drop_last()).union_prefer_right(span_cells(spans.last()))
    }
}

/// The cells of a `rows` x `cols` screen that the text `s` covers when it
/// is placed at row `y`, column `x`, with the character each one shows.
pub open spec fn visible_cells(y: int, x: int, s: Seq<char>, rows: int, cols: int) -> Map<
    (int, int),
    char,
> {
    Map::new(
        |p: (int, int)| p.0 == y && 0 <= y < rows && 0 <= p.1 < cols && x <= p.1 < x + s.len(),
        |p: (int, int)| s[p.1 - x],
    )
}

/// The cells covered by the first `n` characters of `s`.
pub open spec fn visible_prefix_cells(y: int, x: int, s: Seq<char>, rows: int, cols: int, n: int) -> Map<
    (int, int),
    char,
> {
    Map::new(
        |p: (int, int)| p.0 == y && 0 <= y < rows && 0 <= p.1 < cols && x <= p.1 < x + n,
        |p: (int, int)| s[p.1 - x],
    )
}

/// Printing two lists of spans one after the other leaves the picture of
/// the first painted over by the picture of the second.
pub proof fn lemma_picture_append(a: Seq<Span>, b: Seq<Span>)
    ensures
        picture(a + b) == picture(a).union_prefer_right(picture(b)),
    decreases b.len(),
{
    reveal(text_span);
    reveal(glyph_prefix);
    reveal(glyph_spans);
    reveal(text_lines);
    reveal(glyph_lines);
    if b.len() == 0 {
        assert(a + b =~= a);
        assert(picture(a).union_prefer_right(picture(b)) =~= picture(a));
    } else {
        lemma_picture_append(a, b.drop_last());
        assert((a + b).drop_last() =~= a + b.drop_last());
        assert((a + b).last() == b.last());
        assert(picture(a + b) =~= picture(a).union_prefer_right(picture(b)));
    }
}

/// Clipping by runs paints exactly the cells of the screen that the text
/// covers, each with the right character, and nothing else.
pub proof fn lemma_text_span_paints_visible_cells(
    y: int,
    x: int,
    s: Seq<char>,
    rows: int,
    cols: int,
)
    requires
        0 <= cols,
    ensures
        picture(text_span(y, x, s, rows, cols)) == visible_cells(y, x, s, rows, cols),
{
    reveal(text_span);
    reveal(glyph_prefix);
    reveal(glyph_spans);
    reveal(text_lines);
    reveal(glyph_lines);
    let spans = text_span(y, x, s, rows, cols);
    if spans.len() == 0 {
        assert(picture(spans) =~= visible_cells(y, x, s, rows, cols));
    } else {
        assert(spans.drop_last() =~= Seq::<Span>::empty());
        assert(picture(spans.drop_last()) == Map::<(int, int), char>::empty());
        assert(picture(spans) =~= visible_cells(y, x, s, rows, cols));
    }
}

/// Clipping by cells paints exactly the cells covered by the first `n`
/// characters.
proof fn lemma_glyph_prefix_cells(y: int, x: int, s: Seq<char>, rows: int, cols: int, n: int)
    requires
        0 <= n <= s.len(),
    ensures
        picture(glyph_prefix(y, x, s, rows, cols, n)) == visible_prefix_cells(
            y,
            x,
            s,
            rows,
            cols,
            n,
        ),
    decreases n,
{
    reveal(text_span);
    reveal(glyph_prefix);
    reveal(glyph_spans);
    reveal(text_lines);
    reveal(glyph_lines);
    if n == 0 || !(0 <= y < rows) {
        assert(picture(glyph_prefix(y, x, s, rows, cols, n)) =~= visible_prefix_cells(
            y,
            x,
            s,
            rows,
            cols,
            n,
        ));
    } else {
        lemma_glyph_prefix_cells(y, x, s, rows, cols, n - 1);
        let g = glyph_at(y, x + n - 1, s[n - 1], cols);
        lemma_picture_append(glyph_prefix(y, x, s, rows, cols, n - 1), g);
        let target = Map::new(
            |p: (int, int)| p.0 == y && 0 <= p.1 < cols && p.1 == x + n - 1,
            |p: (int, int)| s[p.1 - x],
        );
        if 0 <= x + n - 1 < cols {
            assert(g.drop_last() =~= Seq::<Span>::empty());
            assert(picture(g.drop_last()) == Map::<(int, int), char>::empty());
            assert(picture(g) =~= target);
        } else {
            assert(g =~= Seq::<Span>::empty());
            assert(picture(g) =~= target);
        }
        assert(picture(g) =~= Map::new(
            |p: (int, int)| p.0 == y && 0 <= p.1 < cols && p.1 == x + n - 1,
            |p: (int, int)| s[p.1 - x],
        ));
        assert(picture(glyph_prefix(y, x, s, rows, cols, n)) =~= visible_prefix_cells(
            y,
            x,
            s,
            rows,
            cols,
            n,
        ));
    }
}

/// Clipping by cells paints exactly the same cells as clipping by runs:
/// the cells of the screen that the text covers, and nothing else.
pub proof fn lemma_glyph_spans_paint_visible_cells(
    y: int,
    x: int,
    s: Seq<char>,
    rows: int,
    cols: int,
)
    ensures
        picture(glyph_spans(y, x, s, rows, cols)) == visible_cells(y, x, s, rows, cols),
{
    reveal(text_span);
    reveal(glyph_prefix);
    reveal(glyph_spans);
    reveal(text_lines);
    reveal(glyph_lines);
    lemma_glyph_prefix_cells(y, x, s, rows, cols, s.len() as int);
    assert(visible_prefix_cells(y, x, s, rows, cols, s.len() as int) =~= visible_cells(
        y,
        x,
        s,
        rows,
        cols,
    ));
}

/// The same cells as `cells`, each showing a blank.
pub open spec fn blanked(cells: Map<(int, int), char>) -> Map<(int, int), char> {
    Map::new(|p: (int, int)| cells.contains_key(p), |p: (int, int)| ' ')
}

/// Either way of clipping paints exactly the cells of the screen that the
/// text covers, each with the right character.
pub proof fn lemma_clip_paints_visible_cells(
    how: Clip,
    y: int,
    x: int,
    s: Seq<char>,
    rows: int,
    cols: int,
)
    requires
        0 <= cols,
    ensures
        picture(clip(how, y, x, s, rows, cols)) == visible_cells(y, x, s, rows, cols),
{
    match how {
        Clip::Runs => lemma_text_span_paints_visible_cells(y, x, s, rows, cols),
        Clip::Cells => lemma_glyph_spans_paint_visible_cells(y, x, s, rows, cols),
    }
}

/// A cell that the later spans do not paint keeps what the earlier ones
/// left there; one that they paint shows what they left there.
pub proof fn lemma_picture_cell(a: Seq<Span>, b: Seq<Span>, p: (int, int))
    ensures
        picture(b).contains_key(p) ==> picture(a + b).contains_key(p) && picture(a + b)[p]
            == picture(b)[p],
        !picture(b).contains_key(p) ==> (picture(a + b).contains_key(p) <==> picture(
            a,
        ).contains_key(p)),
        !picture(b).contains_key(p) && picture(a).contains_key(p) ==> picture(a + b)[p]
            == picture(a)[p],
{
    lemma_picture_append(a, b);
}

/// A picture clipped by runs paints only the rows of its lines, from its
/// left column on.
pub proof fn lemma_text_lines_footprint(
    y: int,
    x: int,
    lines: Seq<Seq<char>>,
    rows: int,
    cols: int,
    p: (int, int),
)
    requires
        0 <= cols,
        picture(text_lines(y, x, lines, rows, cols)).contains_key(p),
    ensures
        y <= p.0 < y + lines.len(),
        x <= p.1,
    decreases lines.len(),
{
    reveal(text_lines);
    if lines.len() > 0 {
        let last = text_span(y + lines.len() - 1, x, lines.last(), rows, cols);
        lemma_text_span_paints_visible_cells(y + lines.len() - 1, x, lines.last(), rows, cols);
        lemma_picture_cell(text_lines(y, x, lines.drop_last(), rows, cols), last, p);
        if !picture(last).contains_key(p) {
            lemma_text_lines_footprint(y, x, lines.drop_last(), rows, cols, p);
        }
    }
}

/// Line `i` of a picture clipped by runs shows on its row wherever it
/// falls on the screen.
pub proof fn lemma_text_lines_cell(
    y: int,
    x: int,
    lines: Seq<Seq<char>>,
    rows: int,
    cols: int,
    i: int,
    c: int,
)
    requires
        0 <= cols,
        0 <= i < lines.len(),
        x <= c < x + lines[i].len(),
        0 <= c < cols,
        0 <= y + i < rows,
    ensures
        picture(text_lines(y, x, lines, rows, cols)).contains_key((y + i, c)),
        picture(text_lines(y, x, lines, rows, cols))[(y + i, c)] == lines[i][c - x],
    decreases lines.len(),
{
    reveal(text_lines);
    let p = (y + i, c);
    let last = text_span(y + lines.len() - 1, x, lines.last(), rows, cols);
    lemma_text_span_paints_visible_cells(y + lines.len() - 1, x, lines.last(), rows, cols);
    lemma_picture_cell(text_lines(y, x, lines.drop_last(), rows, cols), last, p);
    if i < lines.len() - 1 {
        assert(lines.drop_last()[i] == lines[i]);
        lemma_text_lines_cell(y, x, lines.drop_last(), rows, cols, i, c);
    }
}

/// A picture clipped by cells paints only the rows of its lines, from its
/// left column on.
pub proof fn lemma_glyph_lines_footprint(
    y: int,
    x: int,
    lines: Seq<Seq<char>>,
    rows: int,
    cols: int,
    p: (int, int),
)
    requires
        picture(glyph_lines(y, x, lines, rows, cols)).contains_key(p),
    ensures
        y <= p.0 < y + lines.len(),
        x <= p.1,
    decreases lines.len(),
{
    reveal(glyph_lines);
    if lines.len() > 0 {
        let last = glyph_spans(y + lines.len() - 1, x, lines.last(), rows, cols);
        lemma_glyph_spans_paint_visible_cells(y + lines.len() - 1, x, lines.last(), rows, cols);
        lemma_picture_cell(glyph_lines(y, x, lines.drop_last(), rows, cols), last, p);
        if !picture(last).contains_key(p) {
            lemma_glyph_lines_footprint(y, x, lines.drop_last(), rows, cols, p);
        }
    }
}

/// Line `i` of a picture clipped by cells shows on its row wherever it
/// falls on the screen.
pub proof fn lemma_glyph_lines_cell(
    y: int,
    x: int,
    lines: Seq<Seq<char>>,
    rows: int,
    cols: int,
    i: int,
    c: int,
)
    requires
        0 <= i < lines.len(),
        x <= c < x + lines[i].len(),
        0 <= c < cols,
        0 <= y + i < rows,
    ensures
        picture(glyph_lines(y, x, lines, rows, cols)).contains_key((y + i, c)),
        picture(glyph_lines(y, x, lines, rows, cols))[(y + i, c)] == lines[i][c - x],
    decreases lines.len(),
{
    reveal(glyph_lines);
    let p = (y + i, c);
    let last = glyph_spans(y + lines.len() - 1, x, lines.last(), rows, cols);
    lemma_glyph_spans_paint_visible_cells(y + lines.len() - 1, x, lines.last(), rows, cols);
    lemma_picture_cell(glyph_lines(y, x, lines.drop_last(), rows, cols), last, p);
    if i < lines.len() - 1 {
        assert(lines.drop_last()[i] == lines[i]);
        lemma_glyph_lines_cell(y, x, lines.drop_last(), rows, cols, i, c);
    }
}

/// Line `i` of the first of two pictures drawn row by row shows on its row
/// left of where the second picture starts.
pub proof fn lemma_paired_rows_first_layer(
    how: Clip,
    a: Layer,
    b: Layer,
    rows: int,
    cols: int,
    n: int,
    i: int,
    c: int,
)
    requires
        0 <= cols,
        0 <= i < n,
        i < a.lines.len(),
        a.left <= c < a.left + a.lines[i].len(),
        c < b.left,
        0 <= c < cols,
        0 <= a.top + i < rows,
    ensures
        picture(paired_rows(how, a, b, rows, cols, n)).contains_key((a.top + i, c)),
        picture(paired_rows(how, a, b, rows, cols, n))[(a.top + i, c)] == a.lines[i][c - a.left],
    decreases n,
{
    let p = (a.top + i, c);
    let prev = paired_rows(how, a, b, rows, cols, n - 1);
    let ra = layer_row(how, a, n - 1, rows, cols);
    let rb = layer_row(how, b, n - 1, rows, cols);
    lemma_clip_paints_visible_cells(how, a.top + n - 1, a.left, a.lines[n - 1], rows, cols);
    lemma_clip_paints_visible_cells(how, b.top + n - 1, b.left, b.lines[n - 1], rows, cols);
    assert(!picture(rb).contains_key(p));
    lemma_picture_cell(prev + ra, rb, p);
    lemma_picture_cell(prev, ra, p);
    if i < n - 1 {
        lemma_paired_rows_first_layer(how, a, b, rows, cols, n - 1, i, c);
    }
}

/// Line `i` of the first of four pictures drawn row by row shows on its
/// row left of where the other three start.
pub proof fn lemma_four_rows_first_layer(
    how: Clip,
    a: Layer,
    b: Layer,
    c: Layer,
    d: Layer,
    rows: int,
    cols: int,
    n: int,
    i: int,
    col: int,
)
    requires
        0 <= cols,
        0 <= i < n,
        i < a.lines.len(),
        a.left <= col < a.left + a.lines[i].len(),
        col < b.left,
        col < c.left,
        col < d.left,
        0 <= col < cols,
        0 <= a.top + i < rows,
    ensures
        picture(four_rows(how, a, b, c, d, rows, cols, n)).contains_key((a.top + i, col)),
        picture(four_rows(how, a, b, c, d, rows, cols, n))[(a.top + i, col)] == a.lines[i][col
            - a.left],
    decreases n,
{
    let p = (a.top + i, col);
    let prev = four_rows(how, a, b, c, d, rows, cols, n - 1);
    let ra = layer_row(how, a, n - 1, rows, cols);
    let rb = layer_row(how, b, n - 1, rows, cols);
    let rc = layer_row(how, c, n - 1, rows, cols);
    let rd = layer_row(how, d, n - 1, rows, cols);
    lemma_clip_paints_visible_cells(how, a.top + n - 1, a.left, a.lines[n - 1], rows, cols);
    lemma_clip_paints_visible_cells(how, b.top + n - 1, b.left, b.lines[n - 1], rows, cols);
    lemma_clip_paints_visible_cells(how, c.top + n - 1, c.left, c.lines[n - 1], rows, cols);
    lemma_clip_paints_visible_cells(how, d.top + n - 1, d.left, d.lines[n - 1], rows, cols);
    lemma_picture_cell(prev + ra + rb + rc, rd, p);
    lemma_picture_cell(prev + ra + rb, rc, p);
    lemma_picture_cell(prev + ra, rb, p);
    lemma_picture_cell(prev, ra, p);
    if i < n - 1 {
        lemma_four_rows_first_layer(how, a, b, c, d, rows, cols, n - 1, i, col);
    }
}

/// Clipping by runs never reaches outside the screen.
pub broadcast proof fn lemma_text_span_on_screen(y: int, x: int, s: Seq<char>, rows: int, cols: int)
    ensures
        all_on_screen(#[trigger] text_span(y, x, s, rows, cols), rows, cols),
{
    reveal(text_span);
    reveal(glyph_prefix);
    reveal(glyph_spans);
    reveal(text_lines);
    reveal(glyph_lines);
}

proof fn lemma_glyph_prefix_on_screen(
    y: int,
    x: int,
    s: Seq<char>,
    rows: int,
    cols: int,
    n: int,
)
    ensures
        all_on_screen(glyph_prefix(y, x, s, rows, cols, n), rows, cols),
    decreases n,
{
    reveal(text_span);
    reveal(glyph_prefix);
    reveal(glyph_spans);
    reveal(text_lines);
    reveal(glyph_lines);
    if n > 0 && 0 <= y < rows {
        lemma_glyph_prefix_on_screen(y, x, s, rows, cols, n - 1);
        lemma_all_on_screen_append(
            glyph_prefix(y, x, s, rows, cols, n - 1),
            glyph_at(y, x + n - 1, s[n - 1], cols),
            rows,
            cols,
        );
    }
}

/// Clipping by cells never reaches outside the screen.
pub broadcast proof fn lemma_glyph_spans_on_screen(y: int, x: int, s: Seq<char>, rows: int, cols: int)
    ensures
        all_on_screen(#[trigger] glyph_spans(y, x, s, rows, cols), rows, cols),
{
    reveal(text_span);
    reveal(glyph_prefix);
    reveal(glyph_spans);
    reveal(text_lines);
    reveal(glyph_lines);
    lemma_glyph_prefix_on_screen(y, x, s, rows, cols, s.len() as int);
}

/// Two lists of spans that stay on the screen stay on it together.
pub broadcast proof fn lemma_all_on_screen_append(a: Seq<Span>, b: Seq<Span>, rows: int, cols: int)
    requires
        all_on_screen(a, rows, cols),
        all_on_screen(b, rows, cols),
    ensures
        #[trigger] all_on_screen(a + b, rows, cols),
{
    reveal(text_span);
    reveal(glyph_prefix);
    reveal(glyph_spans);
    reveal(text_lines);
    reveal(glyph_lines);
    assert forall|i: int| 0 <= i < (a + b).len() implies #[trigger] is_on_screen(
        (a + b)[i],
        rows,
        cols,
    ) by {
        if i < a.len() {
            assert((a + b)[i] == a[i]);
        } else {
            assert((a + b)[i] == b[i - a.len()]);
        }
    }
}

/// A picture clipped by runs never reaches outside the screen.
pub broadcast proof fn lemma_text_lines_on_screen(
    y: int,
    x: int,
    lines: Seq<Seq<char>>,
    rows: int,
    cols: int,
)
    ensures
        all_on_screen(#[trigger] text_lines(y, x, lines, rows, cols), rows, cols),
    decreases lines.len(),
{
    reveal(text_span);
    reveal(glyph_prefix);
    reveal(glyph_spans);
    reveal(text_lines);
    reveal(glyph_lines);
    if lines.len() > 0 {
        lemma_text_lines_on_screen(y, x, lines.drop_last(), rows, cols);
        lemma_text_span_on_screen(y + lines.len() - 1, x, lines.last(), rows, cols);
        lemma_all_on_screen_append(
            text_lines(y, x, lines.drop_last(), rows, cols),
            text_span(y + lines.len() - 1, x, lines.last(), rows, cols),
            rows,
            cols,
        );
    }
}

/// A picture clipped by cells never reaches outside the screen.
pub broadcast proof fn lemma_glyph_lines_on_screen(
    y: int,
    x: int,
    lines: Seq<Seq<char>>,
    rows: int,
    cols: int,
)
    ensures
        all_on_screen(#[trigger] glyph_lines(y, x, lines, rows, cols), rows, cols),
    decreases lines.len(),
{
    reveal(text_span);
    reveal(glyph_prefix);
    reveal(glyph_spans);
    reveal(text_lines);
    reveal(glyph_lines);
    if lines.len() > 0 {
        lemma_glyph_lines_on_screen(y, x, lines.drop_last(), rows, cols);
        lemma_glyph_spans_on_screen(y + lines.len() - 1, x, lines.last(), rows, cols);
        lemma_all_on_screen_append(
            glyph_lines(y, x, lines.drop_last(), rows, cols),
            glyph_spans(y + lines.len() - 1, x, lines.last(), rows, cols),
            rows,
            cols,
        );
    }
}

/// Pictures drawn row by row never reach outside the screen.
pub broadcast proof fn lemma_paired_rows_on_screen(
    how: Clip,
    a: Layer,
    b: Layer,
    rows: int,
    cols: int,
    n: int,
)
    ensures
        all_on_screen(#[trigger] paired_rows(how, a, b, rows, cols, n), rows, cols),
    decreases n,
{
    broadcast use lemma_text_span_on_screen, lemma_glyph_spans_on_screen, lemma_all_on_screen_append;

    if n > 0 {
        lemma_paired_rows_on_screen(how, a, b, rows, cols, n - 1);
    }
}

/// Four pictures drawn row by row never reach outside the screen.
pub broadcast proof fn lemma_four_rows_on_screen(
    how: Clip,
    a: Layer,
    b: Layer,
    c: Layer,
    d: Layer,
    rows: int,
    cols: int,
    n: int,
)
    ensures
        all_on_screen(#[trigger] four_rows(how, a, b, c, d, rows, cols, n), rows, cols),
    decreases n,
{
    broadcast use lemma_text_span_on_screen, lemma_glyph_spans_on_screen, lemma_all_on_screen_append;

    if n > 0 {
        lemma_four_rows_on_screen(how, a, b, c, d, rows, cols, n - 1);
    }
}

/// The facts that keep whole frames on the screen.
pub broadcast group group_on_screen {
    lemma_text_span_on_screen,
    lemma_glyph_spans_on_screen,
    lemma_text_lines_on_screen,
    lemma_glyph_lines_on_screen,
    lemma_all_on_screen_append,
    lemma_paired_rows_on_screen,
    lemma_four_rows_on_screen,
}

} // verus!
