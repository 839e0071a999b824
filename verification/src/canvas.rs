use vstd::prelude::*;

use crate::app::{Preset, preset_name};
use crate::config::Language;
use crate::text::chars_of;

verus! {

/// Marker drawn on the selected object.
pub fn selected_symbol(unicode: bool) -> (r: char)
    ensures
        r == (if unicode {
            '◎'
        } else {
            '@'
        }),
{
    if unicode {
        '◎'
    } else {
        '@'
    }
}

pub open spec fn sign(v: int) -> int {
    if v > 0 {
        1
    } else if v < 0 {
        -1
    } else {
        0
    }
}

/// The character for a line step of `(dx, dy)` cells: vertical, horizontal,
/// or one of the two diagonals (screen rows grow downwards).
pub open spec fn line_glyph(dx: int, dy: int, unicode: bool) -> char {
    if unicode {
        if dx == 0 {
            '│'
        } else if dy == 0 {
            '─'
        } else if sign(dx) == sign(dy) {
            '╲'
        } else {
            '╱'
        }
    } else if dx == 0 {
        '|'
    } else if dy == 0 {
        '-'
    } else if sign(dx) == sign(dy) {
        '\\'
    } else {
        '/'
    }
}

/// The character drawn for one step of a constellation line.
pub fn line_char(dx: isize, dy: isize, unicode: bool) -> (r: char)
    ensures
        r == line_glyph(dx as int, dy as int, unicode),
{
    let same_sign = (dx > 0 && dy > 0) || (dx < 0 && dy < 0) || (dx == 0 && dy == 0);
    if unicode {
        if dx == 0 {
            '│'
        } else if dy == 0 {
            '─'
        } else if same_sign {
            '╲'
        } else {
            '╱'
        }
    } else if dx == 0 {
        '|'
    } else if dy == 0 {
        '-'
    } else if same_sign {
        '\\'
    } else {
        '/'
    }
}

/// Without Unicode, every line character is a single-width ASCII character.
pub proof fn lemma_ascii_line_glyphs(dx: int, dy: int)
    ensures
        (line_glyph(dx, dy, false) as u32) < 128,
{
}

/// The character for a cell of the moon picture, given whether its left and
/// right halves are lit (none where the half lies outside the disc).
pub open spec fn moon_glyph(left: Option<bool>, right: Option<bool>, unicode: bool) -> char {
    match (unicode, left, right) {
        (_, None, None) => ' ',
        (true, Some(true), Some(true)) => '█',
        (true, Some(false), Some(false)) => '░',
        (true, Some(true), Some(false)) => '▌',
        (true, Some(false), Some(true)) => '▐',
        (true, Some(true), None) => '▌',
        (true, None, Some(true)) => '▐',
        (true, Some(false), None) => '░',
        (true, None, Some(false)) => '░',
        (false, Some(true), Some(true)) => '#',
        (false, Some(false), Some(false)) => '.',
        (false, Some(true), Some(false)) => '|',
        (false, Some(false), Some(true)) => '|',
        (false, Some(true), None) => '/',
        (false, None, Some(true)) => '\\',
        (false, Some(false), None) => '.',
        (false, None, Some(false)) => '.',
    }
}

/// The character for one cell of the moon picture.
pub fn moon_cell(left: Option<bool>, right: Option<bool>, unicode: bool) -> (r: char)
    ensures
        r == moon_glyph(left, right, unicode),
{
    match (unicode, left, right) {
        (_, None, None) => ' ',
        (true, Some(true), Some(true)) => '█',
        (true, Some(false), Some(false)) => '░',
        (true, Some(true), Some(false)) => '▌',
        (true, Some(false), Some(true)) => '▐',
        (true, Some(true), None) => '▌',
        (true, None, Some(true)) => '▐',
        (true, Some(false), None) => '░',
        (true, None, Some(false)) => '░',
        (false, Some(true), Some(true)) => '#',
        (false, Some(false), Some(false)) => '.',
        (false, Some(true), Some(false)) => '|',
        (false, Some(false), Some(true)) => '|',
        (false, Some(true), None) => '/',
        (false, None, Some(true)) => '\\',
        (false, Some(false), None) => '.',
        (false, None, Some(false)) => '.',
    }
}

/// The label drawn beside a city marker: the Chinese name only in the
/// Chinese interface with Unicode drawing, else the English name.
pub fn preset_city_label(preset: &Preset, language: Language, unicode: bool) -> (r: &'static str)
    ensures
        r@ == (if language == Language::Zh && unicode {
            preset_name(preset@, Language::Zh)
        } else {
            preset_name(preset@, Language::En)
        }),
{
    if language == Language::Zh && unicode {
        preset.zh
    } else {
        preset.en
    }
}

// ---------------------------------------------------------------------------
// Text on the canvas
// ---------------------------------------------------------------------------

/// A Unicode control character (general category Cc), what `char::is_control` tests.
pub open spec fn is_control(c: char) -> bool {
    (c as u32) <= 0x1f || (0x7f <= (c as u32) && (c as u32) <= 0x9f)
}

/// Whether a label character is drawn: ASCII always, other characters only
/// with Unicode drawing and when they are not control characters.
pub open spec fn label_char_drawn(c: char, unicode: bool) -> bool {
    (c as u32) < 128 || (unicode && !is_control(c))
}

/// The character drawn for `ch` in a canvas label, if it is drawn.
pub fn canvas_label_char(ch: char, unicode: bool) -> (r: Option<char>)
    ensures
        r == (if label_char_drawn(ch, unicode) {
            Some(ch)
        } else {
            None::<char>
        }),
{
    let u = ch as u32;
    let control = u <= 0x1f || (0x7f <= u && u <= 0x9f);
    if u < 128 || (unicode && !control) {
        Some(ch)
    } else {
        None
    }
}

/// Columns that unicode-width gives a character from U+00A0 on: its East
/// Asian width from the crate's tables.
pub uninterp spec fn char_columns(c: char) -> usize;

/// What `UnicodeWidthChar::width` returns: none for the control ranges below
/// U+0020 and from U+007F to U+009F, one column for the rest of ASCII, and
/// the table width from U+00A0 on.
pub open spec fn unicode_width_of(c: char) -> Option<usize> {
    let u = c as u32;
    if u < 0x20 || (0x7f <= u && u < 0xa0) {
        None
    } else if u < 0x7f {
        Some(1)
    } else {
        Some(char_columns(c))
    }
}

/// `UnicodeWidthChar::width`.
#[verifier::external_body]
fn unicode_char_width(c: char) -> (r: Option<usize>)
    ensures
        (c as u32) < 0x20 || (0x7f <= (c as u32) && (c as u32) < 0xa0) ==> r is None,
        0x20 <= (c as u32) && (c as u32) < 0x7f ==> r == Some(1usize),
        (c as u32) >= 0xa0 ==> r == Some(char_columns(c)),
{
    unicode_width::UnicodeWidthChar::width(c)
}

/// Columns a drawn label character takes: its display width, at least one,
/// with Unicode drawing; one otherwise.
pub open spec fn label_char_columns(c: char, unicode: bool) -> int {
    if unicode {
        match unicode_width_of(c) {
            Some(w) => if w >= 1 {
                w as int
            } else {
                1
            },
            None => 1,
        }
    } else {
        1
    }
}

/// Columns a label character takes on the canvas.
pub fn canvas_label_char_width(ch: char, unicode: bool) -> (r: usize)
    ensures
        r == label_char_columns(ch, unicode),
{
    if unicode {
        match unicode_char_width(ch) {
            Some(w) => if w >= 1 {
                w
            } else {
                1
            },
            None => 1,
        }
    } else {
        1
    }
}

/// Total columns of the drawn characters of `s`.
pub open spec fn label_columns(s: Seq<char>, unicode: bool) -> int
    decreases s.len(),
{
    if s.len() == 0 {
        0
    } else if label_char_drawn(s.last(), unicode) {
        label_columns(s.drop_last(), unicode) + label_char_columns(s.last(), unicode)
    } else {
        label_columns(s.drop_last(), unicode)
    }
}

/// Columns that `text` takes when drawn as a canvas label.
pub fn canvas_label_width(text: &str, unicode: bool) -> (r: usize)
    requires
        label_columns(text@, unicode) <= usize::MAX,
    ensures
        r == label_columns(text@, unicode),
{
    let v = chars_of(text);
    let mut total: usize = 0;
    let mut i: usize = 0;
    while i < v.len()
        invariant
            i <= v.len(),
            v@ == text@,
            total == label_columns(v@.take(i as int), unicode),
            label_columns(text@, unicode) <= usize::MAX,
        decreases v.len() - i,
    {
        assert(v@.take(i + 1).drop_last() =~= v@.take(i as int));
        proof {
            lemma_label_columns_prefix(v@, i + 1);
        }
        match canvas_label_char(v[i], unicode) {
            Some(c) => {
                total = total + canvas_label_char_width(c, unicode);
            },
            None => {},
        }
        i = i + 1;
    }
    assert(v@.take(v.len() as int) =~= v@);
    total
}

proof fn lemma_label_columns_prefix(s: Seq<char>, k: int)
    requires
        0 <= k <= s.len(),
    ensures
        0 <= label_columns(s.take(k), true) <= label_columns(s, true),
        0 <= label_columns(s.take(k), false) <= label_columns(s, false),
    decreases s.len() - k,
{
    if k < s.len() {
        lemma_label_columns_prefix(s.drop_last(), k);
        assert(s.drop_last().take(k) =~= s.take(k));
        lemma_label_columns_nonneg(s.drop_last());
    } else {
        assert(s.take(k) =~= s);
        lemma_label_columns_nonneg(s);
    }
}

proof fn lemma_label_columns_nonneg(s: Seq<char>)
    ensures
        label_columns(s, true) >= 0,
        label_columns(s, false) >= 0,
    decreases s.len(),
{
    if s.len() > 0 {
        lemma_label_columns_nonneg(s.drop_last());
    }
}

// ---------------------------------------------------------------------------
// Writing text into a grid of cells
// ---------------------------------------------------------------------------

/// The rows of a grid of cells, each cell a character and a style.
pub open spec fn cell_rows<S>(g: Seq<Vec<(char, S)>>) -> Seq<Seq<(char, S)>> {
    g.map_values(|r: Vec<(char, S)>| r@)
}

/// A row with a character of `w` columns drawn at `at`: the character in its
/// first cell and blanks in the cells it also covers, all in style `st`.
pub open spec fn with_glyph<S>(row: Seq<(char, S)>, at: int, ch: char, w: int, st: S) -> Seq<(char, S)> {
    Seq::new(
        row.len(),
        |k: int|
            if k == at {
                (ch, st)
            } else if at < k < at + w {
                (' ', st)
            } else {
                row[k]
            },
    )
}

/// A row with the drawn characters of `cs` written from column `cursor`, each
/// taking its label width, stopping at the first that would not fit.
pub open spec fn with_text<S>(row: Seq<(char, S)>, cursor: int, cs: Seq<char>, unicode: bool, st: S) -> Seq<(char, S)>
    decreases cs.len(),
{
    if cs.len() == 0 {
        row
    } else if !label_char_drawn(cs[0], unicode) {
        with_text(row, cursor, cs.skip(1), unicode, st)
    } else if cursor + label_char_columns(cs[0], unicode) > row.len() {
        row
    } else {
        with_text(
            with_glyph(row, cursor, cs[0], label_char_columns(cs[0], unicode), st),
            cursor + label_char_columns(cs[0], unicode),
            cs.skip(1),
            unicode,
            st,
        )
    }
}

/// The grid after drawing `text` at `(x, y)`: nothing changes when the row
/// does not exist or `x` lies past its end.
pub open spec fn grid_with_text<S>(
    g: Seq<Seq<(char, S)>>,
    x: int,
    y: int,
    text: Seq<char>,
    unicode: bool,
    st: S,
) -> Seq<Seq<(char, S)>> {
    if 0 <= y < g.len() && x < g[y].len() {
        g.update(y, with_text(g[y], x, text, unicode, st))
    } else {
        g
    }
}

/// Drawing text keeps the row's width and leaves every cell left of where
/// the text starts as it was.
pub proof fn lemma_text_stays_in_its_row<S>(
    row: Seq<(char, S)>,
    cursor: int,
    cs: Seq<char>,
    unicode: bool,
    st: S,
)
    requires
        0 <= cursor,
    ensures
        with_text(row, cursor, cs, unicode, st).len() == row.len(),
        forall|k: int| 0 <= k < cursor && k < row.len() ==> #[trigger] with_text(row, cursor, cs, unicode, st)[k] == row[k],
    decreases cs.len(),
{
    if cs.len() > 0 {
        let w = label_char_columns(cs[0], unicode);
        if !label_char_drawn(cs[0], unicode) {
            lemma_text_stays_in_its_row(row, cursor, cs.skip(1), unicode, st);
        } else if cursor + w <= row.len() {
            let next = with_glyph(row, cursor, cs[0], w, st);
            lemma_text_stays_in_its_row(next, cursor + w, cs.skip(1), unicode, st);
            assert forall|k: int| 0 <= k < cursor && k < row.len() implies #[trigger] with_text(row, cursor, cs, unicode, st)[k] == row[k] by {
                assert(with_text(next, cursor + w, cs.skip(1), unicode, st)[k] == next[k]);
            }
        }
    }
}

proof fn lemma_label_columns_positive(c: char, unicode: bool)
    ensures
        label_char_columns(c, unicode) >= 1,
{
}

fn put_glyph<S: Copy>(row: &mut Vec<(char, S)>, at: usize, ch: char, w: usize, st: S)
    requires
        w >= 1,
        at + w <= old(row).len(),
    ensures
        final(row)@ == with_glyph(old(row)@, at as int, ch, w as int, st),
{
    let ghost before = row@;
    row.set(at, (ch, st));
    let mut k: usize = 1;
    while k < w
        invariant
            1 <= k <= w,
            at + w <= row.len(),
            row.len() == before.len(),
            forall|m: int|
                0 <= m < row.len() ==> #[trigger] row@[m] == (if m == at {
                    (ch, st)
                } else if at < m < at + k {
                    (' ', st)
                } else {
                    before[m]
                }),
        decreases w - k,
    {
        row.set(at + k, (' ', st));
        k = k + 1;
    }
    assert(row@ =~= with_glyph(before, at as int, ch, w as int, st));
}

/// Draws `text` into `row` from column `x`, as `with_text` says.
fn write_text<S: Copy>(row: &mut Vec<(char, S)>, x: usize, text: &str, st: S, unicode: bool)
    ensures
        final(row)@ == with_text(old(row)@, x as int, text@, unicode, st),
{
    let v = chars_of(text);
    let ghost full = v@;
    let mut cursor = x;
    let mut i: usize = 0;
    assert(full.skip(0) =~= full);
    while i < v.len()
        invariant
            i <= v.len(),
            v@ == full,
            full == text@,
            with_text(old(row)@, x as int, full, unicode, st) == with_text(
                row@,
                cursor as int,
                full.skip(i as int),
                unicode,
                st,
            ),
        decreases v.len() - i,
    {
        let ghost rest = full.skip(i as int);
        assert(rest[0] == v@[i as int]);
        assert(rest.skip(1) =~= full.skip(i + 1));
        match canvas_label_char(v[i], unicode) {
            Some(c) => {
                let w = canvas_label_char_width(c, unicode);
                proof {
                    lemma_label_columns_positive(c, unicode);
                }
                let fits = w <= row.len() && cursor <= row.len() - w;
                if !fits {
                    assert(label_char_drawn(rest[0], unicode));
                    assert(cursor + label_char_columns(rest[0], unicode) > row@.len());
                    assert(with_text(row@, cursor as int, rest, unicode, st) == row@);
                    return;
                }
                put_glyph(row, cursor, c, w, st);
                cursor = cursor + w;
            },
            None => {},
        }
        i = i + 1;
    }
}

/// Draws `text` on row `y` of `grid` from column `x` in style `st`: only the
/// characters a canvas label draws, each over its width in columns (blank
/// cells after a wide character), stopping before the first that would run
/// past the row; nothing when the row does not exist or `x` is past its end.
pub fn draw_text<S: Copy>(grid: &mut Vec<Vec<(char, S)>>, x: usize, y: usize, text: &str, st: S, unicode: bool)
    ensures
        cell_rows(final(grid)@) == grid_with_text(cell_rows(old(grid)@), x as int, y as int, text@, unicode, st),
{
    let ghost g = cell_rows(grid@);
    if y >= grid.len() {
        return;
    }
    assert(g[y as int] == grid@[y as int]@);
    if x >= grid[y].len() {
        return;
    }
    let mut row: Vec<(char, S)> = Vec::new();
    grid.set_and_swap(y, &mut row);
    let ghost before = row@;
    write_text(&mut row, x, text, st, unicode);
    let ghost after = row@;
    grid.set(y, row);
    assert(cell_rows(grid@) =~= g.update(y as int, after));
}

/// Draws a label two columns right of a marker at `(x, y)`, as `draw_text`
/// does, unless that start lies past the end of the row.
pub fn draw_label<S: Copy>(grid: &mut Vec<Vec<(char, S)>>, x: usize, y: usize, label: &str, st: S, unicode: bool)
    ensures
        cell_rows(final(grid)@) == (if y < old(grid).len() && x + 2 < old(grid)@[y as int].len() {
            grid_with_text(cell_rows(old(grid)@), x + 2, y as int, label@, unicode, st)
        } else {
            cell_rows(old(grid)@)
        }),
{
    if y >= grid.len() {
        return;
    }
    let start = if x < usize::MAX - 1 {
        x + 2
    } else {
        usize::MAX
    };
    if start >= grid[y].len() {
        return;
    }
    draw_text(grid, start, y, label, st, unicode);
}

// ---------------------------------------------------------------------------
// The sky pointer's reticle
// ---------------------------------------------------------------------------

/// The glyph of the pointer's reticle at `(dx, dy)` from the pointer: the
/// pointer's own cell marked `+`, the sides of a box seven columns wide and
/// five rows tall around it with box corners, and nothing elsewhere.
pub open spec fn reticle_glyph(dx: int, dy: int, unicode: bool) -> Option<char> {
    if dx == 0 && dy == 0 {
        Some('+')
    } else if (dx == -3 || dx == 3) && (dy == -2 || dy == 2) {
        if !unicode {
            Some('+')
        } else if dx == -3 && dy == -2 {
            Some('┌')
        } else if dx == 3 && dy == -2 {
            Some('┐')
        } else if dx == -3 {
            Some('└')
        } else {
            Some('┘')
        }
    } else if (dy == -2 || dy == 2) && -2 <= dx <= 2 {
        Some(if unicode { '─' } else { '-' })
    } else if (dx == -3 || dx == 3) && -1 <= dy <= 1 {
        Some(if unicode { '│' } else { '|' })
    } else {
        None
    }
}

/// The grid with the pointer's reticle drawn around `(x, y)`: the pointer's
/// cell in `style`, the box in `dim`, cells off the grid left out.
pub open spec fn grid_with_pointer<S>(
    g: Seq<Seq<(char, S)>>,
    x: int,
    y: int,
    unicode: bool,
    style: S,
    dim: S,
) -> Seq<Seq<(char, S)>> {
    Seq::new(
        g.len(),
        |r: int|
            Seq::new(
                g[r].len(),
                |c: int|
                    if c == x && r == y {
                        ('+', style)
                    } else {
                        match reticle_glyph(c - x, r - y, unicode) {
                            Some(ch) => (ch, dim),
                            None => g[r][c],
                        }
                    },
            ),
    )
}

fn reticle_at(c: usize, r: usize, x: usize, y: usize, unicode: bool) -> (g: Option<char>)
    ensures
        g == reticle_glyph(c - x, r - y, unicode),
{
    let left = c < x;
    let ax = if left {
        x - c
    } else {
        c - x
    };
    let up = r < y;
    let ay = if up {
        y - r
    } else {
        r - y
    };
    if ax == 0 && ay == 0 {
        Some('+')
    } else if ax == 3 && ay == 2 {
        if !unicode {
            Some('+')
        } else if left && up {
            Some('┌')
        } else if up {
            Some('┐')
        } else if left {
            Some('└')
        } else {
            Some('┘')
        }
    } else if ay == 2 && ax <= 2 {
        Some(if unicode { '─' } else { '-' })
    } else if ax == 3 && ay <= 1 {
        Some(if unicode { '│' } else { '|' })
    } else {
        None
    }
}

/// Draws the sky pointer's reticle around `(x, y)`, the pointer kept on the
/// grid (the grid's width is that of its first row); an empty grid stays as
/// it is.
pub fn draw_pointer<S: Copy>(grid: &mut Vec<Vec<(char, S)>>, x: usize, y: usize, style: S, dim: S, unicode: bool)
    ensures
        old(grid).len() == 0 || old(grid)@[0].len() == 0 ==> final(grid)@ == old(grid)@,
        old(grid).len() > 0 && old(grid)@[0].len() > 0 ==> cell_rows(final(grid)@) == grid_with_pointer(
            cell_rows(old(grid)@),
            if x < old(grid)@[0].len() {
                x as int
            } else {
                old(grid)@[0].len() - 1
            },
            if y < old(grid).len() {
                y as int
            } else {
                old(grid).len() - 1
            },
            unicode,
            style,
            dim,
        ),
{
    let height = grid.len();
    if height == 0 {
        return;
    }
    let width = grid[0].len();
    if width == 0 {
        return;
    }
    let px = if x < width {
        x
    } else {
        width - 1
    };
    let py = if y < height {
        y
    } else {
        height - 1
    };
    let ghost g = cell_rows(grid@);
    let ghost want = grid_with_pointer(g, px as int, py as int, unicode, style, dim);
    let r0 = if py >= 2 {
        py - 2
    } else {
        0
    };
    let r1 = if height > 2 && py < height - 2 {
        py + 2
    } else {
        height - 1
    };
    assert forall|k: int| 0 <= k < r0 implies #[trigger] want[k] == g[k] by {
        assert(want[k] =~= g[k]);
    }
    let mut r = r0;
    while r <= r1
        invariant
            r0 <= r <= r1 + 1,
            r1 < height,
            height == grid.len(),
            g.len() == height,
            want == grid_with_pointer(g, px as int, py as int, unicode, style, dim),
            forall|k: int| 0 <= k < height ==> #[trigger] cell_rows(grid@)[k] == (if k < r {
                want[k]
            } else {
                g[k]
            }),
        decreases r1 + 1 - r,
    {
        assert(cell_rows(grid@)[r as int] == grid@[r as int]@);
        let ghost prev = grid@;
        let mut row: Vec<(char, S)> = Vec::new();
        grid.set_and_swap(r, &mut row);
        let ghost before = row@;
        assert(before == g[r as int]);
        let mut c: usize = if px >= 3 {
            px - 3
        } else {
            0
        };
        let ghost c0 = c;
        assert forall|m: int| 0 <= m < c0 && m < before.len() implies #[trigger] want[r as int][m] == before[m] by {}
        while c < row.len() && (c < px || c - px <= 3)
            invariant
                row.len() == before.len(),
                c0 <= c,
                r < g.len(),
                before == g[r as int],
                want == grid_with_pointer(g, px as int, py as int, unicode, style, dim),
                forall|m: int| 0 <= m < c0 && m < before.len() ==> #[trigger] want[r as int][m] == before[m],
                forall|m: int| 0 <= m < row.len() ==> #[trigger] row@[m] == (if c0 <= m < c {
                    want[r as int][m]
                } else {
                    before[m]
                }),
            decreases row.len() - c,
        {
            let cell = if c == px && r == py {
                Some(('+', style))
            } else {
                match reticle_at(c, r, px, py, unicode) {
                    Some(ch) => Some((ch, dim)),
                    None => None,
                }
            };
            match cell {
                Some(v) => row.set(c, v),
                None => {},
            }
            c = c + 1;
        }
        assert(row@ =~= want[r as int]);
        grid.set(r, row);
        assert(grid@ == prev.update(r as int, grid@[r as int]));
        assert forall|k: int| 0 <= k < height implies #[trigger] cell_rows(grid@)[k] == (if k < r + 1 {
            want[k]
        } else {
            g[k]
        }) by {
            if k != r {
                assert(cell_rows(grid@)[k] == prev[k]@);
                assert(cell_rows(prev)[k] == prev[k]@);
            }
        }
        r = r + 1;
    }
    assert forall|k: int| 0 <= k < height implies #[trigger] cell_rows(grid@)[k] == want[k] by {
        if k > r1 {
            assert(want[k] =~= g[k]);
        }
    }
    assert(cell_rows(grid@) =~= want);
}

// ---------------------------------------------------------------------------
// Between grids of cells and lines of styled text
// ---------------------------------------------------------------------------

/// The cells of a line of styled runs: each character of each run with the
/// run's style, in order.
pub open spec fn run_cells<S>(runs: Seq<(Seq<char>, S)>) -> Seq<(char, S)>
    decreases runs.len(),
{
    if runs.len() == 0 {
        Seq::empty()
    } else {
        run_cells(runs.drop_last()) + runs.last().0.map_values(|c: char| (c, runs.last().1))
    }
}

pub open spec fn runs_view<S>(v: Seq<(String, S)>) -> Seq<(Seq<char>, S)> {
    v.map_values(|r: (String, S)| (r.0@, r.1))
}

/// A grid row made from a line: its cells cut to `width`, then `empty`
/// cells up to `width`.
pub open spec fn row_from_cells<S>(cells: Seq<(char, S)>, width: int, empty: (char, S)) -> Seq<(char, S)> {
    Seq::new(width as nat, |x: int| if x < cells.len() { cells[x] } else { empty })
}

/// The grid of `height` rows of `width` cells that shows the first `height`
/// lines, each cut to the width; the rest is `empty`.
pub open spec fn grid_from_lines<S>(
    lines: Seq<Seq<(Seq<char>, S)>>,
    width: int,
    height: int,
    empty: (char, S),
) -> Seq<Seq<(char, S)>> {
    Seq::new(
        height as nat,
        |y: int|
            if y < lines.len() {
                row_from_cells(run_cells(lines[y]), width, empty)
            } else {
                row_from_cells(Seq::empty(), width, empty)
            },
    )
}

fn line_cells<S: Copy>(runs: &Vec<(String, S)>, width: usize, empty: (char, S)) -> (r: Vec<(char, S)>)
    ensures
        r@ == row_from_cells(run_cells(runs_view(runs@)), width as int, empty),
{
    let ghost rv = runs_view(runs@);
    let mut cells: Vec<(char, S)> = Vec::new();
    let mut i: usize = 0;
    while i < runs.len() && cells.len() < width
        invariant
            i <= runs.len(),
            rv == runs_view(runs@),
            cells.len() <= width,
            cells.len() < width ==> cells@ == run_cells(rv.take(i as int)),
            cells.len() == width ==> cells@ == run_cells(rv.take(i as int)).take(width as int),
            cells.len() <= run_cells(rv.take(i as int)).len(),
        decreases runs.len() - i,
    {
        let text = chars_of(runs[i].0.as_str());
        let st = runs[i].1;
        let ghost before = cells@;
        let ghost prefix = run_cells(rv.take(i as int));
        assert(rv.take(i + 1).drop_last() =~= rv.take(i as int));
        assert(rv.take(i + 1).last() == (text@, st));
        let ghost piece = text@.map_values(|c: char| (c, st));
        let mut k: usize = 0;
        while k < text.len() && cells.len() < width
            invariant
                k <= text.len(),
                before == prefix,
                before.len() < width,
                cells.len() <= width,
                cells@ == before + piece.take(k as int),
                piece.len() == text@.len(),
                forall|m: int| 0 <= m < text@.len() ==> #[trigger] piece[m] == (text@[m], st),
            decreases text.len() - k,
        {
            cells.push((text[k], st));
            assert(piece.take(k + 1) =~= piece.take(k as int).push(piece[k as int]));
            k = k + 1;
        }
        proof {
            let next = run_cells(rv.take(i + 1));
            assert(next == prefix + piece);
            if cells.len() < width {
                assert(k == text.len());
                assert(piece.take(k as int) =~= piece);
            } else {
                assert(cells@ =~= next.take(width as int));
            }
        }
        i = i + 1;
    }
    proof {
        let all = run_cells(rv);
        if cells.len() < width {
            assert(i == runs.len());
            assert(rv.take(i as int) =~= rv);
        } else {
            lemma_run_cells_prefix(rv, i as int);
            assert(cells@ =~= all.take(width as int));
            assert(all.len() >= width);
        }
    }
    let ghost filled = cells@;
    let ghost all = run_cells(rv);
    while cells.len() < width
        invariant
            filled.len() <= cells.len() <= width,
            all == run_cells(rv),
            filled.len() < width ==> filled == all,
            filled.len() == width ==> filled == all.take(width as int) && all.len() >= width,
            cells@.take(filled.len() as int) == filled,
            forall|m: int| filled.len() <= m < cells.len() ==> #[trigger] cells@[m] == empty,
        decreases width - cells.len(),
    {
        cells.push(empty);
    }
    assert forall|x: int| 0 <= x < width implies #[trigger] cells@[x] == row_from_cells(all, width as int, empty)[x] by {
        if x < filled.len() {
            assert(cells@.take(filled.len() as int)[x] == cells@[x]);
            if filled.len() == width {
                assert(all.take(width as int)[x] == all[x]);
            }
        }
    }
    assert(cells@ =~= row_from_cells(run_cells(rv), width as int, empty));
    cells
}

proof fn lemma_run_cells_prefix<S>(runs: Seq<(Seq<char>, S)>, i: int)
    requires
        0 <= i <= runs.len(),
    ensures
        run_cells(runs).take(run_cells(runs.take(i)).len() as int) == run_cells(runs.take(i)),
        run_cells(runs.take(i)).len() <= run_cells(runs).len(),
    decreases runs.len() - i,
{
    if i == runs.len() {
        assert(runs.take(i) =~= runs);
        assert(run_cells(runs).take(run_cells(runs).len() as int) =~= run_cells(runs));
    } else {
        lemma_run_cells_prefix(runs.drop_last(), i);
        assert(runs.drop_last().take(i) =~= runs.take(i));
        let p = run_cells(runs.take(i));
        let d = run_cells(runs.drop_last());
        assert(run_cells(runs).take(p.len() as int) =~= d.take(p.len() as int));
    }
}

/// Lays lines of styled runs out in a grid of `height` rows of `width`
/// cells, as `grid_from_lines` says.
pub fn lines_to_grid<S: Copy>(
    lines: &Vec<Vec<(String, S)>>,
    width: usize,
    height: usize,
    empty: (char, S),
) -> (r: Vec<Vec<(char, S)>>)
    ensures
        cell_rows(r@) == grid_from_lines(
            lines@.map_values(|l: Vec<(String, S)>| runs_view(l@)),
            width as int,
            height as int,
            empty,
        ),
{
    let ghost lv = lines@.map_values(|l: Vec<(String, S)>| runs_view(l@));
    let mut grid: Vec<Vec<(char, S)>> = Vec::new();
    let no_runs: Vec<(String, S)> = Vec::new();
    let mut y: usize = 0;
    while y < height
        invariant
            y <= height,
            grid.len() == y,
            lv == lines@.map_values(|l: Vec<(String, S)>| runs_view(l@)),
            no_runs@.len() == 0,
            forall|m: int| 0 <= m < y ==> #[trigger] cell_rows(grid@)[m] == grid_from_lines(lv, width as int, height as int, empty)[m],
        decreases height - y,
    {
        let row = if y < lines.len() {
            line_cells(&lines[y], width, empty)
        } else {
            proof {
                assert(runs_view(no_runs@) =~= Seq::<(Seq<char>, S)>::empty());
            }
            line_cells(&no_runs, width, empty)
        };
        let ghost before = grid@;
        grid.push(row);
        assert forall|m: int| 0 <= m < y + 1 implies #[trigger] cell_rows(grid@)[m] == grid_from_lines(lv, width as int, height as int, empty)[m] by {
            if m < y {
                assert(cell_rows(grid@)[m] == cell_rows(before)[m]);
            }
        }
        y = y + 1;
    }
    assert(cell_rows(grid@) =~= grid_from_lines(lv, width as int, height as int, empty));
    grid
}

/// Columns a character takes when a grid row is written out: its display
/// width, one for characters without one.
pub open spec fn cell_columns(c: char) -> int {
    match unicode_width_of(c) {
        Some(w) => w as int,
        None => 1,
    }
}

/// The cells of a row that are written out: each cell, after which the cells
/// that a wide character covers are passed over.
pub open spec fn shown_cells<S>(row: Seq<(char, S)>) -> Seq<(char, S)>
    decreases row.len(),
{
    if row.len() == 0 {
        Seq::empty()
    } else {
        let skip = if cell_columns(row[0].0) >= 1 {
            cell_columns(row[0].0) - 1
        } else {
            0
        };
        let next = if 1 + skip <= row.len() {
            1 + skip
        } else {
            row.len() as int
        };
        seq![row[0]] + shown_cells(row.skip(next))
    }
}

/// The cells of each row that are written out, as `shown_cells` says.
pub fn grid_to_lines<S: Copy>(grid: &Vec<Vec<(char, S)>>) -> (r: Vec<Vec<(char, S)>>)
    ensures
        r.len() == grid.len(),
        forall|y: int| 0 <= y < grid.len() ==> #[trigger] r@[y]@ == shown_cells(grid@[y]@),
{
    let mut out: Vec<Vec<(char, S)>> = Vec::new();
    let mut y: usize = 0;
    while y < grid.len()
        invariant
            y <= grid.len(),
            out.len() == y,
            forall|m: int| 0 <= m < y ==> #[trigger] out@[m]@ == shown_cells(grid@[m]@),
        decreases grid.len() - y,
    {
        let row = &grid[y];
        let ghost rv = row@;
        let mut line: Vec<(char, S)> = Vec::new();
        let mut x: usize = 0;
        assert(rv.skip(0) =~= rv);
        while x < row.len()
            invariant
                x <= row.len(),
                rv == row@,
                shown_cells(rv) == line@ + shown_cells(rv.skip(x as int)),
            decreases row.len() - x,
        {
            let cell = row[x];
            let columns = match unicode_char_width(cell.0) {
                Some(w) => w,
                None => 1,
            };
            let skip = if columns >= 1 {
                columns - 1
            } else {
                0
            };
            let next = if skip < row.len() - x {
                x + 1 + skip
            } else {
                row.len()
            };
            proof {
                let rest = rv.skip(x as int);
                assert(rest[0] == cell);
                assert(rest.skip(if 1 + skip <= rest.len() { 1 + skip } else { rest.len() as int }) =~= rv.skip(next as int));
            }
            let ghost before = line@;
            line.push(cell);
            assert(line@ =~= before + seq![cell]);
            x = next;
        }
        assert(rv.skip(row.len() as int) =~= Seq::<(char, S)>::empty());
        assert(line@ =~= shown_cells(rv));
        out.push(line);
        y = y + 1;
    }
    out
}

/// Without Unicode drawing a label takes one column per ASCII character.
pub proof fn lemma_ascii_label_columns(s: Seq<char>)
    requires
        forall|k: int| 0 <= k < s.len() ==> (#[trigger] s[k] as u32) < 128,
    ensures
        label_columns(s, false) == s.len(),
    decreases s.len(),
{
    if s.len() > 0 {
        lemma_ascii_label_columns(s.drop_last());
    }
}

} // verus!
