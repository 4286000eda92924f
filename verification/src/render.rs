use vstd::prelude::*;

use crate::board::{Game, GameView, EMPTY, MAX_SIZE, MIN_SIZE, PLAYER_ONE, PLAYER_TWO};

verus! {

/// The 62-symbol alphabet that labels rows and columns, one character per
/// index; its size is what caps the board edge at 62.
pub open spec fn label_alphabet() -> Seq<char> {
    "0123456789abcdefghijklmnopqrstuvwxyzABCDEFGHIJKLMNOPQRSTUVWXYZ"@
}

/// Label character for row or column `i`.
pub open spec fn label_char(i: int) -> char {
    label_alphabet()[i]
}

/// Glyph drawn for a cell's marker: a blank for an empty cell, `*` for the
/// first player, `x` for the second.
pub open spec fn glyph(dot: u8) -> char {
    if dot == PLAYER_ONE {
        '*'
    } else if dot == PLAYER_TWO {
        'x'
    } else {
        ' '
    }
}

/// Marker read back from a rendered glyph.
pub open spec fn glyph_marker(c: char) -> u8 {
    if c == '*' {
        PLAYER_ONE
    } else if c == 'x' {
        PLAYER_TWO
    } else {
        EMPTY
    }
}

/// The first `n` column labels, each followed by one separating space.
pub open spec fn label_text(n: int) -> Seq<char>
    decreases n,
{
    if n <= 0 {
        Seq::empty()
    } else {
        label_text(n - 1) + seq![label_char(n - 1), ' ']
    }
}

/// The glyphs of the first `n` cells of one row, each followed by one
/// separating space.
pub open spec fn cells_text(row: Seq<u8>, n: int) -> Seq<char>
    decreases n,
{
    if n <= 0 {
        Seq::empty()
    } else {
        cells_text(row, n - 1) + seq![glyph(row[n - 1]), ' ']
    }
}

/// A border line: two leading spaces, the column labels, two trailing
/// spaces, and the line break.
pub open spec fn border_line(size: int) -> Seq<char> {
    seq![' ', ' '] + label_text(size) + seq![' ', ' ', '\n']
}

/// The line for row `r`: the row's label at both ends around the row's cell
/// glyphs.
pub open spec fn row_line(v: GameView, r: int) -> Seq<char> {
    seq![label_char(r), ' '] + cells_text(v.cells[r], v.size as int) + seq![' ', label_char(r), '\n']
}

/// The lines of the first `n` rows, concatenated.
pub open spec fn rows_text(v: GameView, n: int) -> Seq<char>
    decreases n,
{
    if n <= 0 {
        Seq::empty()
    } else {
        rows_text(v, n - 1) + row_line(v, n - 1)
    }
}

/// The full rendering of a board: a labelled border, one line per row, and
/// the border again.
pub open spec fn render_spec(v: GameView) -> Seq<char> {
    border_line(v.size as int) + rows_text(v, v.size as int) + border_line(v.size as int)
}

/// The label text for `n` columns occupies two characters per column.
pub proof fn lemma_label_text_len(n: int)
    requires
        n >= 0,
    ensures
        label_text(n).len() == 2 * n,
    decreases n,
{
    if n > 0 {
        lemma_label_text_len(n - 1);
    }
}

/// The glyph text for `n` cells occupies two characters per cell.
pub proof fn lemma_cells_text_len(row: Seq<u8>, n: int)
    requires
        n >= 0,
    ensures
        cells_text(row, n).len() == 2 * n,
    decreases n,
{
    if n > 0 {
        lemma_cells_text_len(row, n - 1);
    }
}

/// Every line of the rendering, border or row, is `2 * size + 5` characters
/// long, the line break included.
pub proof fn lemma_line_len(v: GameView, r: int)
    requires
        v.wf(),
        0 <= r < v.size,
    ensures
        border_line(v.size as int).len() == 2 * v.size + 5,
        row_line(v, r).len() == 2 * v.size + 5,
{
    lemma_label_text_len(v.size as int);
    lemma_cells_text_len(v.cells[r], v.size as int);
}

/// The first `n` row lines together occupy `n * (2 * size + 5)` characters.
pub proof fn lemma_rows_text_len(v: GameView, n: int)
    requires
        v.wf(),
        0 <= n <= v.size,
    ensures
        rows_text(v, n).len() == n * (2 * v.size + 5),
    decreases n,
{
    let line = 2 * (v.size as int) + 5;
    if n > 0 {
        lemma_rows_text_len(v, n - 1);
        lemma_line_len(v, n - 1);
        assert(rows_text(v, n).len() == (n - 1) * line + line);
        assert((n - 1) * line + line == n * line) by (nonlinear_arith);
    } else {
        assert(rows_text(v, n).len() == 0);
    }
}

/// The whole rendering has `size + 2` lines of `2 * size + 5` characters
/// each: `size` row lines between the two border lines.
pub proof fn lemma_render_len(v: GameView)
    requires
        v.wf(),
    ensures
        render_spec(v).len() == (v.size + 2) * (2 * v.size + 5),
{
    lemma_label_text_len(v.size as int);
    lemma_rows_text_len(v, v.size as int);
    assert(v.size * (2 * v.size + 5) + 2 * (2 * v.size + 5) == (v.size + 2) * (2 * v.size + 5))
        by (nonlinear_arith);
}

/// Within one row's glyph text, cell `k`'s glyph stands at offset `2 * k`.
pub proof fn lemma_cells_text_index(row: Seq<u8>, n: int, k: int)
    requires
        0 <= k < n,
    ensures
        cells_text(row, n)[2 * k] == glyph(row[k]),
    decreases n,
{
    lemma_cells_text_len(row, n - 1);
    if k < n - 1 {
        lemma_cells_text_index(row, n - 1, k);
    }
}

/// Within the concatenated row lines, row `r`'s line starts at offset
/// `r * (2 * size + 5)`.
pub proof fn lemma_rows_text_index(v: GameView, n: int, r: int, k: int)
    requires
        v.wf(),
        0 <= r < n <= v.size,
        0 <= k < 2 * v.size + 5,
    ensures
        rows_text(v, n)[r * (2 * v.size + 5) + k] == row_line(v, r)[k],
    decreases n,
{
    lemma_rows_text_len(v, n - 1);
    lemma_line_len(v, r);
    let line = 2 * (v.size as int) + 5;
    let a = rows_text(v, n - 1);
    let b = row_line(v, n - 1);
    assert(rows_text(v, n) == a + b);
    if r < n - 1 {
        lemma_rows_text_index(v, n - 1, r, k);
        assert(0 <= r * line && r * line + line <= (n - 1) * line) by (nonlinear_arith)
            requires
                0 <= r < n - 1,
                line > 0,
        ;
        assert((a + b)[r * line + k] == a[r * line + k]);
    } else {
        assert(r == n - 1);
        assert((a + b)[(n - 1) * line + k] == b[k]);
    }
}

/// Where cell `(r, c)`'s glyph stands in the rendered text: past the top
/// border and the first `r` row lines, then past the row label, its
/// separator, and `c` earlier glyph-separator pairs.
pub open spec fn glyph_index(size: int, r: int, c: int) -> int {
    (r + 1) * (2 * size + 5) + 2 + 2 * c
}

/// Rendering loses no board information: reading back the glyph rendered
/// for any cell recovers exactly that cell's marker, so the whole grid can
/// be reconstructed from the text.
pub proof fn lemma_render_roundtrip(v: GameView, r: int, c: int)
    requires
        v.wf(),
        0 <= r < v.size,
        0 <= c < v.size,
    ensures
        0 <= glyph_index(v.size as int, r, c) < render_spec(v).len(),
        glyph_marker(render_spec(v)[glyph_index(v.size as int, r, c)]) == v.cells[r][c],
{
    let s = v.size as int;
    let line = 2 * s + 5;
    let idx = glyph_index(s, r, c);
    lemma_label_text_len(s);
    lemma_rows_text_len(v, s);
    lemma_line_len(v, r);
    lemma_render_len(v);
    assert((r + 1) * line == r * line + line) by (nonlinear_arith);
    assert(0 <= r * line && (r + 1) * line <= s * line) by (nonlinear_arith)
        requires
            0 <= r < s,
            line > 0,
    ;
    assert(render_spec(v)[idx] == rows_text(v, s)[r * line + 2 + 2 * c]);
    lemma_rows_text_index(v, s, r, 2 + 2 * c);
    lemma_cells_text_len(v.cells[r], s);
    assert(row_line(v, r)[2 + 2 * c] == cells_text(v.cells[r], s)[2 * c]);
    lemma_cells_text_index(v.cells[r], s, c);
}

/// Relies on `String::push`: appends the given character to the end of the
/// string.
#[verifier::external_body]
fn push_char(s: &mut String, c: char)
    ensures
        final(s)@ == old(s)@.push(c),
{
    s.push(c);
}

/// Relies on `range::Range`: `new(offset, length)` stores exactly that
/// offset and length, and `iter` walks the indices from `offset` up to
/// `offset + length`, in order.
#[verifier::external_body]
fn column_indices(n: usize) -> (r: Vec<usize>)
    ensures
        r@.len() == n,
        forall|k: int| 0 <= k < n ==> r@[k] == k,
{
    range::Range::new(0, n).iter().collect()
}

/// Label character for row or column `i`, from the 62-symbol alphabet.
fn label_glyph(i: usize) -> (c: char)
    requires
        i < 62,
    ensures
        c == label_char(i as int),
{
    let enc = "0123456789abcdefghijklmnopqrstuvwxyzABCDEFGHIJKLMNOPQRSTUVWXYZ";
    proof {
        reveal_strlit("0123456789abcdefghijklmnopqrstuvwxyzABCDEFGHIJKLMNOPQRSTUVWXYZ");
    }
    enc.get_char(i)
}

/// Glyph drawn for a cell's marker.
fn glyph_of(dot: u8) -> (c: char)
    ensures
        c == glyph(dot),
{
    if dot == PLAYER_ONE {
        '*'
    } else if dot == PLAYER_TWO {
        'x'
    } else {
        ' '
    }
}

/// Appends one border line, walking the column indices that the range
/// helper hands out.
#[verifier::loop_isolation(false)]
fn push_border(s: &mut String, size: usize)
    requires
        MIN_SIZE <= size <= MAX_SIZE,
    ensures
        final(s)@ == old(s)@ + border_line(size as int),
{
    push_char(s, ' ');
    push_char(s, ' ');
    let cols = column_indices(size);
    let mut k: usize = 0;
    while k < size
        invariant
            k <= size,
            s@ == old(s)@ + seq![' ', ' '] + label_text(k as int),
        decreases size - k,
    {
        let c = label_glyph(cols[k]);
        push_char(s, c);
        push_char(s, ' ');
        proof {
            assert(s@ =~= old(s)@ + seq![' ', ' '] + label_text(k + 1 as int));
        }
        k += 1;
    }
    push_char(s, ' ');
    push_char(s, ' ');
    push_char(s, '\n');
    proof {
        assert(s@ =~= old(s)@ + border_line(size as int));
    }
}

impl Game {
    /// Appends the line for row `r`.
    #[verifier::loop_isolation(false)]
    fn push_row(&self, s: &mut String, r: usize)
        requires
            self@.wf(),
            r < self@.size,
        ensures
            final(s)@ == old(s)@ + row_line(self@, r as int),
    {
        let label = label_glyph(r);
        push_char(s, label);
        push_char(s, ' ');
        let size = self.size();
        let mut c: usize = 0;
        while c < size
            invariant
                c <= size,
                s@ == old(s)@ + seq![label_char(r as int), ' '] + cells_text(
                    self@.cells[r as int],
                    c as int,
                ),
            decreases size - c,
        {
            let g = glyph_of(self.get_dot(r, c));
            push_char(s, g);
            push_char(s, ' ');
            proof {
                assert(s@ =~= old(s)@ + seq![label_char(r as int), ' '] + cells_text(
                    self@.cells[r as int],
                    c + 1 as int,
                ));
            }
            c += 1;
        }
        push_char(s, ' ');
        push_char(s, label);
        push_char(s, '\n');
        proof {
            assert(s@ =~= old(s)@ + row_line(self@, r as int));
        }
    }

    /// Renders the board as text: a border line listing the column labels,
    /// one line per row with the row's label at both ends and one glyph per
    /// cell, and the border line again.
    #[verifier::loop_isolation(false)]
    pub fn render(&self) -> (s: String)
        requires
            self@.wf(),
        ensures
            s@ == render_spec(self@),
    {
        let mut s = String::new();
        let size = self.size();
        push_border(&mut s, size);
        let mut r: usize = 0;
        while r < size
            invariant
                r <= size,
                s@ == border_line(size as int) + rows_text(self@, r as int),
            decreases size - r,
        {
            self.push_row(&mut s, r);
            proof {
                assert(s@ =~= border_line(size as int) + rows_text(self@, r + 1 as int));
            }
            r += 1;
        }
        push_border(&mut s, size);
        proof {
            assert(s@ =~= render_spec(self@));
        }
        s
    }
}

} // verus!
