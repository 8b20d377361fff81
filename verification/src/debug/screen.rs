//! The text-mode screen as text.

use vstd::prelude::*;

use crate::text::{is_space, space};

verus! {

/// Where the characters of a text mode are in display memory: every other
/// byte of rows of `row_bytes` from `start` on, addresses wrapping at `wrap`.
#[derive(Clone, Copy, Debug)]
pub struct TextGeometry {
    pub cols: usize,
    pub rows: usize,
    pub start: usize,
    pub row_bytes: usize,
    pub wrap: usize,
}

impl TextGeometry {
    /// Where a character is.
    pub open spec fn cell(self, row: int, col: int) -> usize {
        ((self.start + row * self.row_bytes + 2 * col) as usize) & self.wrap
    }

    /// Every character is in the display memory.
    pub open spec fn within(self, len: int) -> bool {
        &&& self.start + self.rows * self.row_bytes + 2 * self.cols <= usize::MAX
        &&& forall|r: int, c: int|
            0 <= r < self.rows && 0 <= c < self.cols ==> #[trigger] self.cell(r, c) < len
    }
}

/// A text without the blanks at its end.
pub open spec fn end_trimmed(text: Seq<char>) -> Seq<char>
    decreases text.len(),
{
    if text.len() > 0 && is_space(text.last()) {
        end_trimmed(text.drop_last())
    } else {
        text
    }
}

fn trim_end(chars: Vec<char>) -> (text: String)
    ensures
        text@ == end_trimmed(chars@),
{
    let mut n: usize = chars.len();
    assert(chars@.take(n as int) =~= chars@);
    while n > 0 && space(chars[n - 1])
        invariant
            n <= chars@.len(),
            end_trimmed(chars@) == end_trimmed(chars@.take(n as int)),
        decreases n,
    {
        assert(chars@.take(n as int).drop_last() =~= chars@.take(n - 1));
        n = n - 1;
    }
    let mut text = String::new();
    let mut i: usize = 0;
    assert(text@ =~= chars@.take(0));
    while i < n
        invariant
            i <= n <= chars@.len(),
            text@ == chars@.take(i as int),
        decreases n - i,
    {
        text.push(chars[i]);
        i = i + 1;
        assert(text@ =~= chars@.take(i as int));
    }
    text
}

/// The characters of a row.
pub open spec fn row_chars(vram: Seq<u8>, g: TextGeometry, glyphs: Seq<char>, row: int) -> Seq<char> {
    Seq::new(g.cols as nat, |c: int| glyphs[vram[g.cell(row, c) as int] as int])
}

fn row_text(
    vram: &[u8],
    g: &TextGeometry,
    glyphs: &Vec<char>,
    Ghost(row): Ghost<int>,
    at: usize,
) -> (text: String)
    requires
        glyphs@.len() == 256,
        g.within(vram@.len() as int),
        0 <= row < g.rows,
        at == g.start + row * g.row_bytes,
        at + 2 * g.cols <= usize::MAX,
    ensures
        text@ == end_trimmed(row_chars(vram@, *g, glyphs@, row)),
{
    let mut chars: Vec<char> = Vec::new();
    let mut c: usize = 0;
    while c < g.cols
        invariant
            glyphs@.len() == 256,
            g.within(vram@.len() as int),
            0 <= row < g.rows,
            c <= g.cols,
            at == g.start + row * g.row_bytes,
            at + 2 * g.cols <= usize::MAX,
            chars@.len() == c,
            forall|j: int| 0 <= j < c ==> chars@[j] == row_chars(vram@, *g, glyphs@, row)[j],
        decreases g.cols - c,
    {
        let off: usize = (at + 2 * c) & g.wrap;
        assert(off == g.cell(row, c as int));
        chars.push(glyphs[vram[off] as usize]);
        c = c + 1;
    }
    assert(chars@ =~= row_chars(vram@, *g, glyphs@, row));
    trim_end(chars)
}

/// The text-mode screen, a line for each row without the blanks at its end;
/// `glyphs` has the character of each byte.
pub fn screen_text(vram: &[u8], g: &TextGeometry, glyphs: &Vec<char>) -> (lines: Vec<String>)
    requires
        glyphs@.len() == 256,
        g.within(vram@.len() as int),
    ensures
        lines@.len() == g.rows,
        forall|r: int|
            0 <= r < g.rows ==> (#[trigger] lines@[r])@ == end_trimmed(
                row_chars(vram@, *g, glyphs@, r),
            ),
{
    let mut lines: Vec<String> = Vec::new();
    let mut at: usize = g.start;
    let mut r: usize = 0;
    assert(g.start <= usize::MAX - 2 * g.cols) by (nonlinear_arith)
        requires
            g.start + g.rows * g.row_bytes + 2 * g.cols <= usize::MAX,
            g.rows >= 0,
            g.row_bytes >= 0,
    ;
    while r < g.rows
        invariant
            glyphs@.len() == 256,
            g.within(vram@.len() as int),
            r <= g.rows,
            at == g.start + r * g.row_bytes,
            at + 2 * g.cols <= usize::MAX,
            lines@.len() == r,
            forall|j: int|
                0 <= j < r ==> (#[trigger] lines@[j])@ == end_trimmed(
                    row_chars(vram@, *g, glyphs@, j),
                ),
        decreases g.rows - r,
    {
        let line = row_text(vram, g, glyphs, Ghost(r as int), at);
        lines.push(line);
        assert(at + g.row_bytes + 2 * g.cols <= usize::MAX && at + g.row_bytes == g.start + (r + 1)
            * g.row_bytes) by (nonlinear_arith)
            requires
                at == g.start + r * g.row_bytes,
                r + 1 <= g.rows,
                g.row_bytes >= 0,
                g.start + g.rows * g.row_bytes + 2 * g.cols <= usize::MAX,
        ;
        at = at + g.row_bytes;
        r = r + 1;
    }
    lines
}

} // verus!
