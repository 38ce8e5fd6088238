//! Width-bounded rendering of raw input lines.
//!
//! A raw line (text plus an optional trailing line terminator) is made
//! terminal-safe for a screen of `cols` usable columns: if its visible text
//! (terminator excluded) would not fit, it is cut to the first `cols - 1`
//! characters and a single terminator is appended; otherwise it passes
//! through unchanged.

use vstd::prelude::*;

verus! {

/// The visible text of a line: the line without its trailing terminator,
/// if it has one.
pub open spec fn line_body(line: Seq<char>) -> Seq<char> {
    if line.len() > 0 && line.last() == '\n' {
        line.drop_last()
    } else {
        line
    }
}

/// What rendering a raw line for a screen `cols` columns wide produces:
/// lines whose visible text is too wide are cut to `cols - 1` characters
/// plus a terminator; all others pass through unchanged.
pub open spec fn rendered(line: Seq<char>, cols: int) -> Seq<char> {
    if line_body(line).len() >= cols {
        line.subrange(0, cols - 1).push('\n')
    } else {
        line
    }
}

/// Render one raw line for a terminal `cols` columns wide.
pub fn render_line(line: &str, cols: usize) -> (r: String)
    requires
        cols >= 1,
    ensures
        r@ == rendered(line@, cols as int),
{
    let n = line.unicode_len();
    let body_len = if n > 0 && line.get_char(n - 1) == '\n' {
        n - 1
    } else {
        n
    };
    if body_len >= cols {
        let cut = line.substring_char(0, cols - 1);
        let mut r = String::from_str(cut);
        r.append("\n");
        proof {
            reveal_strlit("\n");
            assert(r@ =~= rendered(line@, cols as int));
        }
        r
    } else {
        let r = line.to_owned();
        r
    }
}

/// A run of `n` dashes.
pub open spec fn dashes(n: int) -> Seq<char>
    decreases n,
{
    if n <= 0 {
        Seq::empty()
    } else {
        dashes(n - 1).push('-')
    }
}

/// The decorative header of a space: the pattern text between brackets,
/// padded with dashes to exactly `cols - 1` visible characters, then a
/// line terminator.
pub open spec fn header_text(pattern: Seq<char>, cols: int) -> Seq<char> {
    let base = "---[ "@ + pattern + " ]"@;
    let fit = if base.len() >= cols - 1 {
        base.subrange(0, cols - 1)
    } else {
        base + dashes(cols - 1 - base.len())
    };
    fit.push('\n')
}

/// Build the header line for a space armed with `pattern`.
pub fn make_header(pattern: &str, cols: usize) -> (r: String)
    requires
        cols >= 1,
    ensures
        r@ == header_text(pattern@, cols as int),
{
    let mut base = String::from_str("---[ ");
    base.append(pattern);
    base.append(" ]");
    let ghost base0 = base@;
    let blen = base.as_str().unicode_len();
    let width = cols - 1;
    if blen >= width {
        let cut = base.as_str().substring_char(0, width);
        let mut r = String::from_str(cut);
        r.append("\n");
        proof {
            reveal_strlit("\n");
            assert(r@ =~= header_text(pattern@, cols as int));
        }
        r
    } else {
        let mut i = blen;
        while i < width
            invariant
                blen <= i <= width,
                base0.len() == blen,
                base@ == base0 + dashes(i - blen),
            decreases width - i,
        {
            base.append("-");
            proof {
                reveal_strlit("-");
                assert(base@ =~= base0 + dashes(i + 1 - blen));
            }
            i = i + 1;
        }
        base.append("\n");
        proof {
            reveal_strlit("\n");
            assert(base@ =~= header_text(pattern@, cols as int));
        }
        base
    }
}

/// The rendered line always fits: its visible text is strictly narrower
/// than the screen.
pub proof fn lemma_rendered_fits(line: Seq<char>, cols: int)
    requires
        cols >= 1,
    ensures
        line_body(rendered(line, cols)).len() < cols,
{
    if line_body(line).len() >= cols {
        let r = line.subrange(0, cols - 1).push('\n');
        assert(r.last() == '\n');
        assert(line_body(r) =~= line.subrange(0, cols - 1));
    }
}

/// Rendering is idempotent: a line that already came out of the renderer
/// passes through a second rendering at the same width unchanged.
pub proof fn lemma_rendered_idempotent(line: Seq<char>, cols: int)
    requires
        cols >= 1,
    ensures
        rendered(rendered(line, cols), cols) == rendered(line, cols),
{
    lemma_rendered_fits(line, cols);
}

} // verus!
