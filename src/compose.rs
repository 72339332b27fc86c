//! The compositor: lays glyphs out left to right into five output rows.
use vstd::prelude::*;
use crate::font::{is_letter, letter_index, Font, LETTERS, ROWS};

verus! {

/// The blank column.
pub const SPACE: u8 = 32;

/// The underline stroke, which a following glyph may cover when squashing.
pub const UNDERSCORE: u8 = 95;

/// The deepest squash that callers may ask for.
pub const MAX_SQUASH: usize = 3;

/// `candidate` may replace `existing`: a blank yields to anything, and an
/// underline yields to any stroke that is not a blank.
pub open spec fn overwrites(existing: u8, candidate: u8) -> bool {
    existing == SPACE || (candidate != SPACE && existing == UNDERSCORE)
}

/// A run of `n` blank columns.
pub open spec fn pad(n: nat) -> Seq<u8> {
    Seq::new(n, |_i: int| SPACE)
}

/// Counts, from `p` on, the trailing columns of `line` that `lead` may
/// overwrite, walking back from the end, stopping at the first that it may
/// not, at `squash` columns, or at the start of `line`.
pub open spec fn probe(line: Seq<u8>, lead: u8, squash: nat, p: nat) -> nat
    decreases squash - p,
{
    if p < squash && p < line.len() && overwrites(line[line.len() - p - 1], lead) {
        probe(line, lead, squash, p + 1)
    } else {
        p
    }
}

/// How many trailing columns of `line` take part in the overlap with `next`:
/// each is tested against the first column of `next`.
pub open spec fn popped(line: Seq<u8>, next: Seq<u8>, squash: nat) -> nat {
    if next.len() == 0 {
        0
    } else {
        probe(line, next[0], squash, 0)
    }
}

/// `line` with its last `p` columns overlaid by columns `squash - p` up to
/// `squash` of `next`, where the overwrite rule lets them in.
pub open spec fn overlay(line: Seq<u8>, next: Seq<u8>, squash: nat, p: nat) -> Seq<u8> {
    Seq::new(
        line.len(),
        |j: int|
            {
                let k = j - (line.len() - p) + (squash - p);
                if line.len() - p <= j && k < next.len() && overwrites(line[j], next[k]) {
                    next[k]
                } else {
                    line[j]
                }
            },
    )
}

/// The columns of `next` that are appended after the overlap: all from
/// column `squash` on.
pub open spec fn tail_from(next: Seq<u8>, squash: nat) -> Seq<u8> {
    if squash < next.len() {
        next.subrange(squash as int, next.len() as int)
    } else {
        seq![]
    }
}

/// `line` followed by `next`, squashed together by up to `squash` columns.
pub open spec fn merged(line: Seq<u8>, next: Seq<u8>, squash: nat) -> Seq<u8> {
    overlay(line, next, squash, popped(line, next, squash)) + tail_from(next, squash)
}

/// Whether `candidate` may replace `existing` where two glyphs overlap.
pub fn can_overwrite(existing: u8, candidate: u8) -> (r: bool)
    ensures
        r == overwrites(existing, candidate),
{
    if existing == SPACE {
        return true;
    }
    if candidate == SPACE {
        return false;
    }
    existing == UNDERSCORE
}

/// Appends `next` to `line`, overlapping up to `squash` columns of the two.
pub fn squash_merge(line: &mut Vec<u8>, next: &[u8], squash: usize)
    ensures
        final(line)@ == merged(old(line)@, next@, squash as nat),
{
    let ghost orig = line@;
    let line_len = line.len();
    let mut p: usize = 0;
    if next.len() > 0 {
        let lead = next[0];
        while p < squash && p < line_len && can_overwrite(line[line_len - p - 1], lead)
            invariant
                line@ == orig,
                line_len == orig.len(),
                p <= squash,
                p <= line_len,
                lead == next@[0],
                probe(orig, lead, squash as nat, p as nat) == probe(orig, lead, squash as nat, 0),
            decreases squash - p,
        {
            p = p + 1;
        }
    }
    assert(p == popped(orig, next@, squash as nat));
    let ghost over = overlay(orig, next@, squash as nat, p as nat);
    let start = squash - p;
    let base = line_len - p;
    for i in 0..p
        invariant
            line@.len() == line_len,
            line_len == orig.len(),
            base == line_len - p,
            start == squash - p,
            over == overlay(orig, next@, squash as nat, p as nat),
            forall|j: int| 0 <= j < base + i ==> line@[j] == over[j],
            forall|j: int| base + i <= j < line_len ==> line@[j] == orig[j],
    {
        let k = start + i;
        if k < next.len() {
            let cand = next[k];
            if can_overwrite(line[base + i], cand) {
                line.set(base + i, cand);
            }
        }
    }
    assert(line@ =~= over);
    let from = if squash < next.len() {
        squash
    } else {
        next.len()
    };
    for k in from..next.len()
        invariant
            line@ == over + next@.subrange(from as int, k as int),
    {
        line.push(next[k]);
        assert(line@ =~= over + next@.subrange(from as int, k + 1));
    }
    assert(next@.subrange(from as int, next@.len() as int) =~= tail_from(next@, squash as nat));
}

/// A glyph row put after `row`: directly at the start of a line or after a
/// word gap, else after `between` blanks, or squashed when `squash > 0`.
pub open spec fn placed(row: Seq<u8>, g: Seq<u8>, first: bool, between: nat, squash: nat) -> Seq<u8> {
    if first {
        row + g
    } else if squash == 0 {
        row + pad(between) + g
    } else {
        merged(row, g, squash)
    }
}

/// Appends `n` blank columns to `row`.
fn push_blanks(row: &mut Vec<u8>, n: usize)
    ensures
        final(row)@ == old(row)@ + pad(n as nat),
{
    let ghost orig = row@;
    for i in 0..n
        invariant
            row@ == orig + pad(i as nat),
    {
        row.push(SPACE);
        assert(row@ =~= orig + pad((i + 1) as nat));
    }
    assert(row@ =~= orig + pad(n as nat));
}

/// Appends the columns of `g` to `row`.
fn push_columns(row: &mut Vec<u8>, g: &[u8])
    ensures
        final(row)@ == old(row)@ + g@,
{
    let ghost orig = row@;
    for k in 0..g.len()
        invariant
            row@ == orig + g@.subrange(0, k as int),
    {
        row.push(g[k]);
        assert(row@ =~= orig + g@.subrange(0, k + 1));
    }
    assert(g@.subrange(0, g@.len() as int) =~= g@);
}

/// Puts the glyph row `g` after `row`, as [`placed`] describes.
pub fn place_glyph(row: &mut Vec<u8>, g: &[u8], first: bool, between: usize, squash: usize)
    ensures
        final(row)@ == placed(old(row)@, g@, first, between as nat, squash as nat),
{
    if first {
        push_columns(row, g);
    } else if squash == 0 {
        push_blanks(row, between);
        push_columns(row, g);
    } else {
        squash_merge(row, g, squash);
    }
}

/// Characters that are dropped without a trace: control characters, DEL
/// and U+00FF.
pub open spec fn skipped(c: char) -> bool {
    c < ' ' || c == '\x7f' || c == '\u{ff}'
}

/// Row `r` after the character `c`, given whether `c` stands line-initial:
/// a letter puts its glyph row, any other kept character a word gap of
/// `spaces` blanks.
pub open spec fn step_row(
    font: Seq<Seq<Seq<u8>>>,
    row: Seq<u8>,
    first: bool,
    c: char,
    r: int,
    spaces: nat,
    between: nat,
    squash: nat,
) -> Seq<u8> {
    if skipped(c) {
        row
    } else if !is_letter(c) {
        row + pad(spaces)
    } else {
        placed(row, font[letter_index(c)][r], first, between, squash)
    }
}

/// Whether the next glyph stands line-initial after the character `c`.
pub open spec fn step_first(first: bool, c: char) -> bool {
    if skipped(c) {
        first
    } else {
        !is_letter(c)
    }
}

/// Whether a glyph after `line` stands line-initial: at the start of the
/// line, or after a word gap.
pub open spec fn line_initial(line: Seq<char>) -> bool
    decreases line.len(),
{
    if line.len() == 0 {
        true
    } else {
        step_first(line_initial(line.drop_last()), line.last())
    }
}

/// Row `r` of the rendering of one input line.
pub open spec fn row_of(
    font: Seq<Seq<Seq<u8>>>,
    line: Seq<char>,
    r: int,
    spaces: nat,
    between: nat,
    squash: nat,
) -> Seq<u8>
    decreases line.len(),
{
    if line.len() == 0 {
        seq![]
    } else {
        let pre = line.drop_last();
        step_row(
            font,
            row_of(font, pre, r, spaces, between, squash),
            line_initial(pre),
            line.last(),
            r,
            spaces,
            between,
            squash,
        )
    }
}

/// The five rows of the rendering of one input line.
pub open spec fn line_rows(
    font: Seq<Seq<Seq<u8>>>,
    line: Seq<char>,
    spaces: nat,
    between: nat,
    squash: nat,
) -> Seq<Seq<u8>> {
    Seq::new(ROWS as nat, |r: int| row_of(font, line, r, spaces, between, squash))
}

/// The contents of a sequence of byte rows.
pub open spec fn views(rows: Seq<Vec<u8>>) -> Seq<Seq<u8>> {
    rows.map_values(|row: Vec<u8>| row@)
}

/// Five empty rows.
fn empty_rows() -> (rows: Vec<Vec<u8>>)
    ensures
        views(rows@) == Seq::new(ROWS as nat, |r: int| Seq::<u8>::empty()),
{
    let mut rows: Vec<Vec<u8>> = Vec::new();
    for r in 0..ROWS
        invariant
            rows@.len() == r,
            forall|q: int| 0 <= q < r ==> (#[trigger] rows@[q])@ == Seq::<u8>::empty(),
    {
        rows.push(Vec::new());
    }
    assert(views(rows@) =~= Seq::new(ROWS as nat, |r: int| Seq::<u8>::empty()));
    rows
}

/// Adds the character `c` to the five rows of the line being rendered;
/// returns whether the next glyph stands line-initial.
pub fn add_char(
    font: &Font,
    rows: &mut Vec<Vec<u8>>,
    first: bool,
    c: char,
    spaces: usize,
    between: usize,
    squash: usize,
) -> (next_first: bool)
    requires
        font.wf(),
        old(rows).len() == ROWS,
    ensures
        final(rows).len() == ROWS,
        forall|r: int|
            0 <= r < ROWS ==> (#[trigger] final(rows)@[r])@ == step_row(
                font@,
                old(rows)@[r]@,
                first,
                c,
                r,
                spaces as nat,
                between as nat,
                squash as nat,
            ),
        next_first == step_first(first, c),
{
    if c < ' ' || c == '\x7f' || c == '\u{ff}' {
        return first;
    }
    let ghost orig = views(rows@);
    let is_lower = 'a' <= c && c <= 'z';
    let is_upper = 'A' <= c && c <= 'Z';
    let letter: usize = if is_lower {
        (c as u32 - 'a' as u32) as usize
    } else if is_upper {
        (c as u32 - 'A' as u32) as usize
    } else {
        LETTERS
    };
    for r in 0..ROWS
        invariant
            rows.len() == ROWS,
            font.wf(),
            letter == LETTERS <==> !is_letter(c),
            letter < LETTERS ==> letter == letter_index(c),
            !skipped(c),
            forall|q: int|
                0 <= q < r ==> (#[trigger] rows@[q])@ == step_row(
                    font@,
                    orig[q],
                    first,
                    c,
                    q,
                    spaces as nat,
                    between as nat,
                    squash as nat,
                ),
            forall|q: int| r <= q < ROWS ==> (#[trigger] rows@[q])@ == orig[q],
            orig.len() == ROWS,
            letter <= LETTERS,
    {
        if letter == LETTERS {
            push_blanks(&mut rows[r], spaces);
        } else {
            let g = font.glyph_row(letter, r);
            place_glyph(&mut rows[r], g.as_slice(), first, between, squash);
        }
    }
    letter == LETTERS
}

/// The characters after the last newline of `s`: the line still open.
pub open spec fn open_line(s: Seq<char>) -> Seq<char>
    decreases s.len(),
{
    if s.len() == 0 {
        seq![]
    } else if s.last() == '\n' {
        seq![]
    } else {
        open_line(s.drop_last()).push(s.last())
    }
}

/// The lines of `s` that a newline ends, in order.
pub open spec fn closed_lines(s: Seq<char>) -> Seq<Seq<char>>
    decreases s.len(),
{
    if s.len() == 0 {
        seq![]
    } else if s.last() == '\n' {
        closed_lines(s.drop_last()).push(open_line(s.drop_last()))
    } else {
        closed_lines(s.drop_last())
    }
}

/// The lines of `s`, split at newlines: a final line without a newline
/// counts too, but the empty text after a final newline does not.
pub open spec fn lines(s: Seq<char>) -> Seq<Seq<char>> {
    if open_line(s).len() > 0 {
        closed_lines(s).push(open_line(s))
    } else {
        closed_lines(s)
    }
}

/// The output rows for a sequence of input lines: five for each line.
pub open spec fn rendered(
    font: Seq<Seq<Seq<u8>>>,
    ls: Seq<Seq<char>>,
    spaces: nat,
    between: nat,
    squash: nat,
) -> Seq<Seq<u8>>
    decreases ls.len(),
{
    if ls.len() == 0 {
        seq![]
    } else {
        rendered(font, ls.drop_last(), spaces, between, squash) + line_rows(
            font,
            ls.last(),
            spaces,
            between,
            squash,
        )
    }
}

/// The output rows for the text `s`.
pub open spec fn render_text(
    font: Seq<Seq<Seq<u8>>>,
    s: Seq<char>,
    spaces: nat,
    between: nat,
    squash: nat,
) -> Seq<Seq<u8>> {
    rendered(font, lines(s), spaces, between, squash)
}

/// Moves the rows of a finished line to the end of `out`.
fn flush(out: &mut Vec<Vec<u8>>, rows: &mut Vec<Vec<u8>>)
    ensures
        views(final(out)@) == views(old(out)@) + views(old(rows)@),
{
    let ghost start = views(out@);
    let ghost moved = views(rows@);
    out.append(rows);
    assert(views(out@) =~= start + moved);
}

/// Renders `text` in `font`, five rows for each line of it: letters as
/// glyphs, other characters as word gaps of `spaces` blanks, glyphs after
/// the first of a word set `between` blanks apart, or squashed together by
/// up to `squash` columns when `squash > 0`.
pub fn render(font: &Font, text: &str, spaces: usize, between: usize, squash: usize) -> (out: Vec<
    Vec<u8>,
>)
    requires
        font.wf(),
        squash <= MAX_SQUASH,
    ensures
        views(out@) == render_text(font@, text@, spaces as nat, between as nat, squash as nat),
{
    let mut out: Vec<Vec<u8>> = Vec::new();
    let mut rows = empty_rows();
    let mut first = true;
    let mut open = false;
    assert(views(rows@) =~= line_rows(font@, seq![], spaces as nat, between as nat, squash as nat));
    let ghost mut seen: Seq<char> = seq![];
    for c in it: text.chars()
        invariant
            font.wf(),
            it.seq() == text@,
            seen == text@.subrange(0, it.index()),
            views(out@) == rendered(
                font@,
                closed_lines(seen),
                spaces as nat,
                between as nat,
                squash as nat,
            ),
            views(rows@) == line_rows(
                font@,
                open_line(seen),
                spaces as nat,
                between as nat,
                squash as nat,
            ),
            first == line_initial(open_line(seen)),
            open == (open_line(seen).len() > 0),
            rows.len() == ROWS,
    {
        let ghost before = seen;
        proof {
            seen = seen.push(c);
            assert(seen.drop_last() =~= before);
        }
        if c == '\n' {
            let ghost done = open_line(before);
            flush(&mut out, &mut rows);
            rows = empty_rows();
            first = true;
            open = false;
            proof {
                assert(views(rows@) =~= line_rows(
                    font@,
                    seq![],
                    spaces as nat,
                    between as nat,
                    squash as nat,
                ));
                assert(closed_lines(seen).drop_last() =~= closed_lines(before));
                assert(views(out@) =~= rendered(
                    font@,
                    closed_lines(seen),
                    spaces as nat,
                    between as nat,
                    squash as nat,
                ));
                assert(views(rows@) =~= line_rows(
                    font@,
                    open_line(seen),
                    spaces as nat,
                    between as nat,
                    squash as nat,
                ));
            }
        } else {
            let ghost cur = open_line(before);
            first = add_char(font, &mut rows, first, c, spaces, between, squash);
            open = true;
            proof {
                assert(open_line(seen).drop_last() =~= cur);
                assert forall|r: int| 0 <= r < ROWS implies (#[trigger] rows@[r])@ == row_of(
                    font@,
                    open_line(seen),
                    r,
                    spaces as nat,
                    between as nat,
                    squash as nat,
                ) by {
                    assert(row_of(font@, cur, r, spaces as nat, between as nat, squash as nat)
                        == line_rows(font@, cur, spaces as nat, between as nat, squash as nat)[r]);
                }
                assert(views(rows@) =~= line_rows(
                    font@,
                    open_line(seen),
                    spaces as nat,
                    between as nat,
                    squash as nat,
                ));
            }
        }
    }
    assert(seen =~= text@);
    if open {
        flush(&mut out, &mut rows);
        assert(lines(seen).drop_last() =~= closed_lines(seen));
    }
    out
}

} // verus!
