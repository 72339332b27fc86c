//! Facts about the compositor that relate its parts.
use vstd::prelude::*;
use crate::compose::{
    closed_lines, line_initial, line_rows, lines, open_line, overwrites, pad, render_text,
    rendered, row_of, skipped, SPACE,
};
use crate::font::{is_letter, letter_index, Font, ROWS};

verus! {

/// A letter rendered alone comes out as its glyph, row for row.
pub proof fn lemma_single_letter(font: &Font, c: char, spaces: nat, between: nat, squash: nat)
    requires
        font.wf(),
        is_letter(c),
    ensures
        render_text(font@, seq![c], spaces, between, squash) == font@[letter_index(c)],
{
    let s = seq![c];
    assert(s.drop_last() =~= Seq::<char>::empty());
    assert(s.last() == c && c != '\n');
    assert(open_line(Seq::<char>::empty()) == Seq::<char>::empty());
    assert(closed_lines(Seq::<char>::empty()) == Seq::<Seq<char>>::empty());
    assert(open_line(s) =~= s);
    assert(closed_lines(s) =~= Seq::<Seq<char>>::empty());
    assert(lines(s) =~= seq![s]);
    assert(lines(s).drop_last() =~= Seq::<Seq<char>>::empty());
    assert forall|r: int| 0 <= r < ROWS implies #[trigger] row_of(
        font@,
        s,
        r,
        spaces,
        between,
        squash,
    ) == font@[letter_index(c)][r] by {
        assert(row_of(font@, s.drop_last(), r, spaces, between, squash) == Seq::<u8>::empty());
        assert(line_initial(s.drop_last()));
        assert(!skipped(c));
        assert(Seq::<u8>::empty() + font@[letter_index(c)][r] =~= font@[letter_index(c)][r]);
    }
    let ls = lines(s);
    assert(ls.last() == s);
    assert(rendered(font@, ls.drop_last(), spaces, between, squash) == Seq::<Seq<u8>>::empty());
    assert(font@[letter_index(c)].len() == ROWS);
    assert(line_rows(font@, s, spaces, between, squash) =~= font@[letter_index(c)]);
    assert(render_text(font@, s, spaces, between, squash) =~= font@[letter_index(c)]);
}

/// Every input line gives five output rows.
pub proof fn lemma_rendered_len(
    font: Seq<Seq<Seq<u8>>>,
    ls: Seq<Seq<char>>,
    spaces: nat,
    between: nat,
    squash: nat,
)
    ensures
        rendered(font, ls, spaces, between, squash).len() == ROWS * ls.len(),
    decreases ls.len(),
{
    if ls.len() > 0 {
        lemma_rendered_len(font, ls.drop_last(), spaces, between, squash);
    }
}

/// The output has five rows for each line of the text, and a text that is
/// not empty has at least one line.
pub proof fn lemma_output_rows(
    font: &Font,
    s: Seq<char>,
    spaces: nat,
    between: nat,
    squash: nat,
)
    ensures
        render_text(font@, s, spaces, between, squash).len() == ROWS * lines(s).len(),
        s.len() > 0 ==> lines(s).len() >= 1,
{
    lemma_rendered_len(font@, lines(s), spaces, between, squash);
}

/// A kept character that is no letter adds exactly `spaces` blank columns to
/// each of the five rows, and makes the next glyph line-initial.
pub proof fn lemma_word_gap(
    font: &Font,
    line: Seq<char>,
    c: char,
    spaces: nat,
    between: nat,
    squash: nat,
)
    requires
        !skipped(c),
        !is_letter(c),
    ensures
        line_initial(line.push(c)),
        forall|r: int|
            0 <= r < ROWS ==> #[trigger] row_of(font@, line.push(c), r, spaces, between, squash)
                == row_of(font@, line, r, spaces, between, squash) + pad(spaces),
{
    assert(line.push(c).drop_last() =~= line);
}

/// Without squashing, two letters in a row are set exactly `between` blank
/// columns apart on each of the five rows.
pub proof fn lemma_between(
    font: &Font,
    line: Seq<char>,
    a: char,
    b: char,
    spaces: nat,
    between: nat,
)
    requires
        is_letter(a),
        is_letter(b),
    ensures
        forall|r: int|
            0 <= r < ROWS ==> #[trigger] row_of(font@, line.push(a).push(b), r, spaces, between, 0)
                == row_of(font@, line.push(a), r, spaces, between, 0) + pad(between)
                + font@[letter_index(b)][r],
{
    assert(line.push(a).drop_last() =~= line);
    assert(line.push(a).push(b).drop_last() =~= line.push(a));
}

/// The overwrite rule is one-sided: a blank yields to any other column, and
/// no other column yields to a blank.
pub proof fn lemma_overwrite_one_sided(x: u8)
    requires
        x != SPACE,
    ensures
        overwrites(SPACE, x),
        !overwrites(x, SPACE),
{
}

} // verus!
