//! The Sub-Zero block font: one five-row glyph for each Latin letter.
use vstd::prelude::*;
use vstd::string::StringSliceAdditionalSpecFns;

verus! {

/// Number of letters in the font, `A` to `Z`.
pub const LETTERS: usize = 26;

/// Number of rows in every glyph.
pub const ROWS: usize = 5;

/// A glyph table: for each letter, its rows of printable bytes, top row first.
pub struct Font {
    glyphs: Vec<Vec<Vec<u8>>>,
}

/// Is `c` an ASCII letter, of either case?
pub open spec fn is_letter(c: char) -> bool {
    ('a' <= c && c <= 'z') || ('A' <= c && c <= 'Z')
}

/// The position of a letter in the alphabet, case ignored.
pub open spec fn letter_index(c: char) -> int {
    if 'a' <= c && c <= 'z' {
        c as int - 'a' as int
    } else {
        c as int - 'A' as int
    }
}

impl View for Font {
    type V = Seq<Seq<Seq<u8>>>;

    closed spec fn view(&self) -> Seq<Seq<Seq<u8>>> {
        self.glyphs@.map_values(|g: Vec<Vec<u8>>| g@.map_values(|r: Vec<u8>| r@))
    }
}

/// The bytes of one glyph row.
fn row_bytes(s: &str) -> (r: Vec<u8>)
    ensures
        r@ == s.spec_bytes(),
{
    vstd::slice::slice_to_vec(s.as_bytes())
}

/// A glyph from its five rows.
fn glyph(r0: &str, r1: &str, r2: &str, r3: &str, r4: &str) -> (g: Vec<Vec<u8>>)
    ensures
        g@.len() == ROWS,
{
    vec![row_bytes(r0), row_bytes(r1), row_bytes(r2), row_bytes(r3), row_bytes(r4)]
}

impl Font {
    /// A table with a glyph of exactly five rows for each of the 26 letters.
    pub open spec fn wf(&self) -> bool {
        &&& self@.len() == LETTERS
        &&& forall|l: int| 0 <= l < LETTERS ==> #[trigger] self@[l].len() == ROWS
    }

    /// The Sub-Zero font, letters `A` to `Z` in order.
    pub fn sub_zero() -> (f: Font)
        ensures
            f.wf(),
    {
        let glyphs = vec![
            glyph(r" ______  ", r"/\  __ \ ", r"\ \  __ \", r"\ \_\ \_\", r" \/_/\/_/"),
            glyph(r" ______  ", r"/\  == \ ", r"\ \  __< ", r"\ \_____\", r" \/_____/"),
            glyph(r" ______  ", r"/\  ___\ ", r"\ \ \____", r"\ \_____\", r" \/_____/"),
            glyph(r" _____   ", r"/\  __-. ", r"\ \ \/\ \", r"\ \____- ", r" \/____/ "),
            glyph(r" ______  ", r"/\  ___\ ", r"\ \  __\ ", r"\ \_____\", r" \/_____/"),
            glyph(r" ______  ", r"/\  ___\ ", r"\ \  __\ ", r"\ \_\    ", r" \/_/    "),
            glyph(r" ______  ", r"/\  ___\ ", r"\ \ \__ \", r"\ \_____\", r" \/_____/"),
            glyph(r" __  __  ", r"/\ \_\ \ ", r"\ \  __ \", r"\ \_\ \_\", r" \/_/\/_/"),
            glyph(r" __  ", r"/\ \ ", r"\ \ \", r"\ \_\", r" \/_/"),
            glyph(r"    __  ", r"   /\ \ ", r"  _\_\ \", r"/\_____\", r"\/_____/"),
            glyph(r" __  __  ", r"/\ \/ /  ", r#"\ \  _"-."#, r"\ \_\ \_\", r" \/_/\/_/"),
            glyph(r" __      ", r"/\ \     ", r"\ \ \____", r"\ \_____\", r" \/_____/"),
            glyph(r" __    __  ", r#"/\ "-./  \ "#, r"\ \ \-./\ \", r"\ \_\ \ \_\", r" \/_/  \/_/"),
            glyph(r" __   __  ", r#"/\ "-.\ \ "#, r"\ \ \-.  \", r#"\ \_\\"\_\"#, r" \/_/ \/_/"),
            glyph(r" ______  ", r"/\  __ \ ", r"\ \ \/\ \", r"\ \_____\", r" \/_____/"),
            glyph(r" ______  ", r"/\  == \ ", r"\ \  _-/ ", r"\ \_\    ", r" \/_/    "),
            glyph(r" ______  ", r"/\  __ \ ", r"\ \ \/\_\", r"\ \___\_\", r" \/___/_/"),
            glyph(r" ______  ", r"/\  == \ ", r"\ \  __< ", r"\ \_\ \_\", r" \/_/ /_/"),
            glyph(r" ______  ", r"/\  ___\ ", r"\ \___  \", r"\/\_____\", r" \/_____/"),
            glyph(r" ______  ", r"/\__  _\ ", r"\/_/\ \/ ", r"  \ \_\  ", r"   \/_/  "),
            glyph(r" __  __  ", r"/\ \/\ \ ", r"\ \ \_\ \", r"\ \_____\", r" \/_____/"),
            glyph(r" __   __ ", r"/\ \ / / ", r"\ \ \'/  ", r"\ \__|   ", r" \/_/    "),
            glyph(r" __     __  ", r"/\ \  _ \ \ ", r#"\ \ \/ ".\ \"#, r#"\ \__/".~\_\"#, r" \/_/   \/_/"),
            glyph(r" __  __  ", r"/\_\_\_\ ", r"\/_/\_\/_", r" /\_\/\_\", r" \/_/\/_/"),
            glyph(r" __  __  ", r"/\ \_\ \ ", r"\ \____ \", r"\/\_____\", r" \/_____/"),
            glyph(r" ______  ", r"/\___  \ ", r"\/_/  /__", r" /\_____\", r" \/_____/"),
        ];
        let f = Font { glyphs };
        assert forall|l: int| 0 <= l < LETTERS implies #[trigger] f@[l].len() == ROWS by {
            assert(f.glyphs@[l]@.len() == ROWS);
        }
        f
    }

    /// Row `row` of the glyph of letter number `letter`.
    pub fn glyph_row(&self, letter: usize, row: usize) -> (r: &Vec<u8>)
        requires
            self.wf(),
            letter < LETTERS,
            row < ROWS,
        ensures
            r@ == self@[letter as int][row as int],
    {
        assert(self.glyphs@[letter as int]@.len() == self@[letter as int].len());
        &self.glyphs[letter][row]
    }
}

} // verus!
