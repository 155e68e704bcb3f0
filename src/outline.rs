//! Framing a line of text in a box of stars.
use vstd::prelude::*;
use vstd::string::{StringExecFns, StringSliceAdditionalSpecFns};

verus! {

/// `n` copies of `c`.
pub open spec fn repeated(c: char, n: nat) -> Seq<char> {
    Seq::new(n, |i: int| c)
}

/// The five lines of the frame around a text that is `w` bytes wide: a row
/// of stars, an empty row, the text between a star and a space on each side,
/// another empty row and another row of stars.
pub open spec fn frame(text: Seq<char>, w: nat) -> Seq<Seq<char>> {
    let stars = repeated('*', w + 4);
    let blank = seq!['*'] + repeated(' ', w + 2) + seq!['*'];
    seq![stars, blank, seq!['*', ' '] + text + seq![' ', '*'], blank, stars]
}

/// `n` copies of `c` as a string.
fn repeat_char(c: &str, n: usize) -> (r: String)
    requires
        c@.len() == 1,
    ensures
        r@ == repeated(c@[0], n as nat),
{
    let mut s = String::new();
    let mut i: usize = 0;
    while i < n
        invariant
            i <= n,
            c@.len() == 1,
            s@ == repeated(c@[0], i as nat),
        decreases n - i,
    {
        s.append(c);
        i = i + 1;
        assert(s@ =~= repeated(c@[0], i as nat));
    }
    s
}

/// The lines that frame `text` in stars. The frame is as wide as the text
/// is long in bytes, plus four.
pub fn outline(text: &str) -> (r: Vec<String>)
    requires
        text.spec_bytes().len() + 4 <= usize::MAX,
    ensures
        r@.map_values(|l: String| l@) == frame(text@, text.spec_bytes().len()),
{
    let len = text.len();
    proof {
        reveal_strlit("*");
        reveal_strlit(" ");
        reveal_strlit("* ");
        reveal_strlit(" *");
        assert("*"@ =~= seq!['*']);
        assert("* "@ =~= seq!['*', ' ']);
        assert(" *"@ =~= seq![' ', '*']);
    }
    let stars = repeat_char("*", len + 4);
    let mut blank = String::from_str("*");
    blank.append(repeat_char(" ", len + 2).as_str());
    blank.append("*");
    let mut middle = String::from_str("* ");
    middle.append(text);
    middle.append(" *");
    let mut lines: Vec<String> = Vec::new();
    lines.push(stars.clone());
    lines.push(blank.clone());
    lines.push(middle);
    lines.push(blank);
    lines.push(stars);
    assert(lines@[0]@ == repeated('*', (len + 4) as nat));
    assert(lines@[1]@ =~= seq!['*'] + repeated(' ', (len + 2) as nat) + seq!['*']);
    assert(lines@[2]@ =~= seq!['*', ' '] + text@ + seq![' ', '*']);
    assert(lines@.map_values(|l: String| l@) =~= frame(text@, len as nat));
    lines
}

} // verus!
