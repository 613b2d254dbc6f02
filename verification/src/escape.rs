//! Text made safe to stand inside another text: a label value or a
//! description in the metrics text, or a string in a health report.
//!
//! Each kind of place has characters that may not stand in it as they are.
//! Such a character is replaced by a short text that begins with a
//! backslash; every other character stays as it is.

use vstd::prelude::*;
use vstd::string::*;

verus! {

/// The kind of place that a text is written into.
#[derive(Clone, Copy, Debug, PartialEq, Eq, Structural)]
pub enum Place {
    /// The value of a label, between double quotes.
    LabelValue,
    /// The description of a metric, up to the end of its line.
    Description,
    /// A string of a health report, between double quotes.
    ReportString,
}

/// The character that stands for a hexadecimal digit.
pub open spec fn hex_char(d: int) -> Seq<char> {
    if d == 0 {
        "0"@
    } else if d == 1 {
        "1"@
    } else if d == 2 {
        "2"@
    } else if d == 3 {
        "3"@
    } else if d == 4 {
        "4"@
    } else if d == 5 {
        "5"@
    } else if d == 6 {
        "6"@
    } else if d == 7 {
        "7"@
    } else if d == 8 {
        "8"@
    } else if d == 9 {
        "9"@
    } else if d == 10 {
        "a"@
    } else if d == 11 {
        "b"@
    } else if d == 12 {
        "c"@
    } else if d == 13 {
        "d"@
    } else if d == 14 {
        "e"@
    } else {
        "f"@
    }
}

/// Whether the character may stand in the place as it is.
pub open spec fn is_plain(place: Place, c: char) -> bool {
    match place {
        Place::LabelValue => c != '\\' && c != '"' && c != '\n',
        Place::Description => c != '\\' && c != '\n',
        Place::ReportString => c != '\\' && c != '"' && (c as u32) >= 0x20,
    }
}

/// What is written in place of a character that may not stand in the place
/// as it is: a backslash and the character itself for a backslash or a
/// double quote, a backslash and a letter for a line feed, a carriage return
/// or a tabulator, and `\u00` with two hexadecimal digits for any other
/// control character.
pub open spec fn replacement(c: char) -> Seq<char> {
    if c == '\\' {
        "\\\\"@
    } else if c == '"' {
        "\\\""@
    } else if c == '\n' {
        "\\n"@
    } else if c == '\r' {
        "\\r"@
    } else if c == '\t' {
        "\\t"@
    } else {
        "\\u00"@ + hex_char((c as u32) as int / 16) + hex_char((c as u32) as int % 16)
    }
}

/// One character as it is written into the place.
pub open spec fn escaped_char(place: Place, c: char) -> Seq<char> {
    if is_plain(place, c) {
        seq![c]
    } else {
        replacement(c)
    }
}

/// A text as it is written into the place: each of its characters as it is
/// written there, in order.
pub open spec fn escaped(place: Place, text: Seq<char>) -> Seq<char>
    decreases text.len(),
{
    if text.len() == 0 {
        Seq::empty()
    } else {
        escaped(place, text.drop_last()) + escaped_char(place, text.last())
    }
}

/// Two texts one after the other are written as the first and then the
/// second.
pub proof fn lemma_escaped_concat(place: Place, a: Seq<char>, b: Seq<char>)
    ensures
        escaped(place, a + b) == escaped(place, a) + escaped(place, b),
    decreases b.len(),
{
    if b.len() > 0 {
        lemma_escaped_concat(place, a, b.drop_last());
        assert((a + b).drop_last() =~= a + b.drop_last());
    }
}

/// A text of which every character may stand in the place is written as it
/// is.
pub proof fn lemma_escaped_plain(place: Place, text: Seq<char>)
    requires
        forall|i: int| 0 <= i < text.len() ==> is_plain(place, #[trigger] text[i]),
    ensures
        escaped(place, text) == text,
    decreases text.len(),
{
    if text.len() > 0 {
        lemma_escaped_plain(place, text.drop_last());
    }
}

/// Whether the character may stand in the place as it is.
fn plain(place: Place, c: char) -> (r: bool)
    ensures
        r == is_plain(place, c),
{
    match place {
        Place::LabelValue => c != '\\' && c != '"' && c != '\n',
        Place::Description => c != '\\' && c != '\n',
        Place::ReportString => c != '\\' && c != '"' && (c as u32) >= 0x20,
    }
}

/// The text of a hexadecimal digit.
fn hex_text(d: u32) -> (r: &'static str)
    requires
        d < 16,
    ensures
        r@ == hex_char(d as int),
{
    match d {
        0 => "0",
        1 => "1",
        2 => "2",
        3 => "3",
        4 => "4",
        5 => "5",
        6 => "6",
        7 => "7",
        8 => "8",
        9 => "9",
        10 => "a",
        11 => "b",
        12 => "c",
        13 => "d",
        14 => "e",
        _ => "f",
    }
}

/// Writes, at the end of `out`, what stands for a character that may not
/// stand in a place as it is.
fn push_replacement(out: &mut String, c: char)
    requires
        (c as u32) < 0x100,
    ensures
        final(out)@ == old(out)@ + replacement(c),
{
    if c == '\\' {
        out.append("\\\\");
    } else if c == '"' {
        out.append("\\\"");
    } else if c == '\n' {
        out.append("\\n");
    } else if c == '\r' {
        out.append("\\r");
    } else if c == '\t' {
        out.append("\\t");
    } else {
        let code: u32 = c as u32;
        out.append("\\u00");
        out.append(hex_text(code / 16));
        out.append(hex_text(code % 16));
    }
}

/// Writes `text` at the end of `out` as it is written into the place.
pub fn push_escaped(out: &mut String, text: &str, place: Place)
    ensures
        final(out)@ == old(out)@ + escaped(place, text@),
{
    let ghost start = out@;
    let n: usize = text.unicode_len();
    let mut written: usize = 0;
    let mut i: usize = 0;
    for c in it: text.chars()
        invariant
            it.seq() == text@,
            n == text@.len(),
            i == it.index(),
            written <= i <= n,
            out@ == start + escaped(place, text@.take(written as int)),
            forall|j: int| written <= j < i ==> is_plain(place, #[trigger] text@[j]),
    {
        if !plain(place, c) {
            let run: &str = text.substring_char(written, i);
            out.append(run);
            push_replacement(out, c);
            proof {
                lemma_escaped_plain(place, run@);
                lemma_escaped_concat(place, text@.take(written as int), run@);
                assert(text@.take(written as int) + run@ =~= text@.take(i as int));
                assert(text@.take(i + 1).drop_last() =~= text@.take(i as int));
            }
            written = i + 1;
        }
        i = i + 1;
    }
    let run: &str = text.substring_char(written, i);
    out.append(run);
    proof {
        lemma_escaped_plain(place, run@);
        lemma_escaped_concat(place, text@.take(written as int), run@);
        assert(text@.take(written as int) + run@ =~= text@);
    }
}

} // verus!
