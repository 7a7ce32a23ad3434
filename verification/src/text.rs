//! Text helpers shared by the models: case folding, trimming, ordering of
//! keys and decimal numbers.

use vstd::prelude::*;

verus! {

/// The lower-case form of a text, as `str::to_lowercase` of the standard
/// library gives it. Nothing is stated of it but that it depends on the text
/// alone.
pub uninterp spec fn lowercase(s: Seq<char>) -> Seq<char>;

/// A text without its leading and trailing white space, as `str::trim` of the
/// standard library gives it.
pub uninterp spec fn trimmed(s: Seq<char>) -> Seq<char>;

/// Calls `str::to_lowercase`; the result is the lower-case form of `s`.
#[verifier::external_body]
pub(crate) fn to_lowercase(s: &str) -> (r: String)
    ensures
        r@ == lowercase(s@),
{
    s.to_lowercase()
}

/// Calls `str::trim` and copies the slice it returns; the result is `s`
/// without the white space at its ends.
#[verifier::external_body]
pub(crate) fn trim(s: &str) -> (r: String)
    ensures
        r@ == trimmed(s@),
{
    s.trim().to_string()
}

/// Whether a text has no white space at either end.
pub open spec fn is_trimmed(s: Seq<char>) -> bool {
    trimmed(s) == s
}

/// Tells whether `s` has no white space at either end.
pub fn check_trimmed(s: &str) -> (r: bool)
    ensures
        r == is_trimmed(s@),
{
    let t = trim(s);
    let own = s.to_string();
    t == own
}

/// The order of two texts: the first place where they differ decides, by the
/// code points of the characters there, and a proper prefix comes first.
pub open spec fn text_lt(a: Seq<char>, b: Seq<char>) -> bool
    decreases a.len(),
{
    if b.len() == 0 {
        false
    } else if a.len() == 0 {
        true
    } else if a[0] != b[0] {
        (a[0] as int) < (b[0] as int)
    } else {
        text_lt(a.subrange(1, a.len() as int), b.subrange(1, b.len() as int))
    }
}

/// Compares two texts with `<` of `str`, which orders them by their bytes and
/// so by their code points, place by place.
#[verifier::external_body]
pub(crate) fn str_lt(a: &str, b: &str) -> (r: bool)
    ensures
        r == text_lt(a@, b@),
{
    a < b
}

/// No text comes before itself.
pub proof fn lemma_text_lt_irreflexive(a: Seq<char>)
    ensures
        !text_lt(a, a),
    decreases a.len(),
{
    if a.len() > 0 {
        lemma_text_lt_irreflexive(a.subrange(1, a.len() as int));
    }
}

/// The order of texts is transitive.
pub proof fn lemma_text_lt_transitive(a: Seq<char>, b: Seq<char>, c: Seq<char>)
    requires
        text_lt(a, b),
        text_lt(b, c),
    ensures
        text_lt(a, c),
    decreases a.len(),
{
    if a.len() > 0 && a[0] == b[0] && b[0] == c[0] {
        lemma_text_lt_transitive(
            a.subrange(1, a.len() as int),
            b.subrange(1, b.len() as int),
            c.subrange(1, c.len() as int),
        );
    }
}

/// Of two different texts one comes before the other.
pub proof fn lemma_text_lt_total(a: Seq<char>, b: Seq<char>)
    requires
        a != b,
    ensures
        text_lt(a, b) || text_lt(b, a),
    decreases a.len(),
{
    if a.len() > 0 && b.len() > 0 && a[0] == b[0] {
        let ta = a.subrange(1, a.len() as int);
        let tb = b.subrange(1, b.len() as int);
        if ta == tb {
            assert(a =~= seq![a[0]] + ta);
            assert(b =~= seq![b[0]] + tb);
        }
        lemma_text_lt_total(ta, tb);
    } else if a.len() == 0 && b.len() == 0 {
        assert(a =~= b);
    } else if a.len() > 0 && b.len() > 0 {
        assert(a[0] != b[0]);
        assert((a[0] as int) != (b[0] as int));
    }
}

/// Whether `part` occurs in `s` as a run of consecutive characters.
pub open spec fn text_contains(s: Seq<char>, part: Seq<char>) -> bool {
    exists|i: int|
        0 <= i && i + part.len() <= s.len() && #[trigger] s.subrange(i, i + part.len()) == part
}

/// Calls `str::contains` with a text as the pattern: whether `part` occurs in
/// `s`.
#[verifier::external_body]
pub(crate) fn str_contains(s: &str, part: &str) -> (r: bool)
    ensures
        r == text_contains(s@, part@),
{
    s.contains(part)
}

/// The character that stands for a digit below ten.
pub open spec fn digit_char(d: nat) -> char
    recommends
        d < 10,
{
    if d == 0 {
        '0'
    } else if d == 1 {
        '1'
    } else if d == 2 {
        '2'
    } else if d == 3 {
        '3'
    } else if d == 4 {
        '4'
    } else if d == 5 {
        '5'
    } else if d == 6 {
        '6'
    } else if d == 7 {
        '7'
    } else if d == 8 {
        '8'
    } else {
        '9'
    }
}

/// A number written in decimal digits, without sign or leading zeros.
pub open spec fn decimal(n: nat) -> Seq<char>
    decreases n,
{
    if n < 10 {
        seq![digit_char(n)]
    } else {
        decimal(n / 10).push(digit_char(n % 10))
    }
}

/// Formats a number with `ToString`, which writes an unsigned integer in
/// decimal digits.
#[verifier::external_body]
pub(crate) fn number_text(n: usize) -> (r: String)
    ensures
        r@ == decimal(n as nat),
{
    n.to_string()
}

/// Tells whether two texts are the same, character by character.
pub fn same_text(a: &str, b: &str) -> (r: bool)
    ensures
        r == (a@ == b@),
{
    let left = a.to_string();
    let right = b.to_string();
    left == right
}

/// A text brought to a width by putting a fill character before it as often
/// as it takes; a text that is wide enough stays as it is.
pub open spec fn padded(s: Seq<char>, width: nat, fill: char) -> Seq<char> {
    if s.len() >= width {
        s
    } else {
        Seq::new((width - s.len()) as nat, |i: int| fill) + s
    }
}

/// Brings a text to a width by putting the one character of `fill` before it.
pub fn pad_left(s: &str, width: usize, fill: &str) -> (r: String)
    requires
        fill@.len() == 1,
    ensures
        r@ == padded(s@, width as nat, fill@[0]),
{
    let len = s.unicode_len();
    let mut out = String::new();
    let mut have: usize = len;
    while have < width
        invariant
            fill@.len() == 1,
            len <= have,
            have <= width || have == len,
            out@ == Seq::new((have - len) as nat, |i: int| fill@[0]),
        decreases width - have,
    {
        let ghost before = out@;
        out.append(fill);
        have += 1;
        assert(out@ =~= Seq::new((have - len) as nat, |i: int| fill@[0])) by {
            assert(fill@ =~= seq![fill@[0]]);
        }
    }
    out.append(s);
    proof {
        if len >= width {
            assert(out@ =~= s@);
        }
    }
    out
}

/// The three texts one after the other.
pub fn around(before: &str, middle: &str, after: &str) -> (r: String)
    ensures
        r@ == before@ + middle@ + after@,
{
    let mut text = before.to_string();
    text.append(middle);
    text.append(after);
    text
}

/// One line of a report: how deep it is indented, and its text.
#[derive(Debug)]
pub struct ReportLine {
    pub depth: usize,
    pub text: String,
}

/// The lines of a report as pairs of depth and text.
pub open spec fn line_views(lines: Seq<ReportLine>) -> Seq<(usize, Seq<char>)> {
    Seq::new(lines.len(), |i: int| (lines[i].depth, lines[i].text@))
}

/// A text in which every occurrence of `from` has given way to `to`, as
/// `str::replace` of the standard library gives it.
pub uninterp spec fn replaced(s: Seq<char>, from: Seq<char>, to: Seq<char>) -> Seq<char>;

/// The parts into which `str::split` of the standard library cuts a text at
/// a separator, in their order.
pub uninterp spec fn splits(s: Seq<char>, separator: Seq<char>) -> Seq<Seq<char>>;

/// Calls `str::starts_with` with a text as the pattern: whether `s` begins
/// with `start`.
#[verifier::external_body]
pub(crate) fn str_starts_with(s: &str, start: &str) -> (r: bool)
    ensures
        r == start@.is_prefix_of(s@),
{
    s.starts_with(start)
}

/// Calls `str::ends_with` with a text as the pattern: whether `s` ends with
/// `end`.
#[verifier::external_body]
pub(crate) fn str_ends_with(s: &str, end: &str) -> (r: bool)
    ensures
        r == end@.is_suffix_of(s@),
{
    s.ends_with(end)
}

/// Calls `str::replace` with texts as pattern and replacement.
#[verifier::external_body]
pub(crate) fn replace_text(s: &str, from: &str, to: &str) -> (r: String)
    ensures
        r@ == replaced(s@, from@, to@),
{
    s.replace(from, to)
}

/// Calls `str::split` with a text as the separator and copies the parts.
#[verifier::external_body]
pub(crate) fn split_text(s: &str, separator: &str) -> (r: Vec<String>)
    ensures
        r@.len() == splits(s@, separator@).len(),
        forall|i: int| 0 <= i < r@.len() ==> (#[trigger] r@[i])@ == splits(s@, separator@)[i],
{
    s.split(separator).map(|part| part.to_string()).collect()
}

/// The texts of a list, in its order.
pub open spec fn texts(lines: Seq<String>) -> Seq<Seq<char>> {
    Seq::new(lines.len(), |i: int| lines[i]@)
}

} // verus!
