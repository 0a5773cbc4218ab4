//! Character classification, string building blocks, and the few pieces of
//! text processing that lean on `std` or on outside crates.
//!
//! The lexer and the diagnostic renderer work over plain `char`s and
//! `Vec<char>` buffers; everything that cannot be stated in a few lines
//! (Unicode alphabetic and white-space classes, grapheme segmentation,
//! display padding) is named by an uninterpreted spec function and reached
//! through a trusted wrapper.

use vstd::prelude::*;

use pad::Alignment;
use pad::PadStr;
use unicode_segmentation::UnicodeSegmentation;

verus! {

/// The decimal digits `0` through `9`, the only characters that may extend a
/// numeric literal.
pub open spec fn is_digit_char(c: char) -> bool {
    '0' <= c && c <= '9'
}

/// Executable test matching `is_digit_char`; mirrors `char::is_digit(10)`.
pub fn char_is_digit(c: char) -> (r: bool)
    ensures
        r == is_digit_char(c),
{
    '0' <= c && c <= '9'
}

/// ASCII punctuation: `!..=/`, `:..=@`, `[..=`` ` ``, `{..=~`.
pub open spec fn is_ascii_punct_char(c: char) -> bool {
    ('!' <= c && c <= '/') || (':' <= c && c <= '@') || ('[' <= c && c <= '`') || ('{' <= c && c
        <= '~')
}

/// Executable test matching `is_ascii_punct_char`; mirrors
/// `char::is_ascii_punctuation`.
pub fn char_is_ascii_punct(c: char) -> (r: bool)
    ensures
        r == is_ascii_punct_char(c),
{
    ('!' <= c && c <= '/') || (':' <= c && c <= '@') || ('[' <= c && c <= '`') || ('{' <= c && c
        <= '~')
}

/// Whether `c` has the Unicode `Alphabetic` property.
pub uninterp spec fn is_alpha_char(c: char) -> bool;

/// Whether `c` has the Unicode `White_Space` property.
pub uninterp spec fn is_whitespace_char(c: char) -> bool;

/// Relies on `char::is_alphabetic`: true exactly for characters with the
/// Unicode `Alphabetic` property; on ASCII these are the letters.
#[verifier::external_body]
pub fn char_is_alphabetic(c: char) -> (r: bool)
    ensures
        r == is_alpha_char(c),
        (c as u32) < 128 ==> r == (('a' <= c && c <= 'z') || ('A' <= c && c <= 'Z')),
{
    c.is_alphabetic()
}

/// Relies on `char::is_whitespace`: true exactly for characters with the
/// Unicode `White_Space` property; on ASCII these are space and the
/// controls `\t`, `\n`, `\u{B}`, `\u{C}`, `\r`.
#[verifier::external_body]
pub fn char_is_whitespace(c: char) -> (r: bool)
    ensures
        r == is_whitespace_char(c),
        (c as u32) < 128 ==> r == (c == ' ' || ('\u{9}' <= c && c <= '\u{D}')),
{
    c.is_whitespace()
}

/// Relies on `String::push`: appends the character to the end of the string.
pub assume_specification[ std::string::String::push ](s: &mut std::string::String, c: char)
    ensures
        final(s)@ == old(s)@.push(c),
;

/// Builds a `String` holding exactly the characters of `v`, in order.
pub fn chars_to_string(v: &Vec<char>) -> (s: String)
    ensures
        s@ == v@,
{
    let mut s = String::new();
    let mut i: usize = 0;
    while i < v.len()
        invariant
            i <= v.len(),
            s@ == v@.subrange(0, i as int),
        decreases v.len() - i,
    {
        s.push(v[i]);
        i += 1;
    }
    proof {
        assert(v@.subrange(0, v@.len() as int) =~= v@);
    }
    s
}

/// Character-for-character equality of two string slices.
pub fn str_eq(a: &str, b: &str) -> (r: bool)
    ensures
        r == (a@ == b@),
{
    let an = a.unicode_len();
    let bn = b.unicode_len();
    if an != bn {
        proof {
            assert(a@ != b@);
        }
        return false;
    }
    let mut i: usize = 0;
    while i < an
        invariant
            i <= an,
            an == a@.len(),
            an == b@.len(),
            forall|j: int| 0 <= j < i ==> a@[j] == b@[j],
        decreases an - i,
    {
        if a.get_char(i) != b.get_char(i) {
            proof {
                assert(a@[i as int] != b@[i as int]);
            }
            return false;
        }
        i += 1;
    }
    proof {
        assert(a@ =~= b@);
    }
    true
}

/// The decimal rendering of `n`, most significant digit first.
pub open spec fn dec_str_of(n: nat) -> Seq<char>
    decreases n,
{
    if n < 10 {
        seq![digit_char(n)]
    } else {
        dec_str_of(n / 10).push(digit_char(n % 10))
    }
}

/// The character for a single decimal digit.
pub open spec fn digit_char(d: nat) -> char {
    if d == 0 {
        '0'
    } else if d == 1 {
        '1'
    } else if d == 2 {
        '2'
    } else if d == 3 {
        '3'
    } else if d == 4 {
        '4'
    } else if d == 5 {
        '5'
    } else if d == 6 {
        '6'
    } else if d == 7 {
        '7'
    } else if d == 8 {
        '8'
    } else {
        '9'
    }
}

/// Relies on the `Display` implementation for `usize`: formats the value as
/// its decimal digits.
#[verifier::external_body]
pub fn usize_to_string(n: usize) -> (s: String)
    ensures
        s@ == dec_str_of(n as nat),
        s@.len() >= 1,
{
    n.to_string()
}

/// The grapheme clusters of a string, in order. Each cluster is a non-empty
/// run of characters, and the clusters concatenate back to the string.
pub uninterp spec fn graphemes_of(s: Seq<char>) -> Seq<Seq<char>>;

/// Relies on `UnicodeSegmentation::graphemes` (extended grapheme clusters):
/// the clusters partition the string, so they concatenate back to it and
/// none is empty.
#[verifier::external_body]
pub fn graphemes_vec(s: &str) -> (r: Vec<String>)
    ensures
        r.deep_view() == graphemes_of(s@),
        r.deep_view().flatten() == s@,
        forall|i: int| 0 <= i < r@.len() ==> r@[i]@.len() > 0,
{
    s.graphemes(true).map(|g: &str| g.to_string()).collect()
}

/// The number of grapheme clusters in a string.
pub fn grapheme_count(s: &str) -> (r: usize)
    ensures
        r == graphemes_of(s@).len(),
{
    let v = graphemes_vec(s);
    proof {
        assert(v.deep_view().len() == v@.len());
    }
    v.len()
}

/// Grapheme-aware length, the unit used for column arithmetic in rendered
/// diagnostics.
pub trait StringUtils {
    /// The character sequence this text stands for.
    spec fn text(&self) -> Seq<char>;

    /// The number of grapheme clusters in this text.
    fn count(&self) -> (r: usize)
        ensures
            r == graphemes_of(self.text()).len(),
    ;
}

impl StringUtils for String {
    open spec fn text(&self) -> Seq<char> {
        self@
    }

    fn count(&self) -> (r: usize)
        ensures
            r == graphemes_of(self@).len(),
    {
        grapheme_count(self.as_str())
    }
}

impl StringUtils for &str {
    open spec fn text(&self) -> Seq<char> {
        self@
    }

    fn count(&self) -> (r: usize)
        ensures
            r == graphemes_of(self@).len(),
    {
        grapheme_count(self)
    }
}

/// Relies on `pad::PadStr::pad` with a space pad, right alignment and no
/// truncation: the result is the input, possibly preceded by spaces. The
/// display width it pads to is measured per character; every printable
/// ASCII character is one column wide, so for printable ASCII input the
/// result is pinned exactly.
#[verifier::external_body]
pub fn pad_left_to_width(s: &str, width: usize) -> (r: String)
    ensures
        r@.len() >= s@.len(),
        r@.subrange(r@.len() - s@.len(), r@.len() as int) == s@,
        forall|i: int| 0 <= i < r@.len() - s@.len() ==> r@[i] == ' ',
        (forall|i: int| 0 <= i < s@.len() ==> ' ' <= s@[i] && s@[i] <= '~') ==> r@ == (
        if s@.len() >= width {
            s@
        } else {
            Seq::new((width - s@.len()) as nat, |i: int| ' ') + s@
        }),
{
    s.pad(width, ' ', Alignment::Right, false)
}

} // verus!
