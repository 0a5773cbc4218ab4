//! The source model: a source file with its text and line table, and the
//! point and span value types that locate tokens and diagnostics in it.
//! Lines and columns are 1-based.

use vstd::prelude::*;

use crate::strutil::chars_to_string;
use vstd::string::*;

verus! {

/// Splitting a character sequence on `'\n'`: `cur` is the line read so far,
/// `rest` the text still to split. Every input yields at least one line, and
/// a trailing newline yields a final empty line, as `str::split` does.
pub open spec fn split_lines_from(cur: Seq<char>, rest: Seq<char>) -> Seq<Seq<char>>
    decreases rest.len(),
{
    if rest.len() == 0 {
        seq![cur]
    } else if rest[0] == '\n' {
        seq![cur] + split_lines_from(Seq::empty(), rest.drop_first())
    } else {
        split_lines_from(cur.push(rest[0]), rest.drop_first())
    }
}

/// The lines of a text, split on `'\n'`.
pub open spec fn split_lines(s: Seq<char>) -> Seq<Seq<char>> {
    split_lines_from(Seq::empty(), s)
}

/// The characters of the slice, in order.
fn str_to_chars(s: &str) -> (v: Vec<char>)
    ensures
        v@ == s@,
{
    let n = s.unicode_len();
    let mut v: Vec<char> = Vec::new();
    let mut i: usize = 0;
    while i < n
        invariant
            n == s@.len(),
            i <= n,
            v@ == s@.subrange(0, i as int),
        decreases n - i,
    {
        v.push(s.get_char(i));
        proof {
            assert(v@ =~= s@.subrange(0, i + 1));
        }
        i += 1;
    }
    proof {
        assert(s@.subrange(0, n as int) =~= s@);
    }
    v
}

/// An immutable source file: its path, its full text, the text as a
/// character vector, and the text split into lines.
#[derive(Debug, Clone)]
pub struct SourceFile {
    pub path: String,
    pub contents: String,
    pub chars: Vec<char>,
    pub lines: Vec<String>,
}

impl SourceFile {
    /// The derived fields agree with the contents.
    pub open spec fn wf(&self) -> bool {
        &&& self.chars@ == self.contents@
        &&& self.lines.deep_view() == split_lines(self.contents@)
    }

    /// Builds the source model for a file: keeps path and text, and derives
    /// the character vector and the line table.
    pub fn new(path: String, contents: String) -> (src: SourceFile)
        ensures
            src.wf(),
            src.path@ == path@,
            src.contents@ == contents@,
    {
        let chars = str_to_chars(contents.as_str());
        let n = chars.len();
        let mut lines: Vec<String> = Vec::new();
        let mut cur: Vec<char> = Vec::new();
        let mut i: usize = 0;
        proof {
            assert(chars@.subrange(0, n as int) =~= chars@);
            assert(lines.deep_view() + split_lines_from(cur@, chars@) =~~= split_lines(chars@));
        }
        while i < n
            invariant
                n == chars@.len(),
                i <= n,
                lines.deep_view() + split_lines_from(cur@, chars@.subrange(i as int, n as int))
                    == split_lines(chars@),
            decreases n - i,
        {
            let ghost rest = chars@.subrange(i as int, n as int);
            let ghost pre_lines = lines.deep_view();
            let ghost pre_cur = cur@;
            proof {
                assert(rest.drop_first() =~= chars@.subrange(i as int + 1, n as int));
                assert(rest[0] == chars@[i as int]);
            }
            let c = chars[i];
            if c == '\n' {
                let line = chars_to_string(&cur);
                lines.push(line);
                cur = Vec::new();
                proof {
                    assert(lines.deep_view() =~~= pre_lines.push(pre_cur));
                    assert(split_lines_from(pre_cur, rest) == seq![pre_cur] + split_lines_from(
                        Seq::empty(),
                        rest.drop_first(),
                    ));
                    assert(pre_lines.push(pre_cur) + split_lines_from(
                        Seq::empty(),
                        rest.drop_first(),
                    ) =~~= pre_lines + split_lines_from(pre_cur, rest));
                }
            } else {
                cur.push(c);
                proof {
                    assert(split_lines_from(pre_cur, rest) == split_lines_from(
                        pre_cur.push(rest[0]),
                        rest.drop_first(),
                    ));
                }
            }
            i += 1;
        }
        proof {
            assert(chars@.subrange(n as int, n as int) =~= Seq::<char>::empty());
        }
        let ghost pre_lines = lines.deep_view();
        let ghost pre_cur = cur@;
        let line = chars_to_string(&cur);
        lines.push(line);
        proof {
            assert(lines.deep_view() =~~= pre_lines.push(pre_cur));
            assert(pre_lines.push(pre_cur) =~~= pre_lines + seq![pre_cur]);
        }
        SourceFile { path, contents, chars, lines }
    }
}

/// A 1-based line and column position in a source file.
#[derive(Clone, Copy, PartialEq, Eq, Structural, Debug)]
pub struct SourcePoint {
    pub ln: usize,
    pub col: usize,
}

impl SourcePoint {
    /// A point at the given line and column.
    pub fn new(ln: usize, col: usize) -> (p: SourcePoint)
        ensures
            p == (SourcePoint { ln, col }),
    {
        SourcePoint { ln, col }
    }
}

/// A half-open region of source text between two points.
#[derive(Clone, Copy, PartialEq, Eq, Structural, Debug)]
pub struct SourceSpan {
    pub start: SourcePoint,
    pub end: SourcePoint,
}

impl SourceSpan {
    /// The span between two points.
    pub fn new(start: SourcePoint, end: SourcePoint) -> (s: SourceSpan)
        ensures
            s == (SourceSpan { start, end }),
    {
        SourceSpan { start, end }
    }

    /// A span lying within a single line.
    pub fn one_ln(ln: usize, start: usize, end: usize) -> (s: SourceSpan)
        ensures
            s@ == spec_one_ln(ln as nat, start as nat, end as nat),
    {
        SourceSpan::new(SourcePoint::new(ln, start), SourcePoint::new(ln, end))
    }

    /// A span that may cross lines.
    pub fn mul_ln(start_ln: usize, start_col: usize, end_ln: usize, end_col: usize) -> (s:
        SourceSpan)
        ensures
            s == (SourceSpan {
                start: SourcePoint { ln: start_ln, col: start_col },
                end: SourcePoint { ln: end_ln, col: end_col },
            }),
    {
        SourceSpan::new(
            SourcePoint::new(start_ln, start_col),
            SourcePoint::new(end_ln, end_col),
        )
    }
}

/// A source point in the mathematical model, free of machine widths.
pub struct PointV {
    pub ln: nat,
    pub col: nat,
}

/// A source span in the mathematical model.
pub struct SpanV {
    pub start: PointV,
    pub end: PointV,
}

impl View for SourcePoint {
    type V = PointV;

    open spec fn view(&self) -> PointV {
        PointV { ln: self.ln as nat, col: self.col as nat }
    }
}

impl View for SourceSpan {
    type V = SpanV;

    open spec fn view(&self) -> SpanV {
        SpanV { start: self.start@, end: self.end@ }
    }
}

/// The single-line span `[start, end)` on line `ln`, as a model value.
pub open spec fn spec_one_ln(ln: nat, start: nat, end: nat) -> SpanV {
    SpanV { start: PointV { ln, col: start }, end: PointV { ln, col: end } }
}

} // verus!
