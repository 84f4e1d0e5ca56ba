//! Where in a text a byte index lies, and the error that points there.

use vstd::prelude::*;
use vstd::string::StringExecFns;
use vstd::string::StrSliceExecFns;
use crate::syntax::{
    CharClass, ErrorView, byte_len, error_text, locate, position_of, run, strip_cr, text,
    utf8_width,
};
use crate::text::{chars_of, decimal, push_decimal, push_repeated};

verus! {

/// A syntax error: the message, and the line it points into.
#[derive(Debug)]
pub struct Error {
    pub message: String,
    pub line: String,
    pub lineno: usize,
    pub col: usize,
}

impl View for Error {
    type V = ErrorView;

    open spec fn view(&self) -> ErrorView {
        ErrorView {
            message: self.message@,
            line: self.line@,
            lineno: self.lineno as int,
            col: self.col as int,
        }
    }
}

impl Error {
    /// The error as text: the line with its number, and under it a caret at
    /// the column with the message.
    pub fn to_string(&self) -> (s: String)
        ensures
            s@ == error_text(self@),
    {
        let mut number = String::new();
        push_decimal(&mut number, self.lineno as u64);
        assert(number@ =~= decimal(self.lineno as nat));
        let width = number.as_str().unicode_len();
        let mut s = String::from_str("\n");
        if width < usize::MAX {
            push_repeated(&mut s, " ", width + 1);
        } else {
            // A number has fewer digits than that.
            proof {
                lemma_decimal_is_short(self.lineno as nat);
            }
        }
        s.append("|\n");
        s.append(number.as_str());
        s.append(" | ");
        s.append(self.line.as_str());
        s.append("\n");
        if width < usize::MAX {
            push_repeated(&mut s, " ", width + 1);
        }
        s.append("|");
        push_repeated(&mut s, " ", self.col);
        s.append("^ ");
        s.append(self.message.as_str());
        assert(s@ =~= error_text(self@));
        s
    }
}

/// The decimal notation of a number below 2^64 has at most twenty digits.
proof fn lemma_decimal_is_short(n: nat)
    requires
        n <= u64::MAX,
    ensures
        decimal(n).len() <= 20,
{
    reveal_with_fuel(decimal, 21);
}

/// The bytes of two texts add up.
pub proof fn lemma_byte_len_concat(a: Seq<char>, b: Seq<char>)
    ensures
        byte_len(a + b) == byte_len(a) + byte_len(b),
    decreases b.len(),
{
    if b.len() == 0 {
        assert(a + b =~= a);
    } else {
        lemma_byte_len_concat(a, b.drop_last());
        assert((a + b).drop_last() =~= a + b.drop_last());
        assert((a + b).last() == b.last());
    }
}

/// The bytes of a part of a text, split in two.
pub proof fn lemma_byte_len_split(s: Seq<char>, a: int, b: int, c: int)
    requires
        0 <= a <= b <= c <= s.len(),
    ensures
        byte_len(s.subrange(a, c)) == byte_len(s.subrange(a, b)) + byte_len(s.subrange(b, c)),
{
    assert(s.subrange(a, c) =~= s.subrange(a, b) + s.subrange(b, c));
    lemma_byte_len_concat(s.subrange(a, b), s.subrange(b, c));
}

/// A part of a text has no more bytes than the text, and no fewer bytes
/// than characters.
pub proof fn lemma_byte_len_bounds(s: Seq<char>, a: int, b: int)
    requires
        0 <= a <= b <= s.len(),
    ensures
        b - a <= byte_len(s.subrange(a, b)) <= byte_len(s),
    decreases b - a,
{
    lemma_byte_len_split(s, 0, a, b);
    lemma_byte_len_split(s, 0, b, s.len() as int);
    assert(s.subrange(0, s.len() as int) =~= s);
    if a < b {
        lemma_byte_len_bounds(s, a, b - 1);
        lemma_byte_len_split(s, a, b - 1, b);
        assert(s.subrange(b - 1, b).drop_last() =~= Seq::<char>::empty());
        assert(byte_len(s.subrange(b - 1, b)) == utf8_width(s[b - 1])) by {
            reveal_with_fuel(byte_len, 2);
            assert(s.subrange(b - 1, b).last() == s[b - 1]);
        }
    } else {
        assert(s.subrange(a, b) =~= Seq::<char>::empty());
    }
}

/// The number of bytes of the character's UTF-8 encoding.
pub fn char_width(c: char) -> (w: usize)
    ensures
        w == utf8_width(c),
{
    let v: u32 = c as u32;
    if v < 0x80 {
        1
    } else if v < 0x800 {
        2
    } else if v < 0x10000 {
        3
    } else {
        4
    }
}

/// The number of bytes of the characters from `from` up to `to`.
pub fn byte_count(input: &Vec<char>, from: usize, to: usize) -> (n: usize)
    requires
        from <= to <= input.len(),
        byte_len(input@) <= usize::MAX,
    ensures
        n == byte_len(input@.subrange(from as int, to as int)),
{
    let mut n: usize = 0;
    let mut k: usize = from;
    assert(input@.subrange(from as int, from as int) =~= Seq::<char>::empty());
    while k < to
        invariant
            from <= k <= to <= input.len(),
            byte_len(input@) <= usize::MAX,
            n == byte_len(input@.subrange(from as int, k as int)),
        decreases to - k,
    {
        proof {
            lemma_byte_len_bounds(input@, from as int, k + 1);
            assert(input@.subrange(from as int, k + 1).drop_last() =~= input@.subrange(
                from as int,
                k as int,
            ));
            assert(input@.subrange(from as int, k + 1).last() == input[k as int]);
        }
        n = n + char_width(input[k]);
        k = k + 1;
    }
    n
}

/// The characters from `from` up to `to` as a string.
pub fn slice_string(input: &Vec<char>, from: usize, to: usize) -> (s: String)
    requires
        from <= to <= input.len(),
    ensures
        s@ == input@.subrange(from as int, to as int),
{
    let mut s = String::new();
    let mut k: usize = from;
    while k < to
        invariant
            from <= k <= to <= input.len(),
            s@ =~= input@.subrange(from as int, k as int),
        decreases to - k,
    {
        s.push(input[k]);
        k = k + 1;
    }
    s
}

/// The number of characters from `pos` on that are no line feed.
fn line_run(input: &Vec<char>, pos: usize) -> (n: usize)
    requires
        pos <= input.len(),
    ensures
        n == run(input@, pos as int, CharClass::Line),
        pos + n <= input.len(),
{
    let mut end: usize = pos;
    while end < input.len() && input[end] != '\n'
        invariant
            pos <= end <= input.len(),
            run(input@, pos as int, CharClass::Line) == (end - pos) + run(
                input@,
                end as int,
                CharClass::Line,
            ),
        decreases input.len() - end,
    {
        end = end + 1;
    }
    end - pos
}

/// The line, line number and column of a byte index into the characters.
pub fn locate_position(input: &Vec<char>, index: usize) -> (r: (String, usize, usize))
    requires
        byte_len(input@) < usize::MAX,
    ensures
        (r.0@, r.1 as int, r.2 as int) == position_of(input@, index as int),
{
    if input.len() == 0 {
        return (String::new(), 0, 0);
    }
    let total = byte_count(input, 0, input.len());
    assert(input@.subrange(0, input.len() as int) =~= input@);
    let byte = if index < total {
        index
    } else {
        total
    };
    let mut pos: usize = 0;
    let mut line_start: usize = 0;
    let mut lineno: usize = 0;
    proof {
        lemma_byte_len_bounds(input@, 0, input.len() as int);
        assert(input@.subrange(0, 0) =~= Seq::<char>::empty());
    }
    while pos < input.len()
        invariant
            pos <= input.len(),
            input.len() < usize::MAX,
            byte_len(input@) < usize::MAX,
            lineno <= pos,
            line_start <= byte_len(input@.subrange(0, pos as int)),
            locate(input@, pos as int, byte as int, line_start as int, lineno as int)
                == position_of(input@, index as int),
        decreases input.len() - pos,
    {
        let n = line_run(input, pos);
        let end = pos + n;
        let terminated = end < input.len();
        let stop = if terminated && end > pos && input[end - 1] == '\r' {
            end - 1
        } else {
            end
        };
        let width = byte_count(input, pos, stop);
        proof {
            lemma_byte_len_split(input@, 0, pos as int, stop as int);
            lemma_byte_len_bounds(input@, 0, stop as int);
            lemma_byte_len_bounds(input@, stop as int, end as int);
            lemma_byte_len_split(input@, 0, stop as int, end as int);
            assert(strip_cr(text(input@, pos as int, n as nat), terminated) =~= input@.subrange(
                pos as int,
                stop as int,
            ));
        }
        let line_end = line_start + width;
        if line_start <= byte && byte <= line_end {
            return (slice_string(input, pos, stop), lineno + 1, byte - line_start + 1);
        }
        if !terminated {
            assert(locate(input@, end + 1, byte as int, line_end + 1, lineno + 1) == (
                Seq::<char>::empty(),
                lineno + 2,
                0int,
            ));
            return (String::new(), lineno + 2, 0);
        }
        proof {
            lemma_byte_len_split(input@, 0, end as int, end + 1);
            lemma_byte_len_bounds(input@, end as int, end + 1);
            lemma_byte_len_bounds(input@, 0, end + 1);
        }
        line_start = line_end + 1;
        lineno = lineno + 1;
        pos = end + 1;
    }
    (String::new(), lineno + 1, 0)
}

/// Translates a byte index into the text to the line it lies in, the line's
/// number and the column (both counted from 1).
pub fn translate_position(input: &str, index: usize) -> (r: (String, usize, usize))
    requires
        byte_len(input@) < usize::MAX,
    ensures
        (r.0@, r.1 as int, r.2 as int) == position_of(input@, index as int),
{
    let chars = chars_of(input);
    locate_position(&chars, index)
}

} // verus!
