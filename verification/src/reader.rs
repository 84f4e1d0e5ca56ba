//! The reader of the notation: a position in a text, and the constructs that
//! are read without looking into nested expressions.

use vstd::prelude::*;
use vstd::string::StringExecFns;
use crate::expression::{
    Character, Characters, Expression, ExpressionKind, ExpressionKindView, RangeLimit,
};
use crate::position::{Error, byte_count, lemma_byte_len_bounds, locate_position, slice_string};
use crate::syntax::{
    CharClass, ErrorView, Parsed, at, byte_len, error_at, in_class, located, plain, run,
    starts_with, text,
};
use crate::text::{chars_of, push_decimal, text_view};

verus! {

/// `char::from_u32` of std: the character with that code, or `None` where
/// the number is no Unicode scalar value.
pub assume_specification[ char::from_u32 ](v: u32) -> (r: Option<char>)
    ensures
        match r {
            Some(c) => c as u32 == v && crate::syntax::is_scalar_value(v as nat),
            None => !crate::syntax::is_scalar_value(v as nat),
        },
;

/// The reader: a text and the position up to which it has been read.
pub struct Parser {
    pub input: Vec<char>,
    pub index: usize,
}

/// The model of a result of reading.
pub open spec fn result_view<T: DeepView>(r: Result<T, Error>) -> Result<T::V, ErrorView> {
    match r {
        Ok(v) => Ok(v.deep_view()),
        Err(e) => Err(e@),
    }
}

/// Whether the reading failed, and `e` is its failure placed in the text.
pub open spec fn failed_with<V>(
    result: Result<V, Seq<char>>,
    e: Error,
    input: Seq<char>,
    index: int,
) -> bool {
    match result {
        Ok(_) => false,
        Err(m) => e@ == error_at(input, index, m),
    }
}

/// Whether the character belongs to the class.
pub fn class_holds(class: CharClass, c: char) -> (b: bool)
    ensures
        b == in_class(class, c),
{
    match class {
        CharClass::Newline => c == '\n',
        CharClass::Space => c == ' ',
        CharClass::Name => c.is_alphanumeric() || c == '_',
        CharClass::Digit => '0' <= c && c <= '9',
        CharClass::Line => c != '\n',
        CharClass::Terminal => c != '\n' && c != '`',
        CharClass::Prose => c != '\n' && c != '>',
        CharClass::Footnote => c != '\n' && c != ']',
    }
}

impl Parser {
    /// The invariant of a reader: the position is within the text, and the
    /// text's length in bytes fits a `usize`.
    pub open spec fn wf(&self) -> bool {
        self.index <= self.input.len() && byte_len(self.input@) < usize::MAX
    }

    /// Whether this is the reader `before` after `n` more characters.
    pub open spec fn advanced(&self, before: Parser, n: nat) -> bool {
        self.input@ == before.input@ && self.index == before.index + n && self.wf()
    }

    /// Whether this is the reader `before` after the reading `p`, of which
    /// `r` tells.
    pub open spec fn read<T: DeepView>(
        &self,
        before: Parser,
        p: Parsed<T::V>,
        r: Result<T, Error>,
    ) -> bool {
        self.advanced(before, p.advance) && result_view(r) == located(
            p.result,
            self.input@,
            self.index as int,
        )
    }

    /// A reader at the start of the text.
    pub fn new(input: &str) -> (parser: Parser)
        requires
            byte_len(input@) < usize::MAX,
        ensures
            parser.input@ == input@,
            parser.index == 0,
            parser.wf(),
    {
        Parser { input: chars_of(input), index: 0 }
    }

    /// Reads the characters of the class that follow one another from here on.
    pub fn take_while(&mut self, class: CharClass) -> (taken: String)
        requires
            old(self).wf(),
        ensures
            final(self).advanced(
                *old(self),
                run(old(self).input@, old(self).index as int, class),
            ),
            taken@ == text(
                old(self).input@,
                old(self).index as int,
                run(old(self).input@, old(self).index as int, class),
            ),
    {
        let start = self.index;
        while self.index < self.input.len() && class_holds(class, self.input[self.index])
            invariant
                self.input@ == old(self).input@,
                start == old(self).index,
                self.wf(),
                start <= self.index <= self.input.len(),
                run(self.input@, start as int, class) == (self.index - start) + run(
                    self.input@,
                    self.index as int,
                    class,
                ),
            decreases self.input.len() - self.index,
        {
            self.index = self.index + 1;
        }
        slice_string(&self.input, start, self.index)
    }

    /// Returns whether or not the given string is next, and advances the head if it is.
    pub fn take_str(&mut self, s: &str) -> (taken: bool)
        requires
            old(self).wf(),
        ensures
            taken == starts_with(old(self).input@, old(self).index as int, s@),
            final(self).advanced(
                *old(self),
                if taken {
                    s@.len()
                } else {
                    0
                },
            ),
    {
        let chars = chars_of(s);
        let n = chars.len();
        if n > self.input.len() - self.index {
            return false;
        }
        let mut k: usize = 0;
        while k < n
            invariant
                self.input@ == old(self).input@,
                self.index == old(self).index,
                self.wf(),
                self.index + n <= self.input.len(),
                n == chars.len(),
                chars@ == s@,
                k <= n,
                forall|j: int| 0 <= j < k ==> self.input[self.index + j] == chars[j],
            decreases n - k,
        {
            if self.input[self.index + k] != chars[k] {
                assert(self.input@.subrange(self.index as int, self.index + n)[k as int]
                    != s@[k as int]);
                return false;
            }
            k = k + 1;
        }
        assert(self.input@.subrange(self.index as int, self.index + n) =~= s@);
        self.index = self.index + n;
        true
    }

    /// Returns the next character, or None if eof.
    pub fn peek(&self) -> (next: Option<char>)
        requires
            self.wf(),
        ensures
            next == at(self.input@, self.index as int),
    {
        if self.index >= self.input.len() {
            None
        } else {
            Some(self.input[self.index])
        }
    }

    /// Whether the whole text has been read.
    pub fn eof(&self) -> (b: bool)
        ensures
            b == (self.index >= self.input.len()),
    {
        self.index >= self.input.len()
    }

    /// The error with this message at the position of the reader.
    pub fn error(&self, message: &str) -> (e: Error)
        requires
            self.wf(),
        ensures
            e@ == error_at(self.input@, self.index as int, message@),
    {
        proof {
            reveal(error_at);
            lemma_byte_len_bounds(self.input@, 0, self.index as int);
            assert(self.input@.subrange(0, self.index as int) =~= self.input@.take(
                self.index as int,
            ));
        }
        let byte = byte_count(&self.input, 0, self.index);
        let (line, lineno, col) = locate_position(&self.input, byte);
        Error { message: String::from_str(message), line, lineno, col }
    }

    /// Expects the next input to be the given string, and advances the head.
    pub fn expect(&mut self, s: &str, err: &str) -> (r: Result<(), Error>)
        requires
            old(self).wf(),
        ensures
            final(self).read(
                *old(self),
                crate::syntax::expect(old(self).input@, old(self).index as int, s@, err@),
                r,
            ),
    {
        if self.take_str(s) {
            Ok(())
        } else {
            Err(self.error(err))
        }
    }

    /// Expects the next character to be the given one, and advances the head.
    pub fn expect_char(&mut self, c: char, err: &str) -> (r: Result<(), Error>)
        requires
            old(self).wf(),
        ensures
            final(self).advanced(
                *old(self),
                if r is Ok {
                    1
                } else {
                    0
                },
            ),
            r is Ok <==> at(old(self).input@, old(self).index as int) == Some(c),
            r matches Err(e) ==> e@ == error_at(old(self).input@, old(self).index as int, err@),
    {
        if self.index < self.input.len() && self.input[self.index] == c {
            self.index = self.index + 1;
            Ok(())
        } else {
            Err(self.error(err))
        }
    }

    /// Advances zero or more spaces.
    pub fn space0(&mut self)
        requires
            old(self).wf(),
        ensures
            final(self).advanced(
                *old(self),
                run(old(self).input@, old(self).index as int, CharClass::Space),
            ),
    {
        let _ = self.take_while(CharClass::Space);
    }
}

/// An upper bound of the number that `n` hexadecimal digits denote.
pub open spec fn hex_bound(n: nat) -> nat
    decreases n,
{
    if n == 0 {
        1
    } else {
        16 * hex_bound((n - 1) as nat)
    }
}

/// Wraps the kind as an expression without suffix and footnote.
pub fn box_kind(kind: ExpressionKind) -> (e: Box<Expression>)
    ensures
        (*e)@ == plain(kind@),
{
    Box::new(Expression { kind, suffix: None, footnote: None })
}

/// The message for a repetition range that the notation does not accept.
pub fn check_range(min: Option<u32>, max: Option<u32>, limit: RangeLimit) -> (r: Option<String>)
    ensures
        text_view(r) == crate::syntax::range_error(min, max, limit),
        r is None <==> crate::expression::range_rule(min, max, limit, true),
{
    let half_open = matches!(limit, RangeLimit::HalfOpen);
    match (min, max) {
        (Some(a), Some(b)) => {
            if b < a {
                let mut m = String::from_str("range ");
                push_decimal(&mut m, a as u64);
                if half_open {
                    m.append("..");
                } else {
                    m.append("..=");
                }
                push_decimal(&mut m, b as u64);
                m.append(" is malformed");
                Some(m)
            } else if b <= a && half_open {
                Some(String::from_str("half-open range maximum must be greater than minimum"))
            } else {
                None
            }
        },
        (None, Some(b)) => {
            if b == 0 && half_open {
                Some(String::from_str("half-open range `..0` is empty"))
            } else {
                None
            }
        },
        (_, None) => {
            if !half_open {
                Some(String::from_str("closed range must have an upper bound"))
            } else {
                None
            }
        },
    }
}

impl Parser {
    /// Reads the root marker, if it is there.
    pub fn parse_is_root(&mut self) -> (is_root: bool)
        requires
            old(self).wf(),
        ensures
            is_root == starts_with(old(self).input@, old(self).index as int, "@root"@),
            final(self).advanced(
                *old(self),
                if is_root {
                    5
                } else {
                    0
                },
            ),
    {
        proof {
            reveal_strlit("@root");
        }
        self.take_str("@root")
    }

    /// Reads a name, if one starts here.
    pub fn parse_name(&mut self) -> (name: Option<String>)
        requires
            old(self).wf(),
        ensures
            final(self).read(
                *old(self),
                crate::syntax::parse_name(old(self).input@, old(self).index as int),
                Ok::<Option<String>, Error>(name),
            ),
    {
        let start = self.index;
        let name = self.take_while(CharClass::Name);
        if self.index == start {
            None
        } else {
            Some(name)
        }
    }

    /// Reads a text between `open` and `close` on one line.
    fn parse_delimited(
        &mut self,
        open: char,
        class: CharClass,
        close: char,
        no_open: &str,
        no_text: &str,
        no_close: &str,
    ) -> (r: Result<String, Error>)
        requires
            old(self).wf(),
        ensures
            final(self).read(
                *old(self),
                crate::syntax::parse_delimited(
                    old(self).input@,
                    old(self).index as int,
                    open,
                    class,
                    close,
                    no_open@,
                    no_text@,
                    no_close@,
                ),
                r,
            ),
    {
        match self.expect_char(open, no_open) {
            Err(e) => {
                return Err(e);
            },
            Ok(()) => {},
        }
        let start = self.index;
        let term = self.take_while(class);
        if self.index == start {
            return Err(self.error(no_text));
        }
        match self.expect_char(close, no_close) {
            Err(e) => Err(e),
            Ok(()) => Ok(term),
        }
    }

    /// Parse string within backticks.
    pub fn parse_terminal_str(&mut self) -> (r: Result<String, Error>)
        requires
            old(self).wf(),
        ensures
            final(self).read(
                *old(self),
                crate::syntax::parse_terminal_str(old(self).input@, old(self).index as int),
                r,
            ),
    {
        self.parse_delimited(
            '`',
            CharClass::Terminal,
            '`',
            "expected opening backtick",
            "expected terminal",
            "expected closing backtick",
        )
    }

    /// Parse terminal within backticks.
    pub fn parse_terminal(&mut self) -> (r: Result<ExpressionKind, Error>)
        requires
            old(self).wf(),
        ensures
            final(self).read(
                *old(self),
                crate::syntax::parse_terminal(old(self).input@, old(self).index as int),
                r,
            ),
            r matches Ok(k) ==> crate::expression::ranges_hold(plain(k@), true)
                && final(self).index > old(self).index,
    {
        proof {
            reveal(crate::syntax::parse_terminal);
        }
        match self.parse_terminal_str() {
            Ok(s) => Ok(ExpressionKind::Terminal(s)),
            Err(e) => Err(e),
        }
    }

    /// Parse e.g. `<prose text>`.
    pub fn parse_prose(&mut self) -> (r: Result<ExpressionKind, Error>)
        requires
            old(self).wf(),
        ensures
            final(self).read(
                *old(self),
                crate::syntax::parse_prose(old(self).input@, old(self).index as int),
                r,
            ),
            r matches Ok(k) ==> crate::expression::ranges_hold(plain(k@), true)
                && final(self).index > old(self).index,
    {
        proof {
            reveal(crate::syntax::parse_prose);
        }
        match self.parse_delimited(
            '<',
            CharClass::Prose,
            '>',
            "expected opening `<`",
            "expected prose text",
            "expected closing `>`",
        ) {
            Ok(s) => Ok(ExpressionKind::Prose(s)),
            Err(e) => Err(e),
        }
    }

    /// Parse e.g. `// Single line comment.`.
    pub fn parse_comment(&mut self) -> (r: Result<ExpressionKind, Error>)
        requires
            old(self).wf(),
        ensures
            final(self).read(
                *old(self),
                crate::syntax::parse_comment(old(self).input@, old(self).index as int),
                r,
            ),
            r matches Ok(k) ==> crate::expression::ranges_hold(plain(k@), true)
                && final(self).index > old(self).index,
    {
        proof {
            reveal(crate::syntax::parse_comment);
        }
        proof {
            reveal_strlit("//");
        }
        match self.expect("//", "expected `//`") {
            Err(e) => {
                return Err(e);
            },
            Ok(()) => {},
        }
        let text = self.take_while(CharClass::Line);
        Ok(ExpressionKind::Comment(text))
    }

    /// Reads a reference to a production, if a name starts here.
    pub fn parse_nonterminal(&mut self) -> (kind: Option<ExpressionKind>)
        requires
            old(self).wf(),
        ensures
            final(self).read(
                *old(self),
                crate::syntax::parse_nonterminal(old(self).input@, old(self).index as int),
                Ok::<Option<ExpressionKind>, Error>(kind),
            ),
            kind matches Some(k) ==> crate::expression::ranges_hold(plain(k@), true) && final(self).index > old(self).index,
    {
        match self.parse_name() {
            Some(nt) => Some(ExpressionKind::Nt(nt)),
            None => None,
        }
    }

    /// Parse e.g. `F00F` after `U+`.
    pub fn parse_unicode(&mut self) -> (r: Result<(char, String), Error>)
        requires
            old(self).wf(),
        ensures
            final(self).read(
                *old(self),
                crate::syntax::parse_unicode(old(self).input@, old(self).index as int),
                r,
            ),
    {
        proof {
            reveal(crate::syntax::parse_unicode);
        }
        let start = self.index;
        let mut value: u32 = 0;
        let mut n: usize = 0;
        assert(self.input@.subrange(start as int, start as int) =~= Seq::<char>::empty());
        while n < 6 && self.index < self.input.len() && (('0' <= self.input[self.index]
            && self.input[self.index] <= '9') || ('A' <= self.input[self.index]
            && self.input[self.index] <= 'F'))
            invariant
                self.input@ == old(self).input@,
                self.wf(),
                start == old(self).index,
                self.index == start + n,
                n <= 6,
                crate::syntax::hex_run(self.input@, start as int, 6) == n + crate::syntax::hex_run(
                    self.input@,
                    self.index as int,
                    (6 - n) as nat,
                ),
                crate::syntax::hex_run(self.input@, start as int, 4) == (if n <= 4 {
                    n + crate::syntax::hex_run(self.input@, self.index as int, (4 - n) as nat)
                } else {
                    4
                }),
                value == crate::syntax::hex_value(
                    self.input@.subrange(start as int, self.index as int),
                ),
                value < hex_bound(n as nat),
            decreases 6 - n,
        {
            reveal_with_fuel(hex_bound, 8);
            let c = self.input[self.index];
            proof {
                let i = self.index as int;
                assert(crate::syntax::hex_run(self.input@, i, (6 - n) as nat) == 1
                    + crate::syntax::hex_run(self.input@, i + 1, (6 - n - 1) as nat));
                if n < 4 {
                    assert(crate::syntax::hex_run(self.input@, i, (4 - n) as nat) == 1
                        + crate::syntax::hex_run(self.input@, i + 1, (4 - n - 1) as nat));
                }
                if n == 3 {
                    assert(crate::syntax::hex_run(self.input@, i + 1, 0) == 0);
                }
            }
            let d: u32 = if '0' <= c && c <= '9' {
                c as u32 - '0' as u32
            } else {
                c as u32 - 'A' as u32 + 10
            };
            proof {
                assert(self.input@.subrange(start as int, self.index + 1).drop_last()
                    =~= self.input@.subrange(start as int, self.index as int));
                assert(self.input@.subrange(start as int, self.index + 1).last() == c);
            }
            value = value * 16 + d;
            self.index = self.index + 1;
            n = n + 1;
        }
        if n < 4 {
            return Err(self.error("expected 4 uppercase hexadecimal digits after `U+`"));
        }
        let digits = slice_string(&self.input, start, self.index);
        match char::from_u32(value) {
            Some(c) => {
                proof {
                    vstd::utf8::char_u32_cast(c, value);
                }
                Ok((c, digits))
            },
            None => Err(self.error("expected a Unicode scalar value after `U+`")),
        }
    }

    /// Reads one end of a character range, if one starts here.
    pub fn parse_character(&mut self) -> (r: Result<Option<Character>, Error>)
        requires
            old(self).wf(),
        ensures
            final(self).read(
                *old(self),
                crate::syntax::parse_character(old(self).input@, old(self).index as int),
                r,
            ),
    {
        proof {
            reveal_strlit("U+");
        }
        if self.index < self.input.len() && self.input[self.index] == '`' {
            let recov = self.index;
            match self.parse_terminal_str() {
                Err(e) => Err(e),
                Ok(term) => {
                    proof {
                        lemma_byte_len_bounds(self.input@, recov + 1, self.index - 1);
                    }
                    if byte_count(&self.input, recov + 1, self.index - 1) > 1 {
                        self.index = recov + 1;
                        Err(self.error("invalid start terminal in range"))
                    } else {
                        Ok(Some(Character::Char(self.input[recov + 1])))
                    }
                },
            }
        } else if self.take_str("U+") {
            match self.parse_unicode() {
                Ok(u) => Ok(Some(Character::Unicode(u))),
                Err(e) => Err(e),
            }
        } else {
            Ok(None)
        }
    }

    /// Reads the second end of a character range.
    fn parse_range_end(&mut self, first: Character) -> (r: Result<Option<Characters>, Error>)
        requires
            old(self).wf(),
        ensures
            final(self).read(
                *old(self),
                crate::syntax::parse_range_end(old(self).input@, old(self).index as int, first@),
                r,
            ),
    {
        match self.parse_character() {
            Err(e) => Err(e),
            Ok(None) => Err(self.error("expected character in range")),
            Ok(Some(second)) => Ok(Some(Characters::Range(first, second))),
        }
    }

    /// Parse an element of a character class, e.g.
    /// `` `a`-`b` `` | `` `term` `` | `` NonTerminal ``.
    pub fn parse_characters(&mut self) -> (r: Result<Option<Characters>, Error>)
        requires
            old(self).wf(),
        ensures
            final(self).read(
                *old(self),
                crate::syntax::parse_characters(old(self).input@, old(self).index as int),
                r,
            ),
    {
        proof {
            reveal_strlit("U+");
        }
        if self.index < self.input.len() && self.input[self.index] == '`' {
            let recov = self.index;
            let term = match self.parse_terminal_str() {
                Err(e) => {
                    return Err(e);
                },
                Ok(term) => term,
            };
            if self.index < self.input.len() && self.input[self.index] == '-' {
                proof {
                    lemma_byte_len_bounds(self.input@, recov + 1, self.index - 1);
                }
                if byte_count(&self.input, recov + 1, self.index - 1) > 1 {
                    self.index = recov + 1;
                    return Err(self.error("invalid start terminal in range"));
                }
                let first = Character::Char(self.input[recov + 1]);
                self.index = self.index + 1;
                self.parse_range_end(first)
            } else {
                Ok(Some(Characters::Terminal(term)))
            }
        } else if self.take_str("U+") {
            let u = match self.parse_unicode() {
                Err(e) => {
                    return Err(e);
                },
                Ok(u) => u,
            };
            if self.index < self.input.len() && self.input[self.index] == '-' {
                self.index = self.index + 1;
                self.parse_range_end(Character::Unicode(u))
            } else {
                Err(self.error("unicode not supported"))
            }
        } else {
            match self.parse_name() {
                Some(name) => Ok(Some(Characters::Named(name))),
                None => Ok(None),
            }
        }
    }

    /// Reads the members of a character set.
    fn parse_members(&mut self) -> (r: Result<Vec<Characters>, Error>)
        requires
            old(self).wf(),
        ensures
            final(self).advanced(
                *old(self),
                crate::syntax::parse_members(
                    old(self).input@,
                    old(self).index as int,
                    Seq::empty(),
                ).advance,
            ),
            match r {
                Ok(set) => crate::syntax::parse_members(
                    old(self).input@,
                    old(self).index as int,
                    Seq::empty(),
                ).result == Ok::<_, Seq<char>>(crate::expression::charset_view(set@)),
                Err(e) => failed_with(
                    crate::syntax::parse_members(
                        old(self).input@,
                        old(self).index as int,
                        Seq::empty(),
                    ).result,
                    e,
                    final(self).input@,
                    final(self).index as int,
                ),
            },
    {
        let ghost first = self.index as int;
        let mut characters: Vec<Characters> = Vec::new();
        assert(crate::expression::charset_view(characters@) =~= Seq::empty());
        loop
            invariant
                self.input@ == old(self).input@,
                self.wf(),
                first == old(self).index,
                first <= self.index,
                crate::syntax::parse_members(self.input@, first, Seq::empty()).result
                    == crate::syntax::parse_members(
                    self.input@,
                    self.index as int,
                    crate::expression::charset_view(characters@),
                ).result,
                crate::syntax::parse_members(self.input@, first, Seq::empty()).advance == (
                self.index - first) + crate::syntax::parse_members(
                    self.input@,
                    self.index as int,
                    crate::expression::charset_view(characters@),
                ).advance,
            decreases self.input.len() - self.index,
        {
            let ghost found = crate::expression::charset_view(characters@);
            self.space0();
            let ghost at_member = self.index as int;
            match self.parse_characters() {
                Err(e) => {
                    return Err(e);
                },
                Ok(None) => {
                    return Ok(characters);
                },
                Ok(Some(ch)) => {
                    characters.push(ch);
                    proof {
                        assert(crate::expression::charset_view(characters@) =~= found.push(ch@));
                        lemma_characters_progress(self.input@, at_member);
                    }
                },
            }
        }
    }

    /// Reads a character set between `[` and `]`.
    pub fn parse_charset(&mut self) -> (r: Result<ExpressionKind, Error>)
        requires
            old(self).wf(),
        ensures
            final(self).read(
                *old(self),
                crate::syntax::parse_charset(old(self).input@, old(self).index as int),
                r,
            ),
            r matches Ok(k) ==> crate::expression::ranges_hold(plain(k@), true)
                && final(self).index > old(self).index,
    {
        proof {
            reveal(crate::syntax::parse_charset);
        }
        match self.expect_char('[', "expected opening [") {
            Err(e) => {
                return Err(e);
            },
            Ok(()) => {},
        }
        let characters = match self.parse_members() {
            Err(e) => {
                return Err(e);
            },
            Ok(characters) => characters,
        };
        if characters.len() == 0 {
            return Err(self.error("expected at least one character in character group"));
        }
        self.space0();
        match self.expect_char(']', "expected closing ]") {
            Err(e) => Err(e),
            Ok(()) => Ok(ExpressionKind::Charset(characters)),
        }
    }
}

/// A member of a character set takes at least one character.
pub proof fn lemma_characters_progress(input: Seq<char>, i: int)
    requires
        0 <= i <= input.len(),
        crate::syntax::parse_characters(input, i).result matches Ok(Some(_)),
    ensures
        crate::syntax::parse_characters(input, i).advance > 0,
        i < input.len(),
{
    reveal_strlit("U+");
}

impl Parser {
    /// Parse `?` after expression.
    pub fn parse_optional(&mut self, kind: ExpressionKind) -> (r: Result<ExpressionKind, Error>)
        requires
            old(self).wf(),
        ensures
            final(self).read(
                *old(self),
                crate::syntax::parse_optional(old(self).input@, old(self).index as int, kind@),
                r,
            ),
    {
        match self.expect_char('?', "expected `?`") {
            Err(e) => Err(e),
            Ok(()) => Ok(ExpressionKind::Optional(box_kind(kind))),
        }
    }

    /// Parse `*` | `*?` after expression.
    pub fn parse_repeat(&mut self, kind: ExpressionKind) -> (r: Result<ExpressionKind, Error>)
        requires
            old(self).wf(),
        ensures
            final(self).read(
                *old(self),
                crate::syntax::parse_repeat(old(self).input@, old(self).index as int, kind@),
                r,
            ),
    {
        match self.expect_char('*', "expected `*`") {
            Err(e) => Err(e),
            Ok(()) => {
                if self.index < self.input.len() && self.input[self.index] == '?' {
                    self.index = self.index + 1;
                    Ok(ExpressionKind::RepeatNonGreedy(box_kind(kind)))
                } else {
                    Ok(ExpressionKind::Repeat(box_kind(kind)))
                }
            },
        }
    }

    /// Parse `+` | `+?` after expression.
    pub fn parse_repeat_plus(&mut self, kind: ExpressionKind) -> (r: Result<ExpressionKind, Error>)
        requires
            old(self).wf(),
        ensures
            final(self).read(
                *old(self),
                crate::syntax::parse_repeat_plus(old(self).input@, old(self).index as int, kind@),
                r,
            ),
    {
        match self.expect_char('+', "expected `+`") {
            Err(e) => Err(e),
            Ok(()) => {
                if self.index < self.input.len() && self.input[self.index] == '?' {
                    self.index = self.index + 1;
                    Ok(ExpressionKind::RepeatPlusNonGreedy(box_kind(kind)))
                } else {
                    Ok(ExpressionKind::RepeatPlus(box_kind(kind)))
                }
            },
        }
    }

    /// Reads a bound of a repetition range, if digits stand here.
    fn parse_bound(&mut self, message: &str) -> (r: Result<Option<u32>, Error>)
        requires
            old(self).wf(),
        ensures
            final(self).read(
                *old(self),
                crate::syntax::parse_bound(old(self).input@, old(self).index as int, message@),
                r,
            ),
    {
        let start = self.index;
        let mut value: u32 = 0;
        let mut overflow = false;
        assert(self.input@.subrange(start as int, start as int) =~= Seq::<char>::empty());
        while self.index < self.input.len() && '0' <= self.input[self.index]
            && self.input[self.index] <= '9'
            invariant
                self.input@ == old(self).input@,
                self.wf(),
                start == old(self).index,
                start <= self.index,
                run(self.input@, start as int, CharClass::Digit) == (self.index - start) + run(
                    self.input@,
                    self.index as int,
                    CharClass::Digit,
                ),
                !overflow ==> value == crate::syntax::decimal_value(
                    self.input@.subrange(start as int, self.index as int),
                ),
                overflow ==> crate::syntax::decimal_value(
                    self.input@.subrange(start as int, self.index as int),
                ) > u32::MAX,
            decreases self.input.len() - self.index,
        {
            let c = self.input[self.index];
            let d: u32 = c as u32 - '0' as u32;
            proof {
                assert(self.input@.subrange(start as int, self.index + 1).drop_last()
                    =~= self.input@.subrange(start as int, self.index as int));
                assert(self.input@.subrange(start as int, self.index + 1).last() == c);
            }
            if !overflow {
                match value.checked_mul(10) {
                    Some(tens) => match tens.checked_add(d) {
                        Some(sum) => {
                            value = sum;
                        },
                        None => {
                            overflow = true;
                        },
                    },
                    None => {
                        overflow = true;
                    },
                }
            }
            self.index = self.index + 1;
        }
        if self.index == start {
            Ok(None)
        } else if overflow {
            Err(self.error(message))
        } else {
            Ok(Some(value))
        }
    }

    /// Parse `{a..b}` | `{a..=b}` after expression.
    pub fn parse_repeat_range(&mut self, kind: ExpressionKind) -> (r: Result<ExpressionKind, Error>)
        requires
            old(self).wf(),
        ensures
            final(self).read(
                *old(self),
                crate::syntax::parse_repeat_range(old(self).input@, old(self).index as int, kind@),
                r,
            ),
            r matches Ok(k) ==> ranges_intact(kind@, k@),
    {
        proof {
            reveal_strlit("..");
        }
        match self.expect_char('{', "expected `{`") {
            Err(e) => {
                return Err(e);
            },
            Ok(()) => {},
        }
        let min = match self.parse_bound("malformed range start") {
            Err(e) => {
                return Err(e);
            },
            Ok(min) => min,
        };
        match self.expect("..", "expected `..` or `..=`") {
            Err(e) => {
                return Err(e);
            },
            Ok(()) => {},
        }
        let limit = if self.index < self.input.len() && self.input[self.index] == '=' {
            self.index = self.index + 1;
            RangeLimit::Closed
        } else {
            RangeLimit::HalfOpen
        };
        let max = match self.parse_bound("malformed range end") {
            Err(e) => {
                return Err(e);
            },
            Ok(max) => max,
        };
        match check_range(min, max, limit) {
            Some(message) => {
                return Err(self.error(message.as_str()));
            },
            None => {},
        }
        match self.expect_char('}', "expected `}`") {
            Err(e) => Err(e),
            Ok(()) => Ok(ExpressionKind::RepeatRange { expr: box_kind(kind), min, max, limit }),
        }
    }

    /// Reads the postfix that follows an operand, if there is one.
    pub fn parse_postfix(&mut self, kind: ExpressionKind) -> (r: Result<ExpressionKind, Error>)
        requires
            old(self).wf(),
        ensures
            final(self).read(
                *old(self),
                crate::syntax::parse_postfix(old(self).input@, old(self).index as int, kind@),
                r,
            ),
            r matches Ok(k) ==> ranges_intact(kind@, k@),
    {
        match self.peek() {
            Some('?') => self.parse_optional(kind),
            Some('*') => self.parse_repeat(kind),
            Some('+') => self.parse_repeat_plus(kind),
            Some('{') => self.parse_repeat_range(kind),
            _ => Ok(kind),
        }
    }

    /// Reads a suffix, if one starts here.
    pub fn parse_suffix(&mut self) -> (r: Result<Option<String>, Error>)
        requires
            old(self).wf(),
        ensures
            final(self).read(
                *old(self),
                crate::syntax::parse_suffix(old(self).input@, old(self).index as int),
                r,
            ),
    {
        proof {
            reveal_strlit(" _");
        }
        if !self.take_str(" _") {
            return Ok(None);
        }
        let mut in_backtick = false;
        let start = self.index;
        loop
            invariant
                self.input@ == old(self).input@,
                self.wf(),
                start == old(self).index + 2,
                start <= self.index,
                starts_with(self.input@, old(self).index as int, " _"@),
                crate::syntax::suffix_end(self.input@, start as int, false).result
                    == crate::syntax::suffix_end(
                    self.input@,
                    self.index as int,
                    in_backtick,
                ).result,
                crate::syntax::suffix_end(self.input@, start as int, false).advance == (self.index
                    - start) + crate::syntax::suffix_end(
                    self.input@,
                    self.index as int,
                    in_backtick,
                ).advance,
            decreases self.input.len() - self.index,
        {
            let next = match self.peek() {
                Some(c) => c,
                None => {
                    return Err(self.error("failed to find end of _ suffixed text"));
                },
            };
            self.index = self.index + 1;
            if next == '\n' {
                return Err(self.error("failed to find end of _ suffixed text"));
            } else if next == '`' {
                in_backtick = !in_backtick;
            } else if next == '_' && !in_backtick {
                let at_end = match self.peek() {
                    Some(c) => c == '\n' || c == ' ',
                    None => true,
                };
                if at_end {
                    return Ok(Some(slice_string(&self.input, start, self.index - 1)));
                }
            }
        }
    }

    /// Parse footnote reference, e.g. `[^id]`.
    pub fn parse_footnote(&mut self) -> (r: Result<Option<String>, Error>)
        requires
            old(self).wf(),
        ensures
            final(self).read(
                *old(self),
                crate::syntax::parse_footnote(old(self).input@, old(self).index as int),
                r,
            ),
    {
        proof {
            reveal_strlit("[^");
        }
        if !self.take_str("[^") {
            return Ok(None);
        }
        let start = self.index;
        let id = self.take_while(CharClass::Footnote);
        if self.index == start {
            return Err(self.error("expected footnote id"));
        }
        match self.expect_char(']', "expected closing `]`") {
            Err(e) => Err(e),
            Ok(()) => Ok(Some(id)),
        }
    }

    /// Reads what follows the operand of a term, and gives the whole term.
    pub fn parse_decorations(&mut self, kind: ExpressionKind) -> (r: Result<
        Option<Expression>,
        Error,
    >)
        requires
            old(self).wf(),
        ensures
            final(self).read(
                *old(self),
                crate::syntax::parse_decorations(old(self).input@, old(self).index as int, kind@),
                r,
            ),
            r matches Ok(Some(e)) ==> ranges_intact(kind@, e@.kind),
    {
        proof {
            reveal(crate::syntax::parse_decorations);
        }
        let kind = match self.parse_postfix(kind) {
            Err(e) => {
                return Err(e);
            },
            Ok(kind) => kind,
        };
        let suffix = match self.parse_suffix() {
            Err(e) => {
                return Err(e);
            },
            Ok(suffix) => suffix,
        };
        let footnote = match self.parse_footnote() {
            Err(e) => {
                return Err(e);
            },
            Ok(footnote) => footnote,
        };
        Ok(Some(Expression { kind, suffix, footnote }))
    }

    /// Reads what a line feed inside an expression stands for: `None` for
    /// the end of the expression, else a line break.
    pub fn parse_break(&mut self) -> (r: Result<Option<ExpressionKind>, Error>)
        requires
            old(self).wf(),
            at(old(self).input@, old(self).index as int) == Some('\n'),
        ensures
            final(self).read(
                *old(self),
                crate::syntax::parse_break(old(self).input@, old(self).index as int),
                r,
            ),
            final(self).index > old(self).index,
            r matches Ok(Some(k)) ==> crate::expression::ranges_hold(plain(k@), true),
    {
        proof {
            reveal(crate::syntax::parse_break);
        }
        self.index = self.index + 1;
        if self.eof() {
            return Ok(None);
        }
        if self.input[self.index] == '\n' {
            self.index = self.index + 1;
            return Ok(None);
        }
        let start = self.index;
        self.space0();
        let spaces = self.index - start;
        if spaces == 0 {
            return Err(self.error("expected indentation on next line"));
        }
        Ok(Some(ExpressionKind::Break(spaces)))
    }

    /// Reads a negation: `~` before a character set, a terminal or a name.
    pub fn parse_neg_expression(&mut self) -> (r: Result<ExpressionKind, Error>)
        requires
            old(self).wf(),
        ensures
            final(self).read(
                *old(self),
                crate::syntax::parse_neg_expression(old(self).input@, old(self).index as int),
                r,
            ),
            r matches Ok(k) ==> crate::expression::ranges_hold(plain(k@), true)
                && final(self).index > old(self).index,
    {
        proof {
            reveal(crate::syntax::parse_neg_expression);
            reveal_with_fuel(crate::expression::ranges_hold, 2);
        }
        match self.expect_char('~', "expected ~") {
            Err(e) => {
                return Err(e);
            },
            Ok(()) => {},
        }
        let next = match self.peek() {
            Some(c) => c,
            None => {
                return Err(self.error("expected expression after ~"));
            },
        };
        let kind = if next == '[' {
            match self.parse_charset() {
                Ok(kind) => kind,
                Err(e) => {
                    return Err(e);
                },
            }
        } else if next == '`' {
            match self.parse_terminal() {
                Ok(kind) => kind,
                Err(e) => {
                    return Err(e);
                },
            }
        } else {
            match self.parse_nonterminal() {
                Some(kind) => kind,
                None => {
                    return Err(
                        self.error("expected a charset, terminal, or name after ~ negation"),
                    );
                },
            }
        };
        Ok(ExpressionKind::NegExpression(box_kind(kind)))
    }
}

/// Whether the ranges of `after` are as they should be, if those of
/// `before` are: so it is where `after` is `before` itself or `before` under
/// a postfix.
pub open spec fn ranges_intact(before: ExpressionKindView, after: ExpressionKindView) -> bool {
    crate::expression::ranges_hold(plain(before), true) ==> crate::expression::ranges_hold(
        plain(after),
        true,
    )
}

} // verus!
