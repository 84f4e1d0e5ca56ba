//! The notation, as functions on a text: what each construct reads from a
//! position, how far it reads, and the message with which it fails.

use vstd::prelude::*;
use crate::expression::{
    CharacterView, CharactersView, ExpressionKindView, ExpressionView, RangeLimit,
};
use crate::store::ProductionView;
use crate::text::decimal;

verus! {

/// What `char::is_alphanumeric` of std returns: whether the character is
/// alphabetic or numeric in Unicode's sense.
pub uninterp spec fn is_alphanumeric(c: char) -> bool;

/// `char::is_alphanumeric` of std: a function of the character alone.
pub assume_specification[ char::is_alphanumeric ](c: char) -> (b: bool)
    ensures
        b == is_alphanumeric(c),
;

/// What reading a construct at a position gives: how many characters were
/// passed, and the value read or the message of the failure. After a failure
/// `advance` leads to where the failure was found.
pub struct Parsed<T> {
    pub advance: nat,
    pub result: Result<T, Seq<char>>,
}

/// A value read over `advance` characters.
pub open spec fn done<T>(advance: nat, value: T) -> Parsed<T> {
    Parsed { advance, result: Ok(value) }
}

/// A failure found `advance` characters on.
pub open spec fn fail<T>(advance: nat, message: Seq<char>) -> Parsed<T> {
    Parsed { advance, result: Err(message) }
}

/// The classes of characters that a run is made of.
#[derive(Clone, Copy, Debug, PartialEq, Eq, Structural)]
pub enum CharClass {
    /// A line feed.
    Newline,
    /// A space.
    Space,
    /// A character of a name: alphanumeric or `_`.
    Name,
    /// A decimal digit.
    Digit,
    /// Anything but a line feed.
    Line,
    /// Anything but a line feed or a backtick.
    Terminal,
    /// Anything but a line feed or `>`.
    Prose,
    /// Anything but a line feed or `]`.
    Footnote,
}

/// Whether the character belongs to the class.
pub open spec fn in_class(class: CharClass, c: char) -> bool {
    match class {
        CharClass::Newline => c == '\n',
        CharClass::Space => c == ' ',
        CharClass::Name => is_alphanumeric(c) || c == '_',
        CharClass::Digit => '0' <= c <= '9',
        CharClass::Line => c != '\n',
        CharClass::Terminal => c != '\n' && c != '`',
        CharClass::Prose => c != '\n' && c != '>',
        CharClass::Footnote => c != '\n' && c != ']',
    }
}

/// The number of characters from the position to the end of the text.
pub open spec fn left(input: Seq<char>, i: int) -> nat {
    if i <= input.len() {
        (input.len() - i) as nat
    } else {
        0
    }
}

/// The character at the position, if the text reaches that far.
pub open spec fn at(input: Seq<char>, i: int) -> Option<char> {
    if 0 <= i < input.len() {
        Some(input[i])
    } else {
        None
    }
}

/// Whether the text continues with `s` at the position.
pub open spec fn starts_with(input: Seq<char>, i: int, s: Seq<char>) -> bool {
    0 <= i && i + s.len() <= input.len() && input.subrange(i, i + s.len()) == s
}

/// The number of characters of the class that follow one another from the
/// position on.
pub open spec fn run(input: Seq<char>, i: int, class: CharClass) -> nat
    decreases input.len() - i,
{
    if 0 <= i < input.len() && in_class(class, input[i]) {
        1 + run(input, i + 1, class)
    } else {
        0
    }
}

/// The text of `n` characters from the position on.
pub open spec fn text(input: Seq<char>, i: int, n: nat) -> Seq<char> {
    input.subrange(i, i + n)
}

/// Reads `s`, or fails with `message` where the text does not continue with it.
pub open spec fn expect(input: Seq<char>, i: int, s: Seq<char>, message: Seq<char>) -> Parsed<()> {
    if starts_with(input, i, s) {
        done(s.len(), ())
    } else {
        fail(0, message)
    }
}

/// The number of bytes of the character's UTF-8 encoding.
pub open spec fn utf8_width(c: char) -> nat {
    if (c as u32) < 0x80 {
        1
    } else if (c as u32) < 0x800 {
        2
    } else if (c as u32) < 0x10000 {
        3
    } else {
        4
    }
}

/// The number of bytes of the text's UTF-8 encoding.
pub open spec fn byte_len(s: Seq<char>) -> nat
    decreases s.len(),
{
    if s.len() == 0 {
        0
    } else {
        byte_len(s.drop_last()) + utf8_width(s.last())
    }
}

/// The value of a decimal digit.
pub open spec fn digit_value(c: char) -> nat {
    (c as u32 - '0' as u32) as nat
}

/// The number that the decimal digits denote.
pub open spec fn decimal_value(digits: Seq<char>) -> nat
    decreases digits.len(),
{
    if digits.len() == 0 {
        0
    } else {
        decimal_value(digits.drop_last()) * 10 + digit_value(digits.last())
    }
}

/// Whether the character is a digit or one of `A` to `F`.
pub open spec fn is_hex(c: char) -> bool {
    '0' <= c <= '9' || 'A' <= c <= 'F'
}

/// The value of a hexadecimal digit.
pub open spec fn hex_digit_value(c: char) -> nat {
    if '0' <= c <= '9' {
        (c as u32 - '0' as u32) as nat
    } else {
        (c as u32 - 'A' as u32 + 10) as nat
    }
}

/// The number that the hexadecimal digits denote.
pub open spec fn hex_value(digits: Seq<char>) -> nat
    decreases digits.len(),
{
    if digits.len() == 0 {
        0
    } else {
        hex_value(digits.drop_last()) * 16 + hex_digit_value(digits.last())
    }
}

/// The number of hexadecimal digits from the position on, up to `most`.
pub open spec fn hex_run(input: Seq<char>, i: int, most: nat) -> nat
    decreases most,
{
    if most > 0 && 0 <= i < input.len() && is_hex(input[i]) {
        1 + hex_run(input, i + 1, (most - 1) as nat)
    } else {
        0
    }
}

/// Whether the number is a Unicode scalar value.
pub open spec fn is_scalar_value(v: nat) -> bool {
    v <= 0x10FFFF && !(0xD800 <= v <= 0xDFFF)
}

/// A code point after `U+`: four to six uppercase hexadecimal digits that
/// denote a scalar value. The digits are kept as written.
#[verifier::opaque]
pub open spec fn parse_unicode(input: Seq<char>, i: int) -> Parsed<(char, Seq<char>)> {
    if hex_run(input, i, 4) < 4 {
        fail(hex_run(input, i, 4), "expected 4 uppercase hexadecimal digits after `U+`"@)
    } else {
        let n = hex_run(input, i, 6);
        let digits = text(input, i, n);
        if is_scalar_value(hex_value(digits)) {
            done(n, ((hex_value(digits) as u32) as char, digits))
        } else {
            fail(n, "expected a Unicode scalar value after `U+`"@)
        }
    }
}

/// A name: a run of name characters, or nothing where there is none.
pub open spec fn parse_name(input: Seq<char>, i: int) -> Parsed<Option<Seq<char>>> {
    let n = run(input, i, CharClass::Name);
    if n == 0 {
        done(0, None)
    } else {
        done(n, Some(text(input, i, n)))
    }
}

/// A text between `open` and `close` on one line, which is not empty.
pub open spec fn parse_delimited(
    input: Seq<char>,
    i: int,
    open: char,
    class: CharClass,
    close: char,
    no_open: Seq<char>,
    no_text: Seq<char>,
    no_close: Seq<char>,
) -> Parsed<Seq<char>> {
    if at(input, i) != Some(open) {
        fail(0, no_open)
    } else {
        let n = run(input, i + 1, class);
        if n == 0 {
            fail(1, no_text)
        } else if at(input, i + 1 + n) != Some(close) {
            fail(1 + n, no_close)
        } else {
            done(n + 2, text(input, i + 1, n))
        }
    }
}

/// The text of a terminal between backticks.
pub open spec fn parse_terminal_str(input: Seq<char>, i: int) -> Parsed<Seq<char>> {
    parse_delimited(
        input,
        i,
        '`',
        CharClass::Terminal,
        '`',
        "expected opening backtick"@,
        "expected terminal"@,
        "expected closing backtick"@,
    )
}

/// A terminal between backticks.
#[verifier::opaque]
pub open spec fn parse_terminal(input: Seq<char>, i: int) -> Parsed<ExpressionKindView> {
    let t = parse_terminal_str(input, i);
    match t.result {
        Ok(s) => done(t.advance, ExpressionKindView::Terminal(s)),
        Err(m) => fail(t.advance, m),
    }
}

/// Prose between `<` and `>`.
#[verifier::opaque]
pub open spec fn parse_prose(input: Seq<char>, i: int) -> Parsed<ExpressionKindView> {
    let t = parse_delimited(
        input,
        i,
        '<',
        CharClass::Prose,
        '>',
        "expected opening `<`"@,
        "expected prose text"@,
        "expected closing `>`"@,
    );
    match t.result {
        Ok(s) => done(t.advance, ExpressionKindView::Prose(s)),
        Err(m) => fail(t.advance, m),
    }
}

/// A comment: `//` and the rest of the line.
#[verifier::opaque]
pub open spec fn parse_comment(input: Seq<char>, i: int) -> Parsed<ExpressionKindView> {
    if starts_with(input, i, "//"@) {
        let n = run(input, i + 2, CharClass::Line);
        done(2 + n, ExpressionKindView::Comment(text(input, i + 2, n)))
    } else {
        fail(0, "expected `//`"@)
    }
}

/// A reference to a production: a name.
pub open spec fn parse_nonterminal(input: Seq<char>, i: int) -> Parsed<Option<ExpressionKindView>> {
    let n = parse_name(input, i);
    match n.result {
        Ok(Some(name)) => done(n.advance, Some(ExpressionKindView::Nt(name))),
        _ => done(0, None),
    }
}

/// One end of a character range: a single character of one byte between
/// backticks, or a code point; nothing where neither starts here.
pub open spec fn parse_character(input: Seq<char>, i: int) -> Parsed<Option<CharacterView>> {
    if at(input, i) == Some('`') {
        let t = parse_terminal_str(input, i);
        match t.result {
            Ok(s) => if byte_len(s) > 1 {
                fail(1, "invalid start terminal in range"@)
            } else {
                done(t.advance, Some(CharacterView::Char(s[0])))
            },
            Err(m) => fail(t.advance, m),
        }
    } else if starts_with(input, i, "U+"@) {
        let u = parse_unicode(input, i + 2);
        match u.result {
            Ok((c, hex)) => done(2 + u.advance, Some(CharacterView::Unicode(c, hex))),
            Err(m) => fail(2 + u.advance, m),
        }
    } else {
        done(0, None)
    }
}

/// The second end of a character range, after the first end and the `-`.
pub open spec fn parse_range_end(
    input: Seq<char>,
    i: int,
    first: CharacterView,
) -> Parsed<Option<CharactersView>> {
    let b = parse_character(input, i);
    match b.result {
        Err(m) => fail(b.advance, m),
        Ok(None) => fail(b.advance, "expected character in range"@),
        Ok(Some(second)) => done(b.advance, Some(CharactersView::Range(first, second))),
    }
}

/// The reading `p`, after `n` characters that were passed before it.
pub open spec fn after<T>(n: nat, p: Parsed<T>) -> Parsed<T> {
    Parsed { advance: n + p.advance, result: p.result }
}

/// A member of a character set: a terminal between backticks; a range from
/// a single character of one byte between backticks, or from a code point,
/// to a second end after `-`; or a name. Nothing where none starts here. A
/// code point alone is not accepted.
pub open spec fn parse_characters(input: Seq<char>, i: int) -> Parsed<Option<CharactersView>> {
    if at(input, i) == Some('`') {
        let t = parse_terminal_str(input, i);
        match t.result {
            Err(m) => fail(t.advance, m),
            Ok(s) => if at(input, i + t.advance) != Some('-') {
                done(t.advance, Some(CharactersView::Terminal(s)))
            } else if byte_len(s) > 1 {
                fail(1, "invalid start terminal in range"@)
            } else {
                after(
                    t.advance + 1,
                    parse_range_end(input, i + t.advance + 1, CharacterView::Char(s[0])),
                )
            },
        }
    } else if starts_with(input, i, "U+"@) {
        let u = parse_unicode(input, i + 2);
        match u.result {
            Err(m) => fail(2 + u.advance, m),
            Ok((c, hex)) => if at(input, i + 2 + u.advance) != Some('-') {
                fail(2 + u.advance, "unicode not supported"@)
            } else {
                after(
                    2 + u.advance + 1,
                    parse_range_end(input, i + 2 + u.advance + 1, CharacterView::Unicode(c, hex)),
                )
            },
        }
    } else {
        let n = parse_name(input, i);
        match n.result {
            Ok(Some(name)) => done(n.advance, Some(CharactersView::Named(name))),
            _ => done(0, None),
        }
    }
}

/// The members of a character set from the position on, after those in
/// `found`: each may have spaces before it.
pub open spec fn parse_members(
    input: Seq<char>,
    i: int,
    found: Seq<CharactersView>,
) -> Parsed<Seq<CharactersView>>
    decreases left(input, i),
{
    let spaces = run(input, i, CharClass::Space);
    let c = parse_characters(input, i + spaces);
    match c.result {
        Err(m) => fail(spaces + c.advance, m),
        Ok(None) => done(spaces + c.advance, found),
        Ok(Some(member)) => if c.advance == 0 || i >= input.len() {
            done(spaces, found)
        } else {
            let rest = parse_members(input, i + spaces + c.advance, found.push(member));
            Parsed { advance: spaces + c.advance + rest.advance, result: rest.result }
        },
    }
}

/// A character set between `[` and `]`, with at least one member.
#[verifier::opaque]
pub open spec fn parse_charset(input: Seq<char>, i: int) -> Parsed<ExpressionKindView> {
    if at(input, i) != Some('[') {
        fail(0, "expected opening ["@)
    } else {
        let members = parse_members(input, i + 1, Seq::empty());
        match members.result {
            Err(m) => fail(1 + members.advance, m),
            Ok(set) => {
                let end = 1 + members.advance;
                if set.len() == 0 {
                    fail(end, "expected at least one character in character group"@)
                } else {
                    let spaces = run(input, i + end, CharClass::Space);
                    if at(input, i + end + spaces) != Some(']') {
                        fail(end + spaces, "expected closing ]"@)
                    } else {
                        done(end + spaces + 1, ExpressionKindView::Charset(set))
                    }
                }
            },
        }
    }
}

/// An expression of the given kind with no suffix and no footnote.
pub open spec fn plain(kind: ExpressionKindView) -> ExpressionView {
    ExpressionView { kind, suffix: None, footnote: None }
}

/// The message for a repetition range that the notation does not accept,
/// or `None` for one that it accepts.
pub open spec fn range_error(min: Option<u32>, max: Option<u32>, limit: RangeLimit) -> Option<
    Seq<char>,
> {
    match (min, max) {
        (Some(a), Some(b)) if b < a => Some(
            "range "@ + decimal(a as nat) + (if limit is HalfOpen {
                ".."@
            } else {
                "..="@
            }) + decimal(b as nat) + " is malformed"@,
        ),
        (Some(a), Some(b)) if b <= a && limit is HalfOpen => Some(
            "half-open range maximum must be greater than minimum"@,
        ),
        (None, Some(b)) if b == 0 && limit is HalfOpen => Some("half-open range `..0` is empty"@),
        (_, None) if limit is Closed => Some("closed range must have an upper bound"@),
        _ => None,
    }
}

/// A bound of a repetition range: a run of digits that denotes a number
/// within `u32`, or nothing; fails with `message` where the number is larger.
pub open spec fn parse_bound(input: Seq<char>, i: int, message: Seq<char>) -> Parsed<Option<u32>> {
    let n = run(input, i, CharClass::Digit);
    if n == 0 {
        done(0, None)
    } else if decimal_value(text(input, i, n)) > u32::MAX {
        fail(n, message)
    } else {
        done(n, Some(decimal_value(text(input, i, n)) as u32))
    }
}

/// The postfix `{min..max}` or `{min..=max}` after an operand of the given kind.
pub open spec fn parse_repeat_range(
    input: Seq<char>,
    i: int,
    kind: ExpressionKindView,
) -> Parsed<ExpressionKindView> {
    if at(input, i) != Some('{') {
        fail(0, "expected `{`"@)
    } else {
        let lo = parse_bound(input, i + 1, "malformed range start"@);
        match lo.result {
            Err(m) => fail(1 + lo.advance, m),
            Ok(min) => {
                let dots = 1 + lo.advance;
                if !starts_with(input, i + dots, ".."@) {
                    fail(dots, "expected `..` or `..=`"@)
                } else {
                    let closed = at(input, i + dots + 2) == Some('=');
                    let limit = if closed {
                        RangeLimit::Closed
                    } else {
                        RangeLimit::HalfOpen
                    };
                    let upper = dots + 2 + (if closed {
                        1nat
                    } else {
                        0nat
                    });
                    let hi = parse_bound(input, i + upper, "malformed range end"@);
                    match hi.result {
                        Err(m) => fail(upper + hi.advance, m),
                        Ok(max) => {
                            let end = upper + hi.advance;
                            match range_error(min, max, limit) {
                                Some(m) => fail(end, m),
                                None => if at(input, i + end) != Some('}') {
                                    fail(end, "expected `}`"@)
                                } else {
                                    done(
                                        end + 1,
                                        ExpressionKindView::RepeatRange {
                                            expr: Box::new(plain(kind)),
                                            min,
                                            max,
                                            limit,
                                        },
                                    )
                                },
                            }
                        },
                    }
                }
            },
        }
    }
}

/// The postfix `?` after an operand of the given kind.
pub open spec fn parse_optional(input: Seq<char>, i: int, kind: ExpressionKindView) -> Parsed<
    ExpressionKindView,
> {
    if at(input, i) != Some('?') {
        fail(0, "expected `?`"@)
    } else {
        done(1, ExpressionKindView::Optional(Box::new(plain(kind))))
    }
}

/// The postfix `*` or `*?` after an operand of the given kind.
pub open spec fn parse_repeat(input: Seq<char>, i: int, kind: ExpressionKindView) -> Parsed<
    ExpressionKindView,
> {
    if at(input, i) != Some('*') {
        fail(0, "expected `*`"@)
    } else if at(input, i + 1) == Some('?') {
        done(2, ExpressionKindView::RepeatNonGreedy(Box::new(plain(kind))))
    } else {
        done(1, ExpressionKindView::Repeat(Box::new(plain(kind))))
    }
}

/// The postfix `+` or `+?` after an operand of the given kind.
pub open spec fn parse_repeat_plus(input: Seq<char>, i: int, kind: ExpressionKindView) -> Parsed<
    ExpressionKindView,
> {
    if at(input, i) != Some('+') {
        fail(0, "expected `+`"@)
    } else if at(input, i + 1) == Some('?') {
        done(2, ExpressionKindView::RepeatPlusNonGreedy(Box::new(plain(kind))))
    } else {
        done(1, ExpressionKindView::RepeatPlus(Box::new(plain(kind))))
    }
}

/// The postfix that may follow an operand of the given kind: `?`, `*` or
/// `*?`, `+` or `+?`, or a repetition range; the kind itself where none does.
pub open spec fn parse_postfix(input: Seq<char>, i: int, kind: ExpressionKindView) -> Parsed<
    ExpressionKindView,
> {
    match at(input, i) {
        Some('?') => parse_optional(input, i, kind),
        Some('*') => parse_repeat(input, i, kind),
        Some('+') => parse_repeat_plus(input, i, kind),
        Some('{') => parse_repeat_range(input, i, kind),
        _ => done(0, kind),
    }
}

/// Where the text of a suffix ends, looking on from the position: at a `_`
/// outside backticks that is followed by a space, a line feed or the end of
/// the text. `advance` passes that `_`. Fails at the end of the line.
pub open spec fn suffix_end(input: Seq<char>, i: int, in_backtick: bool) -> Parsed<()>
    decreases input.len() - i,
{
    if i < 0 || i >= input.len() {
        fail(0, "failed to find end of _ suffixed text"@)
    } else if input[i] == '\n' {
        fail(1, "failed to find end of _ suffixed text"@)
    } else if input[i] == '_' && !in_backtick && (at(input, i + 1) is None || at(input, i + 1)
        == Some('\n') || at(input, i + 1) == Some(' ')) {
        done(1, ())
    } else {
        let rest = suffix_end(
            input,
            i + 1,
            if input[i] == '`' {
                !in_backtick
            } else {
                in_backtick
            },
        );
        Parsed { advance: 1 + rest.advance, result: rest.result }
    }
}

/// A suffix: a space, `_`, the text, `_`; nothing where no ` _` stands here.
pub open spec fn parse_suffix(input: Seq<char>, i: int) -> Parsed<Option<Seq<char>>> {
    if !starts_with(input, i, " _"@) {
        done(0, None)
    } else {
        let end = suffix_end(input, i + 2, false);
        match end.result {
            Err(m) => fail(2 + end.advance, m),
            Ok(_) => done(2 + end.advance, Some(text(input, i + 2, (end.advance - 1) as nat))),
        }
    }
}

/// A footnote reference `[^id]`; nothing where no `[^` stands here.
pub open spec fn parse_footnote(input: Seq<char>, i: int) -> Parsed<Option<Seq<char>>> {
    if !starts_with(input, i, "[^"@) {
        done(0, None)
    } else {
        let n = run(input, i + 2, CharClass::Footnote);
        if n == 0 {
            fail(2, "expected footnote id"@)
        } else if at(input, i + 2 + n) != Some(']') {
            fail(2 + n, "expected closing `]`"@)
        } else {
            done(2 + n + 1, Some(text(input, i + 2, n)))
        }
    }
}

/// What follows the operand of a term: the postfix, the suffix and the
/// footnote. Gives the whole term.
#[verifier::opaque]
pub open spec fn parse_decorations(input: Seq<char>, i: int, kind: ExpressionKindView) -> Parsed<
    Option<ExpressionView>,
> {
    let post = parse_postfix(input, i, kind);
    match post.result {
        Err(m) => fail(post.advance, m),
        Ok(kind) => {
            let suffix = parse_suffix(input, i + post.advance);
            match suffix.result {
                Err(m) => fail(post.advance + suffix.advance, m),
                Ok(s) => {
                    let footnote = parse_footnote(input, i + post.advance + suffix.advance);
                    match footnote.result {
                        Err(m) => fail(post.advance + suffix.advance + footnote.advance, m),
                        Ok(f) => done(
                            post.advance + suffix.advance + footnote.advance,
                            Some(ExpressionView { kind, suffix: s, footnote: f }),
                        ),
                    }
                },
            }
        },
    }
}

/// What a line feed inside an expression means: the end of the expression
/// where the text ends or an empty line follows; else a line break with the
/// indentation of the next line, which must not be zero. `None` stands for
/// the end of the expression.
#[verifier::opaque]
pub open spec fn parse_break(input: Seq<char>, i: int) -> Parsed<Option<ExpressionKindView>> {
    if at(input, i + 1) is None {
        done(1, None)
    } else if at(input, i + 1) == Some('\n') {
        done(2, None)
    } else {
        let spaces = run(input, i + 1, CharClass::Space);
        if spaces == 0 {
            fail(1, "expected indentation on next line"@)
        } else {
            done(1 + spaces, Some(ExpressionKindView::Break(spaces as usize)))
        }
    }
}

/// The operand of a term, or nothing where no operand starts here (or a
/// line feed ends the expression). It is the first of these that fits: a
/// code point; a name; a line break; a comment; a terminal; a character
/// set; prose; a group; a negation; a negative lookahead.
#[verifier::opaque]
pub open spec fn parse_operand(input: Seq<char>, i: int) -> Parsed<Option<ExpressionKindView>>
    decreases left(input, i), 1nat,
{
    if i < 0 || i >= input.len() {
        done(0, None)
    } else if starts_with(input, i, "U+"@) {
        let u = parse_unicode(input, i + 2);
        match u.result {
            Ok((c, hex)) => done(2 + u.advance, Some(ExpressionKindView::Unicode(c, hex))),
            Err(m) => fail(2 + u.advance, m),
        }
    } else if is_alphanumeric(input[i]) {
        parse_nonterminal(input, i)
    } else if input[i] == '\n' {
        parse_break(input, i)
    } else if input[i] == '/' {
        some(parse_comment(input, i))
    } else if input[i] == '`' {
        some(parse_terminal(input, i))
    } else if input[i] == '[' {
        some(parse_charset(input, i))
    } else if input[i] == '<' {
        some(parse_prose(input, i))
    } else if input[i] == '(' {
        some(parse_grouped(input, i))
    } else if input[i] == '~' {
        some(parse_neg_expression(input, i))
    } else if input[i] == '!' {
        some(parse_negative_lookahead(input, i))
    } else {
        done(0, None)
    }
}

/// The same reading, with the value as one that is there.
pub open spec fn some<T>(p: Parsed<T>) -> Parsed<Option<T>> {
    Parsed {
        advance: p.advance,
        result: match p.result {
            Ok(v) => Ok(Some(v)),
            Err(m) => Err(m),
        },
    }
}

/// A term: one operand with what may follow it, or nothing where there is
/// no operand.
#[verifier::opaque]
pub open spec fn parse_expr1(input: Seq<char>, i: int) -> Parsed<Option<ExpressionView>>
    decreases left(input, i), 2nat,
{
    let operand = parse_operand(input, i);
    match operand.result {
        Err(m) => fail(operand.advance, m),
        Ok(None) => done(operand.advance, None),
        Ok(Some(kind)) => {
            let rest = parse_decorations(input, i + operand.advance, kind);
            Parsed { advance: operand.advance + rest.advance, result: rest.result }
        },
    }
}

/// A group: an expression between `(` and `)`.
#[verifier::opaque]
pub open spec fn parse_grouped(input: Seq<char>, i: int) -> Parsed<ExpressionKindView>
    decreases left(input, i), 0nat,
{
    if at(input, i) != Some('(') {
        fail(0, "expected opening `(`"@)
    } else {
        let spaces = run(input, i + 1, CharClass::Space);
        let start = 1 + spaces;
        let e = parse_expression(input, i + start);
        match e.result {
            Err(m) => fail(start + e.advance, m),
            Ok(None) => fail(start + e.advance, "expected expression in parenthesized group"@),
            Ok(Some(inner)) => {
                let after = start + e.advance;
                let more = run(input, i + after, CharClass::Space);
                if at(input, i + after + more) != Some(')') {
                    fail(after + more, "expected closing `)`"@)
                } else {
                    done(after + more + 1, ExpressionKindView::Grouped(Box::new(inner)))
                }
            },
        }
    }
}

/// A negation: `~` before a character set, a terminal or a name.
#[verifier::opaque]
pub open spec fn parse_neg_expression(input: Seq<char>, i: int) -> Parsed<ExpressionKindView> {
    if at(input, i) != Some('~') {
        fail(0, "expected ~"@)
    } else {
        let operand = match at(input, i + 1) {
            None => fail(0, "expected expression after ~"@),
            Some('[') => parse_charset(input, i + 1),
            Some('`') => parse_terminal(input, i + 1),
            _ => {
                let n = parse_nonterminal(input, i + 1);
                match n.result {
                    Ok(Some(kind)) => done(n.advance, kind),
                    _ => fail(0, "expected a charset, terminal, or name after ~ negation"@),
                }
            },
        };
        match operand.result {
            Err(m) => fail(1 + operand.advance, m),
            Ok(kind) => done(
                1 + operand.advance,
                ExpressionKindView::NegExpression(Box::new(plain(kind))),
            ),
        }
    }
}

/// A negative lookahead: `!` before a term.
#[verifier::opaque]
pub open spec fn parse_negative_lookahead(input: Seq<char>, i: int) -> Parsed<ExpressionKindView>
    decreases left(input, i), 0nat,
{
    if at(input, i) != Some('!') {
        fail(0, "expected !"@)
    } else {
        let spaces = run(input, i + 1, CharClass::Space);
        let start = 1 + spaces;
        let e = parse_expr1(input, i + start);
        match e.result {
            Err(m) => fail(start + e.advance, m),
            Ok(None) => fail(start + e.advance, "expected expression after !"@),
            Ok(Some(inner)) => done(
                start + e.advance,
                ExpressionKindView::NegativeLookahead(Box::new(inner)),
            ),
        }
    }
}

/// The cut operator: `^` before the rest of the sequence, which is its operand.
#[verifier::opaque]
pub open spec fn parse_cut(input: Seq<char>, i: int) -> Parsed<ExpressionView>
    decreases left(input, i), 0nat,
{
    if at(input, i) != Some('^') {
        fail(0, "expected `^`"@)
    } else {
        let rest = parse_seq(input, i + 1);
        match rest.result {
            Err(m) => fail(1 + rest.advance, m),
            Ok(None) => fail(1 + rest.advance, "expected expression after cut operator"@),
            Ok(Some(rhs)) => done(1 + rest.advance, plain(ExpressionKindView::Cut(Box::new(rhs)))),
        }
    }
}

/// The terms of a sequence from the position on, after those in `found`:
/// each may have spaces before it, and a cut takes all that follows.
#[verifier::opaque]
pub open spec fn parse_terms(input: Seq<char>, i: int, found: Seq<ExpressionView>) -> Parsed<
    Seq<ExpressionView>,
>
    decreases left(input, i), 3nat,
{
    let spaces = run(input, i, CharClass::Space);
    if at(input, i + spaces) == Some('^') {
        let cut = parse_cut(input, i + spaces);
        match cut.result {
            Err(m) => fail(spaces + cut.advance, m),
            Ok(e) => done(spaces + cut.advance, found.push(e)),
        }
    } else {
        let term = parse_expr1(input, i + spaces);
        match term.result {
            Err(m) => fail(spaces + term.advance, m),
            Ok(None) => done(spaces + term.advance, found),
            Ok(Some(e)) => if term.advance == 0 || i >= input.len() {
                done(spaces, found)
            } else {
                let rest = parse_terms(input, i + spaces + term.advance, found.push(e));
                Parsed { advance: spaces + term.advance + rest.advance, result: rest.result }
            },
        }
    }
}

/// The expression for a list of terms or alternatives: nothing for none,
/// the one itself for one, else the list as a sequence or an alternation.
pub open spec fn collected(es: Seq<ExpressionView>, alt: bool) -> Option<ExpressionView> {
    if es.len() == 0 {
        None
    } else if es.len() == 1 {
        Some(es[0])
    } else if alt {
        Some(plain(ExpressionKindView::Alt(es)))
    } else {
        Some(plain(ExpressionKindView::Sequence(es)))
    }
}

/// A sequence: nothing where there is no term, the term itself where there
/// is one, else the terms as a sequence.
#[verifier::opaque]
pub open spec fn parse_seq(input: Seq<char>, i: int) -> Parsed<Option<ExpressionView>>
    decreases left(input, i), 4nat,
{
    let terms = parse_terms(input, i, Seq::empty());
    match terms.result {
        Err(m) => fail(terms.advance, m),
        Ok(es) => done(terms.advance, collected(es, false)),
    }
}

/// The alternatives of an expression from the position on, after those in
/// `found`: sequences with `|` between them.
#[verifier::opaque]
pub open spec fn parse_alternatives(
    input: Seq<char>,
    i: int,
    found: Seq<ExpressionView>,
) -> Parsed<Seq<ExpressionView>>
    decreases left(input, i), 5nat,
{
    let s = parse_seq(input, i);
    match s.result {
        Err(m) => fail(s.advance, m),
        Ok(None) => done(s.advance, found),
        Ok(Some(e)) => {
            let spaces = run(input, i + s.advance, CharClass::Space);
            let bar = s.advance + spaces;
            if at(input, i + bar) == Some('|') {
                let rest = parse_alternatives(input, i + bar + 1, found.push(e));
                Parsed { advance: bar + 1 + rest.advance, result: rest.result }
            } else {
                done(bar, found.push(e))
            }
        },
    }
}

/// An expression: nothing where there is no sequence, the sequence itself
/// where there is one, else the sequences as alternatives.
#[verifier::opaque]
pub open spec fn parse_expression(input: Seq<char>, i: int) -> Parsed<Option<ExpressionView>>
    decreases left(input, i), 6nat,
{
    let alts = parse_alternatives(input, i, Seq::empty());
    match alts.result {
        Err(m) => fail(alts.advance, m),
        Ok(es) => done(alts.advance, collected(es, true)),
    }
}

/// The comment lines before a production from the position on, after those
/// in `found`: each is a comment and a line feed, and is kept as the comment
/// and a break without indentation.
pub open spec fn parse_comment_lines(
    input: Seq<char>,
    i: int,
    found: Seq<ExpressionView>,
) -> Parsed<Seq<ExpressionView>>
    decreases left(input, i),
{
    if !starts_with(input, i, "//"@) {
        done(0, found)
    } else {
        let n = run(input, i + 2, CharClass::Line);
        if at(input, i + 2 + n) != Some('\n') {
            fail(2 + n, "expected newline"@)
        } else {
            let rest = parse_comment_lines(
                input,
                i + 2 + n + 1,
                found.push(plain(ExpressionKindView::Comment(text(input, i + 2, n)))).push(
                    plain(ExpressionKindView::Break(0)),
                ),
            );
            Parsed { advance: 2 + n + 1 + rest.advance, result: rest.result }
        }
    }
}

/// What of a production follows its comment lines: the root marker, if any;
/// spaces; the name; the arrow; the expression.
pub open spec fn parse_rule(
    input: Seq<char>,
    i: int,
    comments: Seq<ExpressionView>,
    category: Seq<char>,
    path: Seq<char>,
) -> Parsed<ProductionView> {
    let is_root = starts_with(input, i, "@root"@);
    let marker = if is_root {
        5nat
    } else {
        0nat
    };
    let start = marker + run(input, i + marker, CharClass::Space);
    let n = run(input, i + start, CharClass::Name);
    if n == 0 {
        fail(start, "expected production name"@)
    } else if !starts_with(input, i + start + n, " ->"@) {
        fail(start + n, "expected -> arrow"@)
    } else {
        let body = start + n + 3;
        let e = parse_expression(input, i + body);
        match e.result {
            Err(m) => fail(body + e.advance, m),
            Ok(None) => fail(body + e.advance, "expected an expression"@),
            Ok(Some(expression)) => done(
                body + e.advance,
                ProductionView {
                    name: text(input, i + start, n),
                    comments,
                    category,
                    expression,
                    path,
                    is_root,
                },
            ),
        }
    }
}

/// A production: its comment lines, then the rule itself.
pub open spec fn parse_production(
    input: Seq<char>,
    i: int,
    category: Seq<char>,
    path: Seq<char>,
) -> Parsed<ProductionView> {
    let comments = parse_comment_lines(input, i, Seq::empty());
    match comments.result {
        Err(m) => fail(comments.advance, m),
        Ok(lines) => {
            let rule = parse_rule(input, i + comments.advance, lines, category, path);
            Parsed { advance: comments.advance + rule.advance, result: rule.result }
        },
    }
}

/// Whether one of the productions has the name.
pub open spec fn names_production(found: Seq<ProductionView>, name: Seq<char>) -> bool {
    exists|k: int| 0 <= k < found.len() && (#[trigger] found[k]).name == name
}

/// The message for a name that a block defines twice.
pub open spec fn duplicate_message(name: Seq<char>) -> Seq<char> {
    "duplicate production "@ + name + " in grammar"@
}

/// The productions of a block from the position on, after those in `found`:
/// one at least, with line feeds after each. A name that the block has
/// already defined is a failure.
pub open spec fn parse_productions(
    input: Seq<char>,
    i: int,
    category: Seq<char>,
    path: Seq<char>,
    found: Seq<ProductionView>,
) -> Parsed<Seq<ProductionView>>
    decreases left(input, i),
{
    let p = parse_production(input, i, category, path);
    match p.result {
        Err(m) => fail(p.advance, m),
        Ok(prod) => if names_production(found, prod.name) {
            fail(p.advance, duplicate_message(prod.name))
        } else {
            let end = p.advance + run(input, i + p.advance, CharClass::Newline);
            if i + end >= input.len() || end == 0 || i >= input.len() {
                done(end, found.push(prod))
            } else {
                let rest = parse_productions(input, i + end, category, path, found.push(prod));
                Parsed { advance: end + rest.advance, result: rest.result }
            }
        },
    }
}

/// The productions of a block of text, in order.
pub open spec fn parse_block(input: Seq<char>, category: Seq<char>, path: Seq<char>) -> Parsed<
    Seq<ProductionView>,
> {
    parse_productions(input, 0, category, path, Seq::empty())
}

/// A line without the carriage return before the line feed that ends it.
pub open spec fn strip_cr(line: Seq<char>, terminated: bool) -> Seq<char> {
    if terminated && line.len() > 0 && line.last() == '\r' {
        line.drop_last()
    } else {
        line
    }
}

/// The line that holds the byte at `index`, the line's number and the
/// column, both counted from 1, looking on from the line that starts at the
/// character `pos`. `line_start` is the byte at which that line is taken to
/// start, `lineno` the number of lines before it. Lines end at a line feed;
/// a carriage return before it is no part of the line, and is not counted
/// where the next line starts. Past the last line: an empty line, the next
/// line number, and column 0.
pub open spec fn locate(input: Seq<char>, pos: int, index: int, line_start: int, lineno: int) -> (
    Seq<char>,
    int,
    int,
)
    decreases left(input, pos),
{
    if pos < 0 || pos >= input.len() {
        (Seq::empty(), lineno + 1, 0)
    } else {
        let n = run(input, pos, CharClass::Line);
        let line = strip_cr(text(input, pos, n), pos + n < input.len());
        let line_end = line_start + byte_len(line);
        if line_start <= index <= line_end {
            (line, lineno + 1, index - line_start + 1)
        } else {
            locate(input, pos + n + 1, index, line_end + 1, lineno + 1)
        }
    }
}

/// The line, line number and column of a byte index into the text. An index
/// past the end counts as the end. For an empty text: an empty line, line 0,
/// column 0.
pub open spec fn position_of(input: Seq<char>, index: int) -> (Seq<char>, int, int) {
    if input.len() == 0 {
        (Seq::empty(), 0, 0)
    } else {
        locate(
            input,
            0,
            if index <= byte_len(input) {
                index
            } else {
                byte_len(input) as int
            },
            0,
            0,
        )
    }
}

/// Model of a syntax error.
pub struct ErrorView {
    pub message: Seq<char>,
    pub line: Seq<char>,
    pub lineno: int,
    pub col: int,
}

/// The error with this message at the character `index` of the text.
#[verifier::opaque]
pub open spec fn error_at(input: Seq<char>, index: int, message: Seq<char>) -> ErrorView {
    let place = position_of(input, byte_len(input.take(index)) as int);
    ErrorView { message, line: place.0, lineno: place.1, col: place.2 }
}

/// The outcome of reading with the failure, if it is one, placed in the text.
pub open spec fn located<V>(
    result: Result<V, Seq<char>>,
    input: Seq<char>,
    index: int,
) -> Result<V, ErrorView> {
    match result {
        Ok(v) => Ok(v),
        Err(m) => Err(error_at(input, index, m)),
    }
}

/// The text of an error: the line with its number, and under it a caret at
/// the column with the message.
pub open spec fn error_text(e: ErrorView) -> Seq<char> {
    let number = decimal(e.lineno as nat);
    let margin = crate::text::repeated(" "@, number.len() + 1);
    "\n"@ + margin + "|\n"@ + number + " | "@ + e.line + "\n"@ + margin + "|"@
        + crate::text::repeated(" "@, e.col as nat) + "^ "@ + e.message
}

} // verus!
