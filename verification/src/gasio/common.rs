//! The pieces of the grammar that its parts share: character classes, and
//! the readers for blanks and symbols.

use vstd::prelude::*;
use vstd::string::*;

use crate::text::{chars_of, push_char};

verus! {

/// What `char::is_alphanumeric` of the standard library says of a character
/// beyond the basic alphabet: whether Unicode classes it as a letter or a
/// number.
pub uninterp spec fn char_is_alphanumeric(c: char) -> bool;

/// Whether a character of the basic alphabet is a letter or a digit.
pub open spec fn ascii_alphanumeric(c: char) -> bool {
    ('a' <= c && c <= 'z') || ('A' <= c && c <= 'Z') || ('0' <= c && c <= '9')
}

/// Whether a character is a letter or a number: within the basic alphabet
/// the letters `a` to `z` in either case and the digits, beyond it what
/// Unicode classes so.
pub open spec fn alphanumeric(c: char) -> bool {
    if c <= '\x7f' {
        ascii_alphanumeric(c)
    } else {
        char_is_alphanumeric(c)
    }
}

/// Whether a character is white space: whether it has Unicode's
/// `White_Space` property, which these code points have and no others.
pub open spec fn white_space(c: char) -> bool {
    ('\u{9}' <= c && c <= '\u{d}') || c == ' ' || c == '\u{85}' || c == '\u{a0}' || c
        == '\u{1680}' || ('\u{2000}' <= c && c <= '\u{200a}') || c == '\u{2028}' || c
        == '\u{2029}' || c == '\u{202f}' || c == '\u{205f}' || c == '\u{3000}'
}

/// `char::is_alphanumeric` of the standard library. Within the basic
/// alphabet the letters and digits are alphanumeric; beyond it the answer is
/// a matter of Unicode's tables, so it only gets a name.
pub assume_specification[ char::is_alphanumeric ](c: char) -> (b: bool)
    ensures
        b == alphanumeric(c),
        c <= '\x7f' ==> b == ascii_alphanumeric(c),
        c > '\x7f' ==> b == char_is_alphanumeric(c),
;

/// `char::is_whitespace` of the standard library: whether the character
/// has Unicode's `White_Space` property.
pub assume_specification[ char::is_whitespace ](c: char) -> (b: bool)
    ensures
        b == white_space(c),
;

/// A character of the input, with what Unicode says of it as far as the
/// grammar asks.
#[derive(Clone, Copy, Debug, PartialEq, Eq, Structural)]
pub struct Ch {
    pub c: char,
    /// Whether the character is a letter or a number.
    pub alphanumeric: bool,
    /// Whether the character is white space.
    pub whitespace: bool,
}

/// The character `c` with what Unicode says of it.
pub open spec fn classified(c: char) -> Ch {
    Ch { c, alphanumeric: alphanumeric(c), whitespace: white_space(c) }
}

/// The characters of a text with what Unicode says of them.
pub open spec fn classified_text(s: Seq<char>) -> Seq<Ch> {
    s.map_values(|c: char| classified(c))
}

/// The characters of a classified text.
pub open spec fn letters(s: Seq<Ch>) -> Seq<char> {
    s.map_values(|ch: Ch| ch.c)
}

/// Looks up what Unicode says of a character.
pub fn classify(c: char) -> (r: Ch)
    ensures
        r == classified(c),
{
    Ch { c, alphanumeric: c.is_alphanumeric(), whitespace: c.is_whitespace() }
}

/// Looks up what Unicode says of the characters of a text.
pub fn classify_text(s: &str) -> (r: Vec<Ch>)
    ensures
        r@ == classified_text(s@),
{
    let chars = chars_of(s);
    let mut out: Vec<Ch> = Vec::new();
    let mut i: usize = 0;
    while i < chars.len()
        invariant
            i <= chars@.len(),
            chars@ == s@,
            out@ == classified_text(chars@.take(i as int)),
        decreases chars@.len() - i,
    {
        out.push(classify(chars[i]));
        proof {
            assert(out@ =~= classified_text(chars@.take(i as int + 1)));
        }
        i += 1;
    }
    proof {
        assert(chars@.take(chars@.len() as int) =~= chars@);
    }
    out
}

/// Why a reader gave up.
#[derive(Clone, Copy, Debug, PartialEq, Eq, Structural)]
pub enum ErrorKind {
    /// A run of at least one character of a class was expected.
    TakeWhile1,
    /// A given character was expected.
    Char,
    /// A given text was expected further on.
    TakeUntil,
    /// What was read does not stand for anything.
    MapOpt,
    /// None of several readers accepted the input.
    Alt,
    /// A repeated reader accepted the input without reading any of it.
    Many0,
}

impl ErrorKind {
    /// The name of the kind.
    pub open spec fn spec_name(self) -> Seq<char> {
        match self {
            ErrorKind::TakeWhile1 => "TakeWhile1"@,
            ErrorKind::Char => "Char"@,
            ErrorKind::TakeUntil => "TakeUntil"@,
            ErrorKind::MapOpt => "MapOpt"@,
            ErrorKind::Alt => "Alt"@,
            ErrorKind::Many0 => "Many0"@,
        }
    }

    /// The name of the kind.
    pub fn name(self) -> (r: &'static str)
        ensures
            r@ == self.spec_name(),
    {
        match self {
            ErrorKind::TakeWhile1 => "TakeWhile1",
            ErrorKind::Char => "Char",
            ErrorKind::TakeUntil => "TakeUntil",
            ErrorKind::MapOpt => "MapOpt",
            ErrorKind::Alt => "Alt",
            ErrorKind::Many0 => "Many0",
        }
    }
}

/// The complaint about a reader that wanted more input.
pub open spec fn incomplete_message() -> Seq<char> {
    "unexpected EOF"@
}

/// The complaint about a reader that gave up.
pub open spec fn error_message(kind: ErrorKind) -> Seq<char> {
    "failed to parse "@ + kind.spec_name()
}

/// What a reader's result is to its caller: the value, or a complaint.
/// Where the reader stopped is of no interest.
pub open spec fn outcome_of<T>(step: Step<T>) -> Result<T, Seq<char>> {
    match step {
        Step::Done { rest, value } => Ok(value),
        Step::Incomplete => Err(incomplete_message()),
        Step::Error(kind) => Err(error_message(kind)),
    }
}

/// Turns a reader's result into the value or a complaint.
pub fn map_iresult<T>(x: Parsed<T>) -> (r: Result<T, String>)
    ensures
        match (x, r) {
            (Parsed::Done { rest, value }, Ok(v)) => v == value,
            (Parsed::Incomplete, Err(msg)) => msg@ == incomplete_message(),
            (Parsed::Error(kind), Err(msg)) => msg@ == error_message(kind),
            _ => false,
        },
{
    match x {
        Parsed::Done { rest, value } => Ok(value),
        Parsed::Incomplete => Err("unexpected EOF".to_owned()),
        Parsed::Error(kind) => {
            let mut msg = "failed to parse ".to_owned();
            msg.append(kind.name());
            Err(msg)
        },
    }
}

/// What a reader made of the input from some position on.
#[derive(Debug)]
pub enum Parsed<T> {
    /// It read `value` and stopped at position `rest`.
    Done { rest: usize, value: T },
    /// The input ended where more was needed.
    Incomplete,
    /// The input does not have the form that the reader is for.
    Error(ErrorKind),
}

/// What a reader makes of a text from some position on, as plain data.
pub enum Step<T> {
    Done { rest: int, value: T },
    Incomplete,
    Error(ErrorKind),
}

impl<T: View> View for Parsed<T> {
    type V = Step<T::V>;

    open spec fn view(&self) -> Step<T::V> {
        match self {
            Parsed::Done { rest, value } => Step::Done { rest: *rest as int, value: value@ },
            Parsed::Incomplete => Step::Incomplete,
            Parsed::Error(kind) => Step::Error(*kind),
        }
    }
}

/// Whether a character can stand in a symbol.
pub open spec fn symbol_char(ch: Ch) -> bool {
    ch.alphanumeric || ch.c == '.' || ch.c == '_' || ch.c == '$'
}

/// Whether a character is white space other than a line feed.
pub open spec fn blank_char(ch: Ch) -> bool {
    ch.whitespace && ch.c != '\n'
}

/// Whether a character is a space, a tab, a carriage return or a line feed.
pub open spec fn space_char(ch: Ch) -> bool {
    ch.c == ' ' || ch.c == '\t' || ch.c == '\r' || ch.c == '\n'
}

/// Whether a character can stand in a constant: a decimal digit or the minus
/// sign.
pub open spec fn imm_char(ch: Ch) -> bool {
    ('0' <= ch.c && ch.c <= '9') || ch.c == '-'
}

/// The character classes that the grammar knows.
#[derive(Clone, Copy, Debug, PartialEq, Eq, Structural)]
pub enum CharClass {
    /// Characters of a symbol.
    Symbol,
    /// White space other than a line feed.
    Blank,
    /// Space, tab, carriage return and line feed.
    Space,
    /// Characters of a constant: decimal digits and the minus sign.
    Imm,
}

impl CharClass {
    /// Whether a character belongs to the class.
    pub open spec fn holds(self, ch: Ch) -> bool {
        match self {
            CharClass::Symbol => symbol_char(ch),
            CharClass::Blank => blank_char(ch),
            CharClass::Space => space_char(ch),
            CharClass::Imm => imm_char(ch),
        }
    }

    /// Decides whether a character belongs to the class.
    pub fn contains(self, ch: Ch) -> (b: bool)
        ensures
            b == self.holds(ch),
    {
        match self {
            CharClass::Symbol => ch.alphanumeric || ch.c == '.' || ch.c == '_' || ch.c == '$',
            CharClass::Blank => ch.whitespace && ch.c != '\n',
            CharClass::Space => ch.c == ' ' || ch.c == '\t' || ch.c == '\r' || ch.c == '\n',
            CharClass::Imm => ('0' <= ch.c && ch.c <= '9') || ch.c == '-',
        }
    }
}

/// Decides whether `x` can stand in a symbol.
pub fn is_symbol_char(x: char) -> (b: bool)
    ensures
        b == symbol_char(classified(x)),
{
    CharClass::Symbol.contains(classify(x))
}

/// Decides whether `x` is white space other than a line feed.
pub fn is_ws_but_newline(x: char) -> (b: bool)
    ensures
        b == blank_char(classified(x)),
{
    CharClass::Blank.contains(classify(x))
}

/// Decides whether `x` can stand in a constant.
pub fn is_imm_char(x: char) -> (b: bool)
    ensures
        b == imm_char(classified(x)),
{
    CharClass::Imm.contains(classify(x))
}

/// The position at which the run of characters of `class` that starts at
/// `at` ends: that of the first character from `at` on that is not of the
/// class, or the end of the text.
pub open spec fn run_end(s: Seq<Ch>, at: int, class: CharClass) -> int
    decreases s.len() - at,
{
    if at < 0 || at >= s.len() || !class.holds(s[at]) {
        at
    } else {
        run_end(s, at + 1, class)
    }
}

/// The run ends within the text, and consists of characters of the class,
/// and only a character outside the class can follow it.
pub proof fn lemma_run_end(s: Seq<Ch>, at: int, class: CharClass)
    requires
        0 <= at <= s.len(),
    ensures
        at <= run_end(s, at, class) <= s.len(),
        forall|i: int| at <= i < run_end(s, at, class) ==> class.holds(#[trigger] s[i]),
        run_end(s, at, class) < s.len() ==> !class.holds(s[run_end(s, at, class)]),
    decreases s.len() - at,
{
    if at < s.len() && class.holds(s[at]) {
        lemma_run_end(s, at + 1, class);
    }
}

/// Finds the end of the run of characters of `class` that starts at `at`.
pub fn skip_run(input: &[Ch], at: usize, class: CharClass) -> (end: usize)
    requires
        at <= input@.len(),
    ensures
        end == run_end(input@, at as int, class),
        at <= end <= input@.len(),
{
    let mut i = at;
    while i < input.len() && class.contains(input[i])
        invariant
            at <= i <= input@.len(),
            run_end(input@, i as int, class) == run_end(input@, at as int, class),
        decreases input@.len() - i,
    {
        i += 1;
    }
    i
}

/// The text between two positions.
pub fn text_between(input: &[Ch], from: usize, to: usize) -> (r: String)
    requires
        from <= to <= input@.len(),
    ensures
        r@ == letters(input@.subrange(from as int, to as int)),
{
    let mut out = String::new();
    let mut i = from;
    while i < to
        invariant
            from <= i <= to <= input@.len(),
            out@ == letters(input@.subrange(from as int, i as int)),
        decreases to - i,
    {
        push_char(&mut out, input[i].c);
        i += 1;
        proof {
            assert(out@ =~= letters(input@.subrange(from as int, i as int)));
        }
    }
    out
}

/// Reading blanks: never fails, and stops at the first character that is
/// not a blank.
pub open spec fn spec_ws_but_newline(s: Seq<Ch>, at: int) -> int {
    run_end(s, at, CharClass::Blank)
}

/// Skips blanks.
pub fn ws_but_newline(input: &[Ch], at: usize) -> (rest: usize)
    requires
        at <= input@.len(),
    ensures
        rest == spec_ws_but_newline(input@, at as int),
        at <= rest <= input@.len(),
{
    skip_run(input, at, CharClass::Blank)
}

/// Reading a run of at least one character of a class: at the end of the
/// text more input is needed, before a character outside the class the
/// reader gives up, and else it reads the whole run.
pub open spec fn spec_take_while1(s: Seq<Ch>, at: int, class: CharClass) -> Step<Seq<char>> {
    if at >= s.len() {
        Step::Incomplete
    } else if !class.holds(s[at]) {
        Step::Error(ErrorKind::TakeWhile1)
    } else {
        Step::Done { rest: run_end(s, at, class), value: letters(s.subrange(at, run_end(s, at, class))) }
    }
}

/// Reads a run of at least one character of `class`.
pub fn take_while1(input: &[Ch], at: usize, class: CharClass) -> (r: Parsed<String>)
    requires
        at <= input@.len(),
    ensures
        r@ == spec_take_while1(input@, at as int, class),
        r matches Parsed::Done { rest, .. } ==> at < rest <= input@.len(),
{
    if at >= input.len() {
        Parsed::Incomplete
    } else if !class.contains(input[at]) {
        Parsed::Error(ErrorKind::TakeWhile1)
    } else {
        let end = skip_run(input, at, class);
        proof {
            lemma_run_end(input@, at as int + 1, class);
        }
        Parsed::Done { rest: end, value: text_between(input, at, end) }
    }
}

/// Reading a symbol that nothing separates from what is around it.
pub open spec fn spec_symbol_no_ws(s: Seq<Ch>, at: int) -> Step<Seq<char>> {
    spec_take_while1(s, at, CharClass::Symbol)
}

/// Reads a symbol that starts right at `at`.
pub fn symbol_no_ws(input: &[Ch], at: usize) -> (r: Parsed<String>)
    requires
        at <= input@.len(),
    ensures
        r@ == spec_symbol_no_ws(input@, at as int),
        r matches Parsed::Done { rest, .. } ==> at < rest <= input@.len(),
{
    take_while1(input, at, CharClass::Symbol)
}

/// Reading a run of at least one character of a class, with characters of
/// the class `around` skipped before and after it.
pub open spec fn spec_separated(s: Seq<Ch>, at: int, around: CharClass, class: CharClass) -> Step<
    Seq<char>,
> {
    match spec_take_while1(s, run_end(s, at, around), class) {
        Step::Done { rest, value } => Step::Done { rest: run_end(s, rest, around), value },
        other => other,
    }
}

/// Reads a run of at least one character of `class`, skipping characters of
/// `around` before and after it.
pub fn separated(input: &[Ch], at: usize, around: CharClass, class: CharClass) -> (r: Parsed<
    String,
>)
    requires
        at <= input@.len(),
    ensures
        r@ == spec_separated(input@, at as int, around, class),
        r matches Parsed::Done { rest, .. } ==> at < rest <= input@.len(),
{
    let start = skip_run(input, at, around);
    match take_while1(input, start, class) {
        Parsed::Done { rest, value } => Parsed::Done { rest: skip_run(input, rest, around), value },
        Parsed::Incomplete => Parsed::Incomplete,
        Parsed::Error(kind) => Parsed::Error(kind),
    }
}

/// Reading a symbol, with blanks skipped before and after it.
pub open spec fn spec_symbol(s: Seq<Ch>, at: int) -> Step<Seq<char>> {
    spec_separated(s, at, CharClass::Blank, CharClass::Symbol)
}

/// Reads a symbol, skipping blanks before and after it.
pub fn symbol(input: &[Ch], at: usize) -> (r: Parsed<String>)
    requires
        at <= input@.len(),
    ensures
        r@ == spec_symbol(input@, at as int),
        r matches Parsed::Done { rest, .. } ==> at < rest <= input@.len(),
{
    separated(input, at, CharClass::Blank, CharClass::Symbol)
}

/// Reading one given character.
pub open spec fn spec_char(s: Seq<Ch>, at: int, c: char) -> Step<()> {
    if at >= s.len() {
        Step::Incomplete
    } else if s[at].c != c {
        Step::Error(ErrorKind::Char)
    } else {
        Step::Done { rest: at + 1, value: () }
    }
}

/// Reads the character `c`.
pub fn expect_char(input: &[Ch], at: usize, c: char) -> (r: Parsed<()>)
    requires
        at <= input@.len(),
    ensures
        r@ == spec_char(input@, at as int, c),
        r matches Parsed::Done { rest, .. } ==> rest == at + 1 && rest <= input@.len(),
{
    if at >= input.len() {
        Parsed::Incomplete
    } else if input[at].c != c {
        Parsed::Error(ErrorKind::Char)
    } else {
        Parsed::Done { rest: at + 1, value: () }
    }
}

/// The position of the first `c` from `at` on, or the end of the text if
/// there is none.
pub open spec fn first_char(s: Seq<Ch>, at: int, c: char) -> int
    decreases s.len() - at,
{
    if at < 0 || at >= s.len() || s[at].c == c {
        at
    } else {
        first_char(s, at + 1, c)
    }
}

/// Finds the first `c` from `at` on.
pub fn find_char(input: &[Ch], at: usize, c: char) -> (r: usize)
    requires
        at <= input@.len(),
    ensures
        r == first_char(input@, at as int, c),
        at <= r <= input@.len(),
        r < input@.len() ==> input@[r as int].c == c,
{
    let mut i = at;
    while i < input.len() && input[i].c != c
        invariant
            at <= i <= input@.len(),
            first_char(input@, i as int, c) == first_char(input@, at as int, c),
        decreases input@.len() - i,
    {
        i += 1;
    }
    i
}

/// The position of the first `a` that a `b` follows, from `at` on, or the
/// end of the text if there is none.
pub open spec fn first_pair(s: Seq<Ch>, at: int, a: char, b: char) -> int
    decreases s.len() - at,
{
    if at < 0 || at >= s.len() {
        at
    } else if s[at].c == a && at + 1 < s.len() && s[at + 1].c == b {
        at
    } else {
        first_pair(s, at + 1, a, b)
    }
}

/// Finds the first `a` that a `b` follows, from `at` on.
pub fn find_pair(input: &[Ch], at: usize, a: char, b: char) -> (r: usize)
    requires
        at <= input@.len(),
    ensures
        r == first_pair(input@, at as int, a, b),
        at <= r <= input@.len(),
        r < input@.len() ==> r + 2 <= input@.len(),
{
    let mut i = at;
    while i < input.len()
        invariant
            at <= i <= input@.len(),
            first_pair(input@, i as int, a, b) == first_pair(input@, at as int, a, b),
        decreases input@.len() - i,
    {
        if input[i].c == a && i + 1 < input.len() && input[i + 1].c == b {
            return i;
        }
        i += 1;
    }
    i
}

} // verus!
