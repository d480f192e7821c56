//! Statements of an assembler file: the reader for one logical line, and
//! the parser that walks a file line by line and takes the comments out.

use vstd::prelude::*;
use vstd::string::*;

use super::common::{
    classified, classified_text, classify, classify_text, expect_char, find_char, find_pair,
    first_char, first_pair, letters, map_iresult, outcome_of, run_end, skip_run, spec_char,
    spec_symbol, symbol, text_between, Ch, CharClass, ErrorKind, Parsed, Step,
};
use crate::text::views;

verus! {

/// One statement: labels, and then possibly a directive or an instruction.
#[derive(Debug, Clone)]
pub struct Statement {
    /// Zero or more labels.
    pub labels: Vec<String>,
    /// The directive.
    pub directive: Option<RawDirective>,
}

/// A directive or an instruction as it stands in the file.
#[derive(Debug, Clone)]
pub struct RawDirective {
    /// The key symbol.
    pub key: String,
    /// The rest of the statement.
    pub rest: String,
}

/// Why a file could not be read as assembler statements.
#[derive(Debug)]
pub enum Error {
    /// The file could not be read; the text is the system's complaint. The
    /// reader itself never fails in this way: it is for those who fetch its
    /// input.
    IoError(String),
    /// The text does not follow the grammar.
    SyntaxError { message: String, line: usize },
}

/// A directive as plain data.
pub struct RawDirectiveView {
    pub key: Seq<char>,
    pub rest: Seq<char>,
}

/// A statement as plain data.
pub struct StatementView {
    pub labels: Seq<Seq<char>>,
    pub directive: Option<RawDirectiveView>,
}

impl View for RawDirective {
    type V = RawDirectiveView;

    open spec fn view(&self) -> RawDirectiveView {
        RawDirectiveView { key: self.key@, rest: self.rest@ }
    }
}

impl View for Statement {
    type V = StatementView;

    open spec fn view(&self) -> StatementView {
        StatementView {
            labels: views(self.labels@),
            directive: match self.directive {
                Some(d) => Some(d@),
                None => None,
            },
        }
    }
}

/// Reading a label: a symbol and a colon, with blanks allowed before,
/// between and after them.
pub open spec fn spec_label(s: Seq<Ch>, at: int) -> Step<Seq<char>> {
    match spec_symbol(s, at) {
        Step::Done { rest, value } => match spec_char(s, rest, ':') {
            Step::Done { rest, .. } => Step::Done {
                rest: run_end(s, rest, CharClass::Blank),
                value,
            },
            Step::Incomplete => Step::Incomplete,
            Step::Error(kind) => Step::Error(kind),
        },
        other => other,
    }
}

/// Reads a label.
pub fn label(input: &[Ch], at: usize) -> (r: Parsed<String>)
    requires
        at <= input@.len(),
    ensures
        r@ == spec_label(input@, at as int),
        r matches Parsed::Done { rest, .. } ==> at < rest <= input@.len(),
{
    match symbol(input, at) {
        Parsed::Done { rest, value } => match expect_char(input, rest, ':') {
            Parsed::Done { rest, .. } => Parsed::Done {
                rest: skip_run(input, rest, CharClass::Blank),
                value,
            },
            Parsed::Incomplete => Parsed::Incomplete,
            Parsed::Error(kind) => Parsed::Error(kind),
        },
        Parsed::Incomplete => Parsed::Incomplete,
        Parsed::Error(kind) => Parsed::Error(kind),
    }
}

/// Reading labels for as long as there are any: the first reader that gives
/// up ends the list, and one that wants more input makes the whole list
/// want more.
pub open spec fn spec_labels(s: Seq<Ch>, at: int) -> Step<Seq<Seq<char>>>
    decreases s.len() - at,
{
    if at >= s.len() {
        Step::Done { rest: at, value: Seq::empty() }
    } else {
        match spec_label(s, at) {
            Step::Error(_) => Step::Done { rest: at, value: Seq::empty() },
            Step::Incomplete => Step::Incomplete,
            Step::Done { rest, value } => if !(at < rest <= s.len()) {
                Step::Error(ErrorKind::Many0)
            } else {
                match spec_labels(s, rest) {
                    Step::Done { rest, value: more } => Step::Done {
                        rest,
                        value: seq![value] + more,
                    },
                    other => other,
                }
            },
        }
    }
}

/// The result of reading labels as plain data.
pub open spec fn labels_view(r: Parsed<Vec<String>>) -> Step<Seq<Seq<char>>> {
    match r {
        Parsed::Done { rest, value } => Step::Done { rest: rest as int, value: views(value@) },
        Parsed::Incomplete => Step::Incomplete,
        Parsed::Error(kind) => Step::Error(kind),
    }
}

/// Reads labels for as long as there are any.
pub fn labels(input: &[Ch], at: usize) -> (r: Parsed<Vec<String>>)
    requires
        at <= input@.len(),
    ensures
        labels_view(r) == spec_labels(input@, at as int),
        r matches Parsed::Done { rest, .. } ==> at <= rest <= input@.len(),
    decreases input@.len() - at,
{
    if at >= input.len() {
        let none: Vec<String> = Vec::new();
        assert(views(none@) =~= Seq::<Seq<char>>::empty());
        return Parsed::Done { rest: at, value: none };
    }
    match label(input, at) {
        Parsed::Error(_) => {
            let none: Vec<String> = Vec::new();
            assert(views(none@) =~= Seq::<Seq<char>>::empty());
            Parsed::Done { rest: at, value: none }
        },
        Parsed::Incomplete => Parsed::Incomplete,
        Parsed::Done { rest, value } => match labels(input, rest) {
            Parsed::Done { rest, value: more } => {
                let mut all = more;
                all.insert(0, value);
                assert(views(all@) =~= seq![value@] + views(more@));
                Parsed::Done { rest, value: all }
            },
            Parsed::Incomplete => Parsed::Incomplete,
            Parsed::Error(kind) => Parsed::Error(kind),
        },
    }
}

/// Reading a directive: its key symbol, and the rest of the line up to the
/// line feed, which has to be there.
pub open spec fn spec_directive(s: Seq<Ch>, at: int) -> Step<RawDirectiveView> {
    match spec_symbol(s, at) {
        Step::Done { rest, value } => if rest >= s.len() {
            Step::Incomplete
        } else if first_char(s, rest, '\n') >= s.len() {
            Step::Error(ErrorKind::TakeUntil)
        } else {
            Step::Done {
                rest: first_char(s, rest, '\n'),
                value: RawDirectiveView {
                    key: value,
                    rest: letters(s.subrange(rest, first_char(s, rest, '\n'))),
                },
            }
        },
        Step::Incomplete => Step::Incomplete,
        Step::Error(kind) => Step::Error(kind),
    }
}

/// Reads a directive.
pub fn directive(input: &[Ch], at: usize) -> (r: Parsed<RawDirective>)
    requires
        at <= input@.len(),
    ensures
        r@ == spec_directive(input@, at as int),
        r matches Parsed::Done { rest, .. } ==> at < rest <= input@.len(),
{
    match symbol(input, at) {
        Parsed::Done { rest, value } => {
            if rest >= input.len() {
                return Parsed::Incomplete;
            }
            let end = find_char(input, rest, '\n');
            if end >= input.len() {
                Parsed::Error(ErrorKind::TakeUntil)
            } else {
                Parsed::Done {
                    rest: end,
                    value: RawDirective { key: value, rest: text_between(input, rest, end) },
                }
            }
        },
        Parsed::Incomplete => Parsed::Incomplete,
        Parsed::Error(kind) => Parsed::Error(kind),
    }
}

/// Reading a statement: labels, and a directive if one follows. A directive
/// that does not follow is none; one that wants more input makes the
/// statement want more.
pub open spec fn spec_statement(s: Seq<Ch>, at: int) -> Step<StatementView> {
    match spec_labels(s, at) {
        Step::Done { rest, value: labels } => match spec_directive(s, rest) {
            Step::Done { rest, value } => Step::Done {
                rest,
                value: StatementView { labels, directive: Some(value) },
            },
            Step::Incomplete => Step::Incomplete,
            Step::Error(_) => Step::Done { rest, value: StatementView { labels, directive: None } },
        },
        Step::Incomplete => Step::Incomplete,
        Step::Error(kind) => Step::Error(kind),
    }
}

/// Reads a statement.
pub fn statement(input: &[Ch], at: usize) -> (r: Parsed<Statement>)
    requires
        at <= input@.len(),
    ensures
        r@ == spec_statement(input@, at as int),
{
    match labels(input, at) {
        Parsed::Done { rest, value: labels } => match directive(input, rest) {
            Parsed::Done { rest, value } => Parsed::Done {
                rest,
                value: Statement { labels, directive: Some(value) },
            },
            Parsed::Incomplete => Parsed::Incomplete,
            Parsed::Error(_) => Parsed::Done { rest, value: Statement { labels, directive: None } },
        },
        Parsed::Incomplete => Parsed::Incomplete,
        Parsed::Error(kind) => Parsed::Error(kind),
    }
}

/// The statement that a logical line holds, or the complaint about it.
pub open spec fn spec_parse(line: Seq<Ch>) -> Result<StatementView, Seq<char>> {
    outcome_of(spec_statement(line, 0))
}

/// A result of `parse` as plain data.
pub open spec fn parse_view(r: Result<Statement, String>) -> Result<StatementView, Seq<char>> {
    match r {
        Ok(statement) => Ok(statement@),
        Err(message) => Err(message@),
    }
}

/// Reads the statement at the start of `input`. What follows the statement
/// is not looked at.
pub fn parse(input: &str) -> (r: Result<Statement, String>)
    ensures
        parse_view(r) == spec_parse(classified_text(input@)),
{
    let chars = classify_text(input);
    parse_chars(chars.as_slice())
}

/// Reads the statement at the start of a text whose characters have been
/// classified.
pub fn parse_chars(input: &[Ch]) -> (r: Result<Statement, String>)
    ensures
        parse_view(r) == spec_parse(input@),
{
    map_iresult(statement(input, 0))
}

/// Walks a text line by line and hands out its statements, with the
/// comments taken out. A comment that starts with `#` or `@` ends with its
/// line; one that starts with `/*` ends with the next `*/`, which may stand
/// on a later line, and the lines that it spans count as one.
#[derive(Debug)]
pub struct GasParser {
    /// The text.
    source: Vec<Ch>,
    /// How far the text has been read.
    position: usize,
    /// How many lines have been read.
    line_index: usize,
}

/// The end of the line that starts at `pos`: the position after its line
/// feed, or the end of the text where the last line has none.
pub open spec fn line_end(source: Seq<Ch>, pos: int) -> int {
    if first_char(source, pos, '\n') < source.len() {
        first_char(source, pos, '\n') + 1
    } else {
        source.len() as int
    }
}

/// A line without the line feed at its end, if it has one: the last line of
/// a text may lack it.
pub open spec fn without_line_feed(line: Seq<Ch>) -> Seq<Ch> {
    if line.len() > 0 && line.last().c == '\n' {
        line.drop_last()
    } else {
        line
    }
}

/// Whether a comment starts at `at`.
pub open spec fn comment_at(s: Seq<Ch>, at: int) -> bool {
    s[at].c == '#' || s[at].c == '@' || (s[at].c == '/' && at + 1 < s.len() && s[at + 1].c == '*')
}

/// The position at which the first comment starts, from `at` on; the end of
/// the text if there is none.
pub open spec fn first_comment(s: Seq<Ch>, at: int) -> int
    decreases s.len() - at,
{
    if at < 0 || at >= s.len() || comment_at(s, at) {
        at
    } else {
        first_comment(s, at + 1)
    }
}

/// A logical line, or the lack of one.
pub enum Scan {
    /// The line without its comments and without its line feed; how far the
    /// text has been read, and how many lines.
    Line { text: Seq<Ch>, position: int, line: int },
    /// The text ended inside a comment.
    Unterminated { position: int, line: int },
}

/// Takes the comments out of the line in `buf`, from `start` on. The text
/// behind `pos` is read where a comment goes on beyond the line.
pub open spec fn strip(source: Seq<Ch>, pos: int, buf: Seq<Ch>, start: int, line: int) -> Scan
    decreases source.len() - pos, buf.len() - start, 1int,
{
    let c = first_comment(buf, start);
    if !(0 <= start <= c) || c >= buf.len() {
        Scan::Line { text: buf, position: pos, line }
    } else if buf[c].c == '#' || buf[c].c == '@' {
        Scan::Line { text: buf.take(c), position: pos, line }
    } else {
        close(source, pos, buf, c, line)
    }
}

/// Takes out the comment that starts at `start` of `buf`, and the comments
/// after it. The end of the comment is looked for from `start` on, so that
/// the `*` that opens a comment can also close it.
pub open spec fn close(source: Seq<Ch>, pos: int, buf: Seq<Ch>, start: int, line: int) -> Scan
    decreases source.len() - pos, buf.len() - start, 0int,
{
    let e = first_pair(buf, start, '*', '/');
    let end = line_end(source, pos);
    if !(0 <= start <= buf.len()) {
        Scan::Unterminated { position: pos, line }
    } else if start <= e && e + 2 <= buf.len() {
        strip(source, pos, buf.take(start) + buf.skip(e + 2), start, line)
    } else if !(0 <= pos < end <= source.len()) {
        Scan::Unterminated { position: pos, line }
    } else {
        close(
            source,
            end,
            buf.take(start) + without_line_feed(source.subrange(pos, end)),
            start,
            line + 1,
        )
    }
}

/// What asking for the next statement yields, and where it leaves the
/// parser.
pub struct NextView {
    pub result: Result<Option<StatementView>, ErrorView>,
    pub position: int,
    pub line: int,
}

/// An error as plain data.
pub enum ErrorView {
    IoError(Seq<char>),
    SyntaxError { message: Seq<char>, line: int },
}

impl View for Error {
    type V = ErrorView;

    open spec fn view(&self) -> ErrorView {
        match self {
            Error::IoError(message) => ErrorView::IoError(message@),
            Error::SyntaxError { message, line } => ErrorView::SyntaxError {
                message: message@,
                line: *line as int,
            },
        }
    }
}

/// The complaint about a comment that the text ends in.
pub open spec fn unterminated_message() -> Seq<char> {
    "found a unterminated block comment"@
}

/// The next statement of `source` from `pos` on, `line` lines having been
/// read: nothing at the end of the text; else the statement of the next
/// logical line, which is read without its comments and with one line feed
/// at its end.
pub open spec fn spec_next(source: Seq<Ch>, pos: int, line: int) -> NextView {
    if pos >= source.len() {
        NextView { result: Ok(None), position: pos, line }
    } else {
        let end = line_end(source, pos);
        match strip(source, end, without_line_feed(source.subrange(pos, end)), 0, line + 1) {
            Scan::Unterminated { position, line } => NextView {
                result: Err(ErrorView::SyntaxError { message: unterminated_message(), line }),
                position,
                line,
            },
            Scan::Line { text, position, line } => NextView {
                result: match spec_parse(text.push(classified('\n'))) {
                    Ok(statement) => Ok(Some(statement)),
                    Err(message) => Err(ErrorView::SyntaxError { message, line }),
                },
                position,
                line,
            },
        }
    }
}

/// A result of `next` as plain data.
pub open spec fn next_view(r: Result<Option<Statement>, Error>) -> Result<
    Option<StatementView>,
    ErrorView,
> {
    match r {
        Ok(Some(statement)) => Ok(Some(statement@)),
        Ok(None) => Ok(None),
        Err(e) => Err(e@),
    }
}

/// A logical line as the parser holds it.
enum Scanned {
    Line { text: Vec<Ch>, position: usize, line: usize },
    Unterminated { position: usize, line: usize },
}

/// A logical line as plain data.
spec fn scan_of(r: Scanned) -> Scan {
    match r {
        Scanned::Line { text, position, line } => Scan::Line {
            text: text@,
            position: position as int,
            line: line as int,
        },
        Scanned::Unterminated { position, line } => Scan::Unterminated {
            position: position as int,
            line: line as int,
        },
    }
}

/// Finds the first comment from `at` on.
fn find_comment(buf: &[Ch], at: usize) -> (r: usize)
    requires
        at <= buf@.len(),
    ensures
        r == first_comment(buf@, at as int),
        at <= r <= buf@.len(),
{
    let mut i = at;
    while i < buf.len()
        invariant
            at <= i <= buf@.len(),
            first_comment(buf@, i as int) == first_comment(buf@, at as int),
        decreases buf@.len() - i,
    {
        let c = buf[i].c;
        if c == '#' || c == '@' || (c == '/' && i + 1 < buf.len() && buf[i + 1].c == '*') {
            return i;
        }
        i += 1;
    }
    i
}

/// Finds the end of the line that starts at `pos`.
fn find_line_end(source: &[Ch], pos: usize) -> (end: usize)
    requires
        pos <= source@.len(),
    ensures
        end == line_end(source@, pos as int),
        pos <= end <= source@.len(),
        pos < source@.len() ==> pos < end,
{
    let n = find_char(source, pos, '\n');
    if n < source.len() {
        n + 1
    } else {
        source.len()
    }
}

/// Appends the characters of `source` between two positions to `buf`.
fn append_between(buf: &mut Vec<Ch>, source: &[Ch], from: usize, to: usize)
    requires
        from <= to <= source@.len(),
    ensures
        final(buf)@ == old(buf)@ + source@.subrange(from as int, to as int),
{
    let mut i = from;
    while i < to
        invariant
            from <= i <= to <= source@.len(),
            buf@ == old(buf)@ + source@.subrange(from as int, i as int),
        decreases to - i,
    {
        buf.push(source[i]);
        i += 1;
        proof {
            assert(buf@ =~= old(buf)@ + source@.subrange(from as int, i as int));
        }
    }
    proof {
        assert(buf@ =~= old(buf)@ + source@.subrange(from as int, to as int));
    }
}

/// Appends the line of `source` between two positions to `buf`, without the
/// line feed at its end.
fn append_line(buf: &mut Vec<Ch>, source: &[Ch], from: usize, to: usize)
    requires
        from < to <= source@.len(),
    ensures
        final(buf)@ == old(buf)@ + without_line_feed(source@.subrange(from as int, to as int)),
{
    let ghost line = source@.subrange(from as int, to as int);
    if source[to - 1].c == '\n' {
        append_between(buf, source, from, to - 1);
        proof {
            assert(line.last() == source@[to as int - 1]);
            assert(line.drop_last() =~= source@.subrange(from as int, to as int - 1));
        }
    } else {
        append_between(buf, source, from, to);
        proof {
            assert(line.last() == source@[to as int - 1]);
        }
    }
}

/// Takes the characters between two positions out of `buf`.
fn remove_between(buf: &mut Vec<Ch>, from: usize, to: usize)
    requires
        from <= to <= old(buf)@.len(),
    ensures
        final(buf)@ == old(buf)@.take(from as int) + old(buf)@.skip(to as int),
{
    let mut tail = buf.split_off(to);
    buf.truncate(from);
    buf.append(&mut tail);
    proof {
        assert(buf@ =~= old(buf)@.take(from as int) + old(buf)@.skip(to as int));
    }
}

/// Takes the comments out of the line in `buf`, from `start` on.
fn strip_comments(source: &[Ch], pos: usize, buf: Vec<Ch>, start: usize, line: usize) -> (r:
    Scanned)
    requires
        line <= pos <= source@.len(),
        start <= buf@.len(),
    ensures
        scan_of(r) == strip(source@, pos as int, buf@, start as int, line as int),
        match r {
            Scanned::Line { position, line, .. } => line <= position <= source@.len() && pos
                <= position,
            Scanned::Unterminated { position, line } => line <= position <= source@.len() && pos
                <= position,
        },
    decreases source@.len() - pos, buf@.len() - start, 1int,
{
    let mut buf = buf;
    let c = find_comment(buf.as_slice(), start);
    if c >= buf.len() {
        Scanned::Line { text: buf, position: pos, line }
    } else if buf[c].c == '#' || buf[c].c == '@' {
        buf.truncate(c);
        Scanned::Line { text: buf, position: pos, line }
    } else {
        close_comment(source, pos, buf, c, line)
    }
}

/// Takes out the comment that starts at `start` of `buf`, and the comments
/// after it.
fn close_comment(source: &[Ch], pos: usize, buf: Vec<Ch>, start: usize, line: usize) -> (r:
    Scanned)
    requires
        line <= pos <= source@.len(),
        start <= buf@.len(),
    ensures
        scan_of(r) == close(source@, pos as int, buf@, start as int, line as int),
        match r {
            Scanned::Line { position, line, .. } => line <= position <= source@.len() && pos
                <= position,
            Scanned::Unterminated { position, line } => line <= position <= source@.len() && pos
                <= position,
        },
    decreases source@.len() - pos, buf@.len() - start, 0int,
{
    let ghost before = buf@;
    let mut buf = buf;
    let e = find_pair(buf.as_slice(), start, '*', '/');
    if e < buf.len() {
        remove_between(&mut buf, start, e + 2);
        strip_comments(source, pos, buf, start, line)
    } else if pos >= source.len() {
        Scanned::Unterminated { position: pos, line }
    } else {
        let end = find_line_end(source, pos);
        buf.truncate(start);
        append_line(&mut buf, source, pos, end);
        proof {
            assert(buf@ =~= before.take(start as int) + without_line_feed(
                source@.subrange(pos as int, end as int),
            ));
        }
        close_comment(source, end, buf, start, line + 1)
    }
}

impl GasParser {
    #[verifier::type_invariant]
    spec fn well_formed(self) -> bool {
        self.line_index <= self.position <= self.source@.len()
    }

    /// The text that the parser walks, with its characters classified.
    pub closed spec fn source(self) -> Seq<Ch> {
        self.source@
    }

    /// How far the text has been read.
    pub closed spec fn position(self) -> int {
        self.position as int
    }

    /// How many lines have been read.
    pub closed spec fn line(self) -> int {
        self.line_index as int
    }

    /// A parser at the start of the text `reader`.
    pub fn new(reader: &str) -> (r: GasParser)
        ensures
            r.source() == classified_text(reader@),
            r.position() == 0,
            r.line() == 0,
    {
        GasParser::from_classified(classify_text(reader))
    }

    /// A parser at the start of a text whose characters have been
    /// classified.
    pub fn from_classified(source: Vec<Ch>) -> (r: GasParser)
        ensures
            r.source() == source@,
            r.position() == 0,
            r.line() == 0,
    {
        GasParser { source, position: 0, line_index: 0 }
    }

    /// Hands out the next statement, `None` at the end of the text. A line
    /// without a statement yields one without labels and directive. An error
    /// names the last line that was read.
    pub fn next(&mut self) -> (r: Result<Option<Statement>, Error>)
        ensures
            final(self).source() == old(self).source(),
            next_view(r) == spec_next(old(self).source(), old(self).position(), old(self).line()).result,
            final(self).position() == spec_next(
                old(self).source(),
                old(self).position(),
                old(self).line(),
            ).position,
            final(self).line() == spec_next(
                old(self).source(),
                old(self).position(),
                old(self).line(),
            ).line,
            old(self).position() <= final(self).position() <= old(self).source().len(),
            old(self).position() < old(self).source().len() ==> old(self).position()
                < final(self).position(),
    {
        proof {
            use_type_invariant(&*self);
        }
        if self.position >= self.source.len() {
            return Ok(None);
        }
        let end = find_line_end(self.source.as_slice(), self.position);
        let mut buf: Vec<Ch> = Vec::new();
        append_line(&mut buf, self.source.as_slice(), self.position, end);
        proof {
            assert(buf@ =~= without_line_feed(
                self.source@.subrange(self.position as int, end as int),
            ));
        }
        match strip_comments(self.source.as_slice(), end, buf, 0, self.line_index + 1) {
            Scanned::Unterminated { position, line } => {
                self.position = position;
                self.line_index = line;
                Err(
                    Error::SyntaxError {
                        message: "found a unterminated block comment".to_owned(),
                        line,
                    },
                )
            },
            Scanned::Line { text, position, line } => {
                self.position = position;
                self.line_index = line;
                let mut text = text;
                text.push(classify('\n'));
                match parse_chars(text.as_slice()) {
                    Ok(statement) => Ok(Some(statement)),
                    Err(message) => Err(Error::SyntaxError { message, line }),
                }
            },
        }
    }
}

} // verus!
