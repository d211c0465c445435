//! Line-oriented parser for annotated log text.
//!
//! The input is a sequence of blocks separated by blank lines.  A block
//! is one non-empty log line followed by one or more annotation lines;
//! an annotation line must contain a space (separating a tag from its
//! value).  A blank line ends the block and turns it into a [`Sample`]
//! whose `input` is the log line and whose `target` is the annotation
//! lines joined with newlines.  A block that the input ends in the
//! middle of is dropped; a non-blank line without a space where an
//! annotation was expected is an error.

use vstd::prelude::*;
use vstd::string::StrSliceExecFns;
use vstd::string::StringExecFns;

verus! {

/// One extracted training sample: a log line and its annotation block.
#[derive(Debug, Clone)]
pub struct Sample {
    /// The log line itself.
    pub input: String,
    /// The annotation lines, joined with newlines.
    pub target: String,
}

/// What went wrong on a line, without its position.
#[derive(Clone, Copy, Debug, PartialEq, Eq, Structural)]
pub enum ParseErrorKind {
    /// A non-blank line without a space stood where an annotation line
    /// (tag, space, value) was expected.
    InvalidAnnotationLine,
    /// A finished sample was not taken before the next blank line.
    SampleNotUsed,
}

/// A parse error, carrying the 1-based number of the offending line.
#[derive(Clone, Copy, Debug, PartialEq, Eq, Structural)]
pub struct ParseError {
    /// 1-based line number of the offending line.
    pub line: usize,
    /// What was wrong with it.
    pub kind: ParseErrorKind,
}

/// The abstract value of a [`State`]: the same shape, over sequences.
pub enum StateV {
    /// Between blocks.
    Init,
    /// A log line was read; annotation lines are expected.
    Text(Seq<char>),
    /// A log line and at least one annotation line were read.
    TextWithSpans(Seq<char>, Seq<Seq<char>>),
    /// A blank line closed the block: the sample (input, target) is ready.
    Finalized(Seq<char>, Seq<char>),
}

/// The annotation lines of a block, joined with newlines.
pub open spec fn join_lines(items: Seq<Seq<char>>) -> Seq<char>
    decreases items.len(),
{
    if items.len() == 0 {
        Seq::empty()
    } else if items.len() == 1 {
        items[0]
    } else {
        items[0] + seq!['\n'] + join_lines(items.drop_first())
    }
}

/// The grammar, one line at a time: what state follows `s` after
/// consuming `line`, or which error the line is.
pub open spec fn spec_step(s: StateV, line: Seq<char>) -> Result<StateV, ParseErrorKind> {
    match s {
        StateV::Init => Ok(
            if line.len() > 0 {
                StateV::Text(line)
            } else {
                StateV::Init
            },
        ),
        StateV::Text(text) => if text.len() == 0 {
            Ok(StateV::Init)
        } else if line.contains(' ') {
            Ok(StateV::TextWithSpans(text, seq![line]))
        } else {
            Err(ParseErrorKind::InvalidAnnotationLine)
        },
        StateV::TextWithSpans(text, items) => if line.len() == 0 {
            Ok(StateV::Finalized(text, join_lines(items)))
        } else if line.contains(' ') {
            Ok(StateV::TextWithSpans(text, items.push(line)))
        } else {
            Err(ParseErrorKind::InvalidAnnotationLine)
        },
        StateV::Finalized(input, target) => if line.len() > 0 {
            Ok(StateV::Finalized(input, target))
        } else {
            Err(ParseErrorKind::SampleNotUsed)
        },
    }
}

/// The parser's per-line state.
#[derive(Debug)]
pub enum State {
    /// Between blocks.
    Init,
    /// A log line was read; annotation lines are expected.
    Text(String),
    /// A log line and the annotation lines read so far.
    TextWithSpans(String, Vec<String>),
    /// A blank line closed the block and produced this sample.
    Finalized(Sample),
}

impl View for State {
    type V = StateV;

    open spec fn view(&self) -> StateV {
        match self {
            State::Init => StateV::Init,
            State::Text(text) => StateV::Text(text@),
            State::TextWithSpans(text, items) => StateV::TextWithSpans(text@, items.deep_view()),
            State::Finalized(sample) => StateV::Finalized(sample.input@, sample.target@),
        }
    }
}

impl State {
    /// Consumes one line: exactly [`spec_step`], executably.
    pub fn next(self, line: &str) -> (r: Result<State, ParseErrorKind>)
        ensures
            (match spec_step(self@, line@) {
                Ok(v) => r matches Ok(st) && st@ == v,
                Err(k) => r matches Err(e) && e == k,
            }),
    {
        match self {
            State::Init => Ok(
                if !line.is_empty() {
                    State::Text(line.to_owned())
                } else {
                    State::Init
                },
            ),
            State::Text(text) => {
                if text.as_str().is_empty() {
                    Ok(State::Init)
                } else if contains_space(line) {
                    let mut items: Vec<String> = Vec::new();
                    items.push(line.to_owned());
                    proof {
                        assert(items.deep_view() =~= seq![line@]);
                    }
                    Ok(State::TextWithSpans(text, items))
                } else {
                    Err(ParseErrorKind::InvalidAnnotationLine)
                }
            },
            State::TextWithSpans(text, items) => {
                if line.is_empty() {
                    let target = join_with_newlines(&items);
                    Ok(State::Finalized(Sample { input: text, target }))
                } else if contains_space(line) {
                    let mut items = items;
                    let ghost before = items.deep_view();
                    items.push(line.to_owned());
                    proof {
                        assert(items.deep_view() =~= before.push(line@));
                    }
                    Ok(State::TextWithSpans(text, items))
                } else {
                    Err(ParseErrorKind::InvalidAnnotationLine)
                }
            },
            State::Finalized(sample) => {
                if !line.is_empty() {
                    Ok(State::Finalized(sample))
                } else {
                    Err(ParseErrorKind::SampleNotUsed)
                }
            },
        }
    }

    /// Takes the finished sample out of a `Finalized` state, resetting
    /// it to `Init`; any other state is left as it is.
    pub fn take_sample(&mut self) -> (r: Option<Sample>)
        ensures
            (match old(self)@ {
                StateV::Finalized(input, target) => {
                    &&& r matches Some(s) && s.input@ == input && s.target@ == target
                    &&& final(self)@ is Init
                },
                _ => r is None && *final(self) == *old(self),
            }),
    {
        let mut taken = State::Init;
        core::mem::swap(self, &mut taken);
        match taken {
            State::Finalized(sample) => Some(sample),
            other => {
                *self = other;
                None
            },
        }
    }
}

/// What scanning forward from a line, in a given state, produces.
pub enum ScanOutcome {
    /// The lines ran out with no finished block: no more samples.
    Exhausted,
    /// A sample was finished; scanning consumed the lines up to `pos`.
    Found { pos: int, input: Seq<char>, target: Seq<char> },
    /// The 0-based line `line` was not what the grammar expected.
    Failed { line: int, kind: ParseErrorKind },
}

/// Folds [`spec_step`] over `lines` from `pos` on, in state `st`, up to
/// the first finished sample, error, or the end of the lines.
pub open spec fn spec_scan(lines: Seq<Seq<char>>, pos: nat, st: StateV) -> ScanOutcome
    decreases lines.len() - pos,
{
    if pos >= lines.len() {
        ScanOutcome::Exhausted
    } else {
        match spec_step(st, lines[pos as int]) {
            Err(k) => ScanOutcome::Failed { line: pos as int, kind: k },
            Ok(StateV::Finalized(input, target)) => ScanOutcome::Found {
                pos: pos + 1 as int,
                input,
                target,
            },
            Ok(st2) => spec_scan(lines, pos + 1, st2),
        }
    }
}

/// A pull parser over the lines of an annotated text: each call to
/// [`Parser::next`] scans forward to the next finished block.
#[derive(Debug)]
pub struct Parser {
    /// The lines of the text.
    lines: Vec<String>,
    /// The next line to consume.
    pos: usize,
}

impl Parser {
    /// The lines being parsed.
    pub closed spec fn lines(&self) -> Seq<Seq<char>> {
        self.lines.deep_view()
    }

    /// The position of the next line to consume.
    pub closed spec fn pos(&self) -> int {
        self.pos as int
    }

    /// The parser never stands past the end of its lines.
    pub open spec fn inv(&self) -> bool {
        0 <= self.pos() <= self.lines().len()
    }

    /// Wraps already-split lines in a parser.
    pub fn from_lines(lines: Vec<String>) -> (p: Parser)
        ensures
            p.inv(),
            p.lines() == lines.deep_view(),
            p.pos() == 0,
    {
        Parser { lines, pos: 0 }
    }

    /// Scans forward to the next finished sample.  `Ok(None)` means the
    /// lines ran out (an unterminated final block is dropped); an error
    /// carries the 1-based number of the offending line, and the parser
    /// stops for good.
    pub fn next(&mut self) -> (r: Result<Option<Sample>, ParseError>)
        requires
            old(self).inv(),
        ensures
            final(self).inv(),
            final(self).lines() == old(self).lines(),
            (match spec_scan(old(self).lines(), old(self).pos() as nat, StateV::Init) {
                ScanOutcome::Exhausted => {
                    &&& r matches Ok(o) && o is None
                    &&& final(self).pos() == old(self).lines().len()
                },
                ScanOutcome::Found { pos, input, target } => {
                    &&& r matches Ok(o) && o matches Some(s) && s.input@ == input && s.target@
                        == target
                    &&& final(self).pos() == pos
                },
                ScanOutcome::Failed { line, kind } => {
                    &&& r matches Err(e) && e.line == line + 1 && e.kind == kind
                    &&& final(self).pos() == old(self).lines().len()
                },
            }),
    {
        let ghost lines0 = self.lines();
        let ghost pos0 = self.pos() as nat;
        let mut state = State::Init;
        while self.pos < self.lines.len()
            invariant
                self.inv(),
                lines0 == old(self).lines(),
                pos0 == old(self).pos() as nat,
                self.lines() == lines0,
                !(state@ is Finalized),
                spec_scan(lines0, pos0, StateV::Init) == spec_scan(
                    lines0,
                    self.pos() as nat,
                    state@,
                ),
            decreases self.lines().len() - self.pos(),
        {
            let ln = self.pos;
            let line = &self.lines[ln];
            self.pos = ln + 1;
            match state.next(line.as_str()) {
                Err(kind) => {
                    self.pos = self.lines.len();
                    return Err(ParseError { line: ln + 1, kind });
                },
                Ok(stepped) => {
                    match stepped {
                        State::Finalized(sample) => {
                            return Ok(Some(sample));
                        },
                        other => {
                            state = other;
                        },
                    }
                },
            }
        }
        Ok(None)
    }
}

/// Splits a text into lines, as [`Parser`] consumes them: each newline
/// ends a line, one carriage return before a newline is dropped, and a
/// final newline ends the last line rather than opening an empty one.
pub open spec fn spec_lines(s: Seq<char>) -> Seq<Seq<char>>
    decreases s.len(),
    via spec_lines_decreases
{
    if s.len() == 0 {
        Seq::empty()
    } else {
        match s.index_of_first('\n') {
            Some(i) => seq![strip_cr(s.take(i))] + spec_lines(s.skip(i + 1)),
            None => seq![s],
        }
    }
}

/// One carriage return at the end of a line is dropped.
pub open spec fn strip_cr(line: Seq<char>) -> Seq<char> {
    if line.len() > 0 && line.last() == '\r' {
        line.drop_last()
    } else {
        line
    }
}

#[via_fn]
proof fn spec_lines_decreases(s: Seq<char>) {
    if s.len() > 0 {
        s.index_of_first_ensures('\n');
    }
}

/// Anything that can hand its text to the parser.
pub trait ParserExt {
    /// The text, as the sequence of its characters.
    spec fn text(&self) -> Seq<char>;

    /// Splits the text into lines and starts a parser on them.
    fn samples(&self) -> (p: Parser)
        ensures
            p.inv(),
            p.lines() == spec_lines(self.text()),
            p.pos() == 0,
    ;
}

impl ParserExt for str {
    open spec fn text(&self) -> Seq<char> {
        self@
    }

    fn samples(&self) -> (p: Parser) {
        Parser { lines: split_lines(self), pos: 0 }
    }
}

/// Splits the text into its lines: exactly [`spec_lines`], executably.
fn split_lines(s: &str) -> (r: Vec<String>)
    ensures
        r.deep_view() == spec_lines(s@),
{
    let n: usize = s.unicode_len();
    let mut out: Vec<String> = Vec::new();
    let mut start: usize = 0;
    let mut i: usize = 0;
    proof {
        assert(s@.skip(0) =~= s@);
        assert(out.deep_view() + spec_lines(s@) =~= spec_lines(s@));
    }
    while i < n
        invariant
            n == s@.len(),
            start <= i <= n,
            out.deep_view() + spec_lines(s@.skip(start as int)) == spec_lines(s@),
            forall|j: int| start <= j < i ==> s@[j] != '\n',
        decreases n - i,
    {
        if s.get_char(i) == '\n' {
            let end = if i > start && s.get_char(i - 1) == '\r' {
                i - 1
            } else {
                i
            };
            let ghost rest = s@.skip(start as int);
            proof {
                rest.index_of_first_ensures('\n');
                assert(rest[i - start as int] == '\n');
                match rest.index_of_first('\n') {
                    Some(k) => {
                        assert(rest[k] == '\n');
                        assert(k == i - start as int);
                        assert(rest.take(k) =~= s@.subrange(start as int, i as int));
                        assert(rest.skip(k + 1) =~= s@.skip(i + 1));
                    },
                    None => {
                        assert(false);
                    },
                }
                assert(s@.subrange(start as int, end as int) =~= strip_cr(
                    s@.subrange(start as int, i as int),
                ));
            }
            let line = s.substring_char(start, end);
            let ghost out0 = out.deep_view();
            out.push(line.to_owned());
            proof {
                assert(out.deep_view() =~= out0.push(line@));
                assert(out.deep_view() + spec_lines(s@.skip(i + 1)) =~= out0 + spec_lines(
                    s@.skip(start as int),
                ));
            }
            start = i + 1;
        }
        i += 1;
    }
    if start < n {
        let ghost rest = s@.skip(start as int);
        proof {
            rest.index_of_first_ensures('\n');
            match rest.index_of_first('\n') {
                Some(k) => {
                    assert(rest[k] == '\n');
                    assert(false);
                },
                None => {},
            }
            assert(spec_lines(rest) == seq![rest]);
        }
        let line = s.substring_char(start, n);
        let ghost out0 = out.deep_view();
        out.push(line.to_owned());
        proof {
            assert(line@ =~= rest);
            assert(out.deep_view() =~= out0.push(rest));
            assert(out0.push(rest) =~= out0 + spec_lines(rest));
        }
    } else {
        proof {
            assert(s@.skip(start as int) =~= Seq::<char>::empty());
            assert(spec_lines(Seq::<char>::empty()) =~= Seq::<Seq<char>>::empty());
            assert(out.deep_view() + spec_lines(s@.skip(start as int)) =~= out.deep_view());
        }
    }
    out
}

/// Whether the line contains a space: the shape test for an annotation
/// line (tag, space, value).
fn contains_space(line: &str) -> (r: bool)
    ensures
        r == line@.contains(' '),
{
    let n: usize = line.unicode_len();
    let mut i: usize = 0;
    while i < n
        invariant
            n == line@.len(),
            i <= n,
            forall|j: int| 0 <= j < i ==> line@[j] != ' ',
        decreases n - i,
    {
        if line.get_char(i) == ' ' {
            return true;
        }
        i += 1;
    }
    false
}

/// Joining after appending one more line extends the join by a newline
/// and that line.
proof fn lemma_join_snoc(items: Seq<Seq<char>>, last: Seq<char>)
    requires
        items.len() >= 1,
    ensures
        join_lines(items.push(last)) == join_lines(items) + seq!['\n'] + last,
    decreases items.len(),
{
    let pushed = items.push(last);
    if items.len() == 1 {
        assert(pushed[0] == items[0]);
        assert(pushed.drop_first() =~= seq![last]);
        assert(join_lines(pushed.drop_first()) == last);
    } else {
        assert(pushed.drop_first() =~= items.drop_first().push(last));
        lemma_join_snoc(items.drop_first(), last);
    }
}

/// Joins the lines with newlines: exactly [`join_lines`], executably.
fn join_with_newlines(items: &Vec<String>) -> (r: String)
    ensures
        r@ == join_lines(items.deep_view()),
{
    let ghost all = items.deep_view();
    let mut out = String::new();
    if items.len() == 0 {
        return out;
    }
    out.append(items[0].as_str());
    proof {
        assert(all.take(1) =~= seq![all[0]]);
        assert(join_lines(all.take(1)) == all[0]);
    }
    let mut i: usize = 1;
    while i < items.len()
        invariant
            1 <= i <= all.len() == items.deep_view().len(),
            all == items.deep_view(),
            out@ == join_lines(all.take(i as int)),
        decreases all.len() - i,
    {
        out.append("\n");
        out.append(items[i].as_str());
        proof {
            reveal_strlit("\n");
            assert("\n"@ =~= seq!['\n']);
            lemma_join_snoc(all.take(i as int), all[i as int]);
            assert(all.take(i as int).push(all[i as int]) =~= all.take(i + 1));
        }
        i += 1;
    }
    proof {
        assert(all.take(all.len() as int) =~= all);
    }
    out
}

} // verus!
