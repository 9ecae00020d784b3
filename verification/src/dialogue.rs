//! The dialogue that asks for an index until a line names one, and then
//! reports the Fibonacci number of that index.
//!
//! `respond` decides what follows one line of input, or the end of the
//! input. `run` plays a whole dialogue on lines that are already at hand.

use crate::sequence::{checked_fibonacci, fib, lemma_fits_u32, MAX_INDEX};
use crate::text::{decimal, decimal_text, parse_i32, trimmed};
use crate::validation::{classify, classify_line, lemma_written_index_is_valid, Parsed};
use vstd::prelude::*;
use vstd::string::StringExecFns;

verus! {

/// Why a line was turned down.
#[derive(Clone, Copy, Debug, PartialEq, Eq, Structural)]
pub enum Complaint {
    /// The line does not write an integer.
    NotANumber,
    /// The line writes an integer below zero.
    Negative,
}

/// How a dialogue ends.
#[derive(Clone, Copy, Debug, PartialEq, Eq, Structural)]
pub enum Outcome {
    /// An index was accepted and its Fibonacci number reported.
    Reported { index: u32, value: u32 },
    /// An index was accepted whose Fibonacci number does not fit in a `u32`.
    Overflow { index: u32 },
    /// The input ended before any line was accepted.
    InputExhausted,
}

/// What follows one line of input, or the end of the input.
#[derive(Clone, Copy, Debug, PartialEq, Eq, Structural)]
pub enum Action {
    /// Say why the line was turned down, ask again and wait for another line.
    Retry(Complaint),
    /// Stop waiting: the dialogue ends this way.
    Finish(Outcome),
}

/// The question that is put before each line of input.
pub open spec fn prompt_text() -> Seq<char> {
    "Enter n:"@
}

/// The words that go with a complaint.
pub open spec fn complaint_text(complaint: Complaint) -> Seq<char> {
    match complaint {
        Complaint::NotANumber => "Enter a valid number"@,
        Complaint::Negative => "Enter a non-negative integer"@,
    }
}

/// The line that reports `value` as the Fibonacci number of `index`. The
/// two indices that need no computing are reported without a colon.
pub open spec fn report_text(index: nat, value: nat) -> Seq<char> {
    "The "@ + decimal_text(index) + (if index < 2 {
        "th fibonacci number is "@
    } else {
        "th fibonacci number is: "@
    }) + decimal_text(value)
}

/// The action that `input` calls for, where `None` stands for the end of
/// the input.
pub open spec fn reaction(input: Option<Seq<char>>) -> Action {
    match input {
        None => Action::Finish(Outcome::InputExhausted),
        Some(line) => match classify_line(line) {
            Parsed::Invalid => Action::Retry(Complaint::NotANumber),
            Parsed::Negative => Action::Retry(Complaint::Negative),
            Parsed::Valid(index) => if index <= MAX_INDEX {
                Action::Finish(Outcome::Reported { index, value: fib(index as nat) as u32 })
            } else {
                Action::Finish(Outcome::Overflow { index })
            },
        },
    }
}

/// The lines that an action puts out.
pub open spec fn said(action: Action) -> Seq<Seq<char>> {
    match action {
        Action::Retry(complaint) => seq![complaint_text(complaint), prompt_text()],
        Action::Finish(Outcome::Reported { index, value }) => seq![
            report_text(index as nat, value as nat),
        ],
        Action::Finish(_) => seq![],
    }
}

/// The texts of a sequence of strings.
pub open spec fn texts(strings: Seq<String>) -> Seq<Seq<char>> {
    strings.map_values(|s: String| s@)
}

/// The question that is put before each line of input.
pub fn prompt() -> (text: &'static str)
    ensures
        text@ == prompt_text(),
{
    "Enter n:"
}

impl Complaint {
    /// The words that go with this complaint.
    pub fn message(&self) -> (text: &'static str)
        ensures
            text@ == complaint_text(*self),
    {
        match self {
            Complaint::NotANumber => "Enter a valid number",
            Complaint::Negative => "Enter a non-negative integer",
        }
    }
}

/// Writes the line that reports `value` as the Fibonacci number of `index`.
pub fn report(index: u32, value: u32) -> (line: String)
    ensures
        line@ == report_text(index as nat, value as nat),
{
    let start = "The ".to_owned().concat(decimal(index).as_str());
    let middle = if index < 2 {
        start.concat("th fibonacci number is ")
    } else {
        start.concat("th fibonacci number is: ")
    };
    middle.concat(decimal(value).as_str())
}

/// Decides what follows one line of input, or, for `None`, the end of the
/// input.
pub fn respond(input: Option<&str>) -> (action: Action)
    ensures
        action == reaction(
            match input {
                None => None,
                Some(line) => Some(line@),
            },
        ),
{
    match input {
        None => Action::Finish(Outcome::InputExhausted),
        Some(line) => match classify(line) {
            Parsed::Invalid => Action::Retry(Complaint::NotANumber),
            Parsed::Negative => Action::Retry(Complaint::Negative),
            Parsed::Valid(index) => match checked_fibonacci(index) {
                Some(value) => Action::Finish(Outcome::Reported { index, value }),
                None => Action::Finish(Outcome::Overflow { index }),
            },
        },
    }
}

impl Action {
    /// The lines that this action puts out, in order.
    pub fn lines(&self) -> (out: Vec<String>)
        ensures
            texts(out@) == said(*self),
    {
        let mut out: Vec<String> = Vec::new();
        match self {
            Action::Retry(complaint) => {
                out.push(complaint.message().to_owned());
                out.push(prompt().to_owned());
            },
            Action::Finish(Outcome::Reported { index, value }) => {
                out.push(report(*index, *value));
            },
            Action::Finish(_) => {},
        }
        assert(texts(out@) =~= said(*self));
        out
    }
}

/// What a dialogue puts out and how it ends.
pub struct Transcript {
    /// The lines put out, in order.
    pub output: Vec<String>,
    /// How the dialogue ended.
    pub outcome: Outcome,
}

/// The lines that a dialogue on `lines` puts out after its first question.
pub open spec fn replies(lines: Seq<Seq<char>>) -> Seq<Seq<char>>
    decreases lines.len(),
{
    if lines.len() == 0 {
        said(reaction(None))
    } else {
        match reaction(Some(lines.first())) {
            Action::Retry(complaint) => said(Action::Retry(complaint)) + replies(
                lines.drop_first(),
            ),
            Action::Finish(outcome) => said(Action::Finish(outcome)),
        }
    }
}

/// All that a dialogue on `lines` puts out: the question, then for each line
/// that is turned down the complaint and the question again, then the report
/// if a line is accepted and its number fits.
pub open spec fn spoken(lines: Seq<Seq<char>>) -> Seq<Seq<char>> {
    seq![prompt_text()] + replies(lines)
}

/// How a dialogue on `lines` ends: with the first line that is accepted, or
/// with the end of the input where none is.
pub open spec fn ending(lines: Seq<Seq<char>>) -> Outcome
    decreases lines.len(),
{
    if lines.len() == 0 {
        Outcome::InputExhausted
    } else {
        match reaction(Some(lines.first())) {
            Action::Retry(_) => ending(lines.drop_first()),
            Action::Finish(outcome) => outcome,
        }
    }
}

/// Plays a whole dialogue on the lines at hand: asks, reads the lines one by
/// one until one is accepted or none is left, and reports.
pub fn run(lines: &Vec<String>) -> (transcript: Transcript)
    ensures
        texts(transcript.output@) == spoken(texts(lines@)),
        transcript.outcome == ending(texts(lines@)),
{
    let ghost input = texts(lines@);
    let mut output: Vec<String> = Vec::new();
    output.push(prompt().to_owned());
    assert(texts(output@) =~= seq![prompt_text()]);
    assert(input.skip(0) =~= input);
    let mut at: usize = 0;
    while at < lines.len()
        invariant
            at <= lines.len(),
            input == texts(lines@),
            texts(output@) + replies(input.skip(at as int)) == spoken(input),
            ending(input.skip(at as int)) == ending(input),
        decreases lines.len() - at,
    {
        let ghost before = texts(output@);
        let ghost rest = input.skip(at as int);
        assert(rest.first() == lines@[at as int]@);
        assert(rest.drop_first() =~= input.skip(at + 1));
        let action = respond(Some(lines[at].as_str()));
        let mut more = action.lines();
        output.append(&mut more);
        assert(texts(output@) =~= before + said(action));
        match action {
            Action::Finish(outcome) => {
                return Transcript { output, outcome };
            },
            Action::Retry(_) => {},
        }
        assert(before + said(action) + replies(input.skip(at + 1)) =~= before + (said(action)
            + replies(input.skip(at + 1))));
        at = at + 1;
    }
    assert(input.skip(at as int).len() == 0);
    assert(texts(output@) + said(reaction(None)) =~= texts(output@));
    Transcript { output, outcome: Outcome::InputExhausted }
}

/// A line that writes no 32-bit integer does not end the dialogue: the
/// complaint and the question follow, and the dialogue goes on with the next
/// line as if it were the first.
pub proof fn lemma_unparsable_line_asks_again(line: Seq<char>, rest: Seq<Seq<char>>)
    requires
        parse_i32(trimmed(line)) is None,
    ensures
        reaction(Some(line)) == Action::Retry(Complaint::NotANumber),
        spoken(seq![line] + rest) == seq![
            prompt_text(),
            complaint_text(Complaint::NotANumber),
        ] + spoken(rest),
        ending(seq![line] + rest) == ending(rest),
{
    let lines = seq![line] + rest;
    assert(lines.first() == line);
    assert(lines.drop_first() =~= rest);
    assert(spoken(lines) =~= seq![prompt_text(), complaint_text(Complaint::NotANumber)] + spoken(
        rest,
    ));
}

/// A line that writes an integer below zero does not end the dialogue: the
/// complaint and the question follow, and the dialogue goes on with the next
/// line as if it were the first.
pub proof fn lemma_negative_line_asks_again(line: Seq<char>, rest: Seq<Seq<char>>)
    requires
        parse_i32(trimmed(line)) matches Some(number) && number < 0,
    ensures
        reaction(Some(line)) == Action::Retry(Complaint::Negative),
        spoken(seq![line] + rest) == seq![
            prompt_text(),
            complaint_text(Complaint::Negative),
        ] + spoken(rest),
        ending(seq![line] + rest) == ending(rest),
{
    let lines = seq![line] + rest;
    assert(lines.first() == line);
    assert(lines.drop_first() =~= rest);
    assert(spoken(lines) =~= seq![prompt_text(), complaint_text(Complaint::Negative)] + spoken(
        rest,
    ));
}

/// A line that writes an index ends the dialogue, whatever follows it: with
/// the report of the Fibonacci number of that index where the number fits in
/// a `u32`, and without a report where it does not.
pub proof fn lemma_valid_line_ends(line: Seq<char>, index: u32, rest: Seq<Seq<char>>)
    requires
        classify_line(line) == Parsed::Valid(index),
    ensures
        index <= MAX_INDEX ==> {
            &&& fib(index as nat) <= u32::MAX
            &&& ending(seq![line] + rest) == (Outcome::Reported {
                index,
                value: fib(index as nat) as u32,
            })
            &&& spoken(seq![line] + rest) == seq![
                prompt_text(),
                report_text(index as nat, fib(index as nat)),
            ]
        },
        index > MAX_INDEX ==> {
            &&& ending(seq![line] + rest) == (Outcome::Overflow { index })
            &&& spoken(seq![line] + rest) == seq![prompt_text()]
        },
{
    let lines = seq![line] + rest;
    assert(lines.first() == line);
    lemma_fits_u32(index as nat);
    if index <= MAX_INDEX {
        assert(spoken(lines) =~= seq![
            prompt_text(),
            report_text(index as nat, fib(index as nat)),
        ]);
    } else {
        assert(spoken(lines) =~= seq![prompt_text()]);
    }
}

/// A dialogue whose first line holds an index up to `MAX_INDEX` in decimal
/// notation asks once and reports the Fibonacci number of that index.
pub proof fn lemma_written_index_is_reported(index: u32, rest: Seq<Seq<char>>)
    requires
        index <= MAX_INDEX,
    ensures
        spoken(seq![decimal_text(index as nat)] + rest) == seq![
            prompt_text(),
            report_text(index as nat, fib(index as nat)),
        ],
        ending(seq![decimal_text(index as nat)] + rest) == (Outcome::Reported {
            index,
            value: fib(index as nat) as u32,
        }),
{
    lemma_written_index_is_valid(index);
    lemma_valid_line_ends(decimal_text(index as nat), index, rest);
}

/// What a dialogue puts out and how it ends depends on its lines only
/// through the verdicts on them: two inputs whose lines get the same
/// verdicts, one by one, give the same dialogue. So the same index gives the
/// same report, however it is written and whenever it is given.
pub proof fn lemma_same_verdicts_same_dialogue(a: Seq<Seq<char>>, b: Seq<Seq<char>>)
    requires
        a.len() == b.len(),
        forall|i: int| 0 <= i < a.len() ==> classify_line(#[trigger] a[i]) == classify_line(b[i]),
    ensures
        replies(a) == replies(b),
        spoken(a) == spoken(b),
        ending(a) == ending(b),
    decreases a.len(),
{
    if a.len() > 0 {
        assert(classify_line(a[0]) == classify_line(b[0]));
        assert forall|i: int| 0 <= i < a.drop_first().len() implies classify_line(
            #[trigger] a.drop_first()[i],
        ) == classify_line(b.drop_first()[i]) by {
            assert(classify_line(a[i + 1]) == classify_line(b[i + 1]));
        }
        lemma_same_verdicts_same_dialogue(a.drop_first(), b.drop_first());
    }
}

} // verus!
