//! The Fibonacci reporter: one line of input, and the answer owed to it.

use crate::decimal::{decimal, parse_number, parse_u32, push_decimal};
use crate::fib::{fib, fib_number, fib_u32, lemma_fib_fits, LAST_EXACT_INDEX};
use crate::trim::{all_space, lemma_trimmed_ignores_padding, trim, trimmed};
use vstd::prelude::*;
use vstd::string::StringExecFns;

verus! {

/// The question put to the user. It ends the line it stands on with a blank, not
/// with a line terminator.
pub const PROMPT: &'static str = "What number in the Fibonacci sequence do you want to see? ";

/// The line that tells the term `value` at `index`.
pub open spec fn term_line(index: u32, value: u32) -> Seq<char> {
    "Number "@ + decimal(index as nat) + " in the Fibonacci sequence is "@ + decimal(value as nat)
        + ".\n"@
}

/// The line that turns down the entry `raw`.
pub open spec fn refusal_line(raw: Seq<char>) -> Seq<char> {
    "You entered '"@ + raw + "'. Try again with a number.\n"@
}

/// The line that tells the term at index `wanted`: the index itself below 2, and
/// the true term up to `LAST_EXACT_INDEX`.
pub fn show_fib_for(wanted: u32) -> (line: String)
    ensures
        line@ == term_line(wanted, fib_u32(wanted as nat)),
        wanted < 2 ==> line@ == term_line(wanted, wanted),
        wanted <= LAST_EXACT_INDEX ==> fib(wanted as nat) <= u32::MAX && line@ == term_line(
            wanted,
            fib(wanted as nat) as u32,
        ),
{
    proof {
        lemma_fib_fits(wanted as nat);
    }
    term_text(wanted, fib_number(wanted))
}

/// Writes out `term_line`.
fn term_text(index: u32, value: u32) -> (line: String)
    ensures
        line@ == term_line(index, value),
{
    let mut line = String::from_str("Number ");
    push_decimal(&mut line, index);
    line.append(" in the Fibonacci sequence is ");
    push_decimal(&mut line, value);
    line.append(".\n");
    line
}

/// What the reporter makes of one line of input.
#[derive(Debug)]
pub enum Report {
    /// The line named an index, and `value` is the term there.
    Term { index: u32, value: u32 },
    /// The line named no index; `raw` is the line without the white space around it.
    Refused { raw: String },
}

/// A report as a plain value.
pub enum ReportView {
    /// The term `value` at `index`.
    Term { index: u32, value: u32 },
    /// The refusal of the entry `raw`.
    Refused { raw: Seq<char> },
}

impl View for Report {
    type V = ReportView;

    open spec fn view(&self) -> ReportView {
        match self {
            Report::Term { index, value } => ReportView::Term { index: *index, value: *value },
            Report::Refused { raw } => ReportView::Refused { raw: raw@ },
        }
    }
}

impl ReportView {
    /// What is printed for this report, line terminator included.
    pub open spec fn output(self) -> Seq<char> {
        match self {
            ReportView::Term { index, value } => term_line(index, value),
            ReportView::Refused { raw } => refusal_line(raw),
        }
    }

    /// The status the process ends with: 0 after a term, 1 after a refusal.
    pub open spec fn exit_status(self) -> i32 {
        match self {
            ReportView::Term { .. } => 0,
            ReportView::Refused { .. } => 1,
        }
    }
}

/// The report owed to `line`: the term at the index that the trimmed line denotes,
/// or the refusal of the trimmed line where it denotes none.
pub open spec fn report_of(line: Seq<char>) -> ReportView {
    match parse_u32(trimmed(line)) {
        Some(index) => ReportView::Term { index, value: fib_u32(index as nat) },
        None => ReportView::Refused { raw: trimmed(line) },
    }
}

/// Answers one line of input.
pub fn report(line: &str) -> (answer: Report)
    ensures
        answer@ == report_of(line@),
{
    let entry = trim(line);
    match parse_number(entry) {
        Some(index) => Report::Term { index, value: fib_number(index) },
        None => Report::Refused { raw: String::from_str(entry) },
    }
}

impl Report {
    /// What is to be printed, line terminator included.
    pub fn output(&self) -> (text: String)
        ensures
            text@ == self@.output(),
    {
        match self {
            Report::Term { index, value } => term_text(*index, *value),
            Report::Refused { raw } => {
                let mut text = String::from_str("You entered '");
                text.append(raw.as_str());
                text.append("'. Try again with a number.\n");
                text
            },
        }
    }

    /// The status the process is to end with.
    pub fn exit_status(&self) -> (status: i32)
        ensures
            status == self@.exit_status(),
    {
        match self {
            Report::Term { .. } => 0,
            Report::Refused { .. } => 1,
        }
    }
}

/// A line that names an index up to `LAST_EXACT_INDEX` is answered with the true
/// term at that index, which below 2 is the index itself, and with status 0.
pub proof fn lemma_report_tells_the_term(line: Seq<char>, index: u32)
    requires
        parse_u32(trimmed(line)) == Some(index),
        index <= LAST_EXACT_INDEX,
    ensures
        fib(index as nat) <= u32::MAX,
        report_of(line) == (ReportView::Term { index, value: fib(index as nat) as u32 }),
        index < 2 ==> report_of(line) == (ReportView::Term { index, value: index }),
        report_of(line).exit_status() == 0,
{
    lemma_fib_fits(index as nat);
}

/// A line that names no index is refused with status 1, and the refusal quotes
/// the line as it was entered, without the white space around it.
pub proof fn lemma_report_refuses_the_rest(line: Seq<char>)
    requires
        parse_u32(trimmed(line)) is None,
    ensures
        report_of(line).exit_status() == 1,
        report_of(line).output() == "You entered '"@ + trimmed(line)
            + "'. Try again with a number.\n"@,
{
}

/// White space around an entry changes nothing in the report.
pub proof fn lemma_report_ignores_padding(before: Seq<char>, entry: Seq<char>, after: Seq<char>)
    requires
        all_space(before, 0, before.len() as int),
        all_space(after, 0, after.len() as int),
    ensures
        report_of(before + entry + after) == report_of(entry),
{
    lemma_trimmed_ignores_padding(before, entry, after);
}

} // verus!
