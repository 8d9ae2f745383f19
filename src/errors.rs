use vstd::prelude::*;
use vstd::string::StringExecFns;

use crate::text::{count_text, decimal};

verus! {

/// One reported error: the line it was found on, a location hint and the
/// message.
#[derive(Debug)]
pub struct Report {
    pub line: usize,
    pub location: String,
    pub message: String,
}

impl View for Report {
    type V = (int, Seq<char>, Seq<char>);

    open spec fn view(&self) -> (int, Seq<char>, Seq<char>) {
        (self.line as int, self.location@, self.message@)
    }
}

impl Report {
    /// The report as a line of text: `[line: L] Error LOCATION: MESSAGE`.
    pub fn to_text(&self) -> (r: String)
        ensures
            r@ == "[line: "@ + decimal(self.line as int) + "] Error "@ + self.location@ + ": "@
                + self.message@,
    {
        let line = count_text(self.line);
        String::from_str("[line: ").concat(line.as_str()).concat("] Error ").concat(
            self.location.as_str(),
        ).concat(": ").concat(self.message.as_str())
    }
}

/// The error-reporting context of one run: a flag that records whether any
/// error was reported since the last reset, and the reports not yet shown.
#[derive(Debug)]
pub struct Diagnostics {
    pub had_error: bool,
    pub reports: Vec<Report>,
}

impl Diagnostics {
    pub fn new() -> (r: Self)
        ensures
            !r.had_error,
            r.reports@.len() == 0,
    {
        Diagnostics { had_error: false, reports: Vec::new() }
    }

    /// The reports as (line, location, message) triples.
    pub open spec fn reports_view(&self) -> Seq<(int, Seq<char>, Seq<char>)> {
        self.reports@.map_values(|r: Report| r@)
    }
}

/// Whether an error was reported since the last reset.
pub fn had_error(d: &Diagnostics) -> (r: bool)
    ensures
        r == d.had_error,
{
    d.had_error
}

/// Clears the error flag; the reports already made stay.
pub fn reset_error(d: &mut Diagnostics)
    ensures
        !final(d).had_error,
        final(d).reports@ == old(d).reports@,
{
    d.had_error = false;
}

/// Reports `message` found on `line`, with no location hint.
pub fn error(d: &mut Diagnostics, line: usize, message: &str)
    ensures
        final(d).had_error,
        final(d).reports_view() == old(d).reports_view().push((line as int, Seq::<char>::empty(), message@)),
{
    proof {
        reveal_strlit("");
        assert(""@ =~= Seq::<char>::empty());
    }
    report(d, line, "", message);
}

/// Records a report and sets the error flag until the next reset.
pub fn report(d: &mut Diagnostics, line: usize, location: &str, message: &str)
    ensures
        final(d).had_error,
        final(d).reports_view() == old(d).reports_view().push((line as int, location@, message@)),
{
    let r = Report { line, location: String::from_str(location), message: String::from_str(message) };
    d.reports.push(r);
    d.had_error = true;
    proof {
        assert(d.reports_view() =~= old(d).reports_view().push((line as int, location@, message@)));
    }
}

} // verus!
