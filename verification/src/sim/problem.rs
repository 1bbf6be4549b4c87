//! The problem that the service reports in a response that is no success, and
//! the text shown to the user for it.

use crate::util::text::{decimal, decimal_i64};
use vstd::prelude::*;

verus! {

/// One step of the path to the place in a document that an issue is about.
#[derive(Debug)]
pub enum PathPart {
    /// A position in a sequence.
    Index(i64),
    /// The name of a field.
    Field(String),
}

/// One thing that is wrong, and where.
#[derive(Debug)]
pub struct ProblemIssue {
    pub message: String,
    pub path: Option<Vec<PathPart>>,
}

/// What the service reports when it refuses a request.
#[derive(Debug)]
pub struct Problem {
    pub title: String,
    pub issues: Vec<ProblemIssue>,
}

/// The text of a path: every field name with a dot in front of it, every
/// position in square brackets; no dot before the first part.
pub open spec fn path_text(parts: Seq<PathPart>) -> Seq<char>
    decreases parts.len(),
{
    if parts.len() == 0 {
        Seq::empty()
    } else {
        let before = path_text(parts.drop_last());
        match parts.last() {
            PathPart::Index(i) => before + "["@ + decimal(i as int) + "]"@,
            PathPart::Field(name) => if parts.len() > 1 {
                before + "."@ + name@
            } else {
                name@
            },
        }
    }
}

/// The lines of `issues`: each issue indented by two spaces, a newline
/// between one and the next.
pub open spec fn issue_lines(issues: Seq<ProblemIssue>) -> Seq<char>
    decreases issues.len(),
{
    if issues.len() == 0 {
        Seq::empty()
    } else if issues.len() == 1 {
        "  "@ + issues[0].text()
    } else {
        issue_lines(issues.drop_last()) + "\n"@ + "  "@ + issues.last().text()
    }
}

/// Renders a path.
pub fn render_path(parts: &Vec<PathPart>) -> (r: String)
    ensures
        r@ == path_text(parts@),
{
    let mut out = String::new();
    let mut i: usize = 0;
    while i < parts.len()
        invariant
            i <= parts.len(),
            out@ == path_text(parts@.take(i as int)),
        decreases parts.len() - i,
    {
        assert(parts@.take(i + 1).drop_last() =~= parts@.take(i as int));
        match &parts[i] {
            PathPart::Index(index) => {
                let number = decimal_i64(*index);
                out.append("[");
                out.append(number.as_str());
                out.append("]");
            },
            PathPart::Field(name) => {
                if i > 0 {
                    out.append(".");
                }
                out.append(name.as_str());
            },
        }
        i += 1;
    }
    assert(parts@.take(i as int) =~= parts@);
    out
}

impl ProblemIssue {
    /// The text of the issue: its path, a colon and its message; the message
    /// alone where it has no path.
    pub open spec fn text(&self) -> Seq<char> {
        match self.path {
            Some(path) => path_text(path@) + ": "@ + self.message@,
            None => self.message@,
        }
    }

    /// Renders the issue.
    pub fn to_string(&self) -> (r: String)
        ensures
            r@ == self.text(),
    {
        match &self.path {
            Some(path) => {
                let mut out = render_path(path);
                out.append(": ");
                out.append(self.message.as_str());
                out
            },
            None => self.message.clone(),
        }
    }
}

impl Problem {
    /// The text of the problem: its title, followed, where there are issues, by
    /// one indented line for each.
    pub open spec fn text(&self) -> Seq<char> {
        if self.issues@.len() > 0 {
            self.title@ + "\n"@ + issue_lines(self.issues@)
        } else {
            self.title@
        }
    }

    /// Renders the problem.
    pub fn to_string(&self) -> (r: String)
        ensures
            r@ == self.text(),
    {
        let mut out = self.title.clone();
        if self.issues.len() == 0 {
            return out;
        }
        out.append("\n");
        let mut i: usize = 0;
        while i < self.issues.len()
            invariant
                i <= self.issues.len(),
                self.issues.len() > 0,
                out@ == if i == 0 {
                    self.title@ + "\n"@
                } else {
                    self.title@ + "\n"@ + issue_lines(self.issues@.take(i as int))
                },
            decreases self.issues.len() - i,
        {
            assert(self.issues@.take(i + 1).drop_last() =~= self.issues@.take(i as int));
            let line = self.issues[i].to_string();
            if i > 0 {
                out.append("\n");
            }
            out.append("  ");
            out.append(line.as_str());
            i += 1;
        }
        assert(self.issues@.take(i as int) =~= self.issues@);
        out
    }
}

/// The status with which the service refuses a document that is not valid.
pub const UNPROCESSABLE_ENTITY: u16 = 422;

/// What a refused request is called, by the status of the response.
pub open spec fn failure_context_text(status: u16) -> Seq<char> {
    if status == UNPROCESSABLE_ENTITY {
        "Validation error"@
    } else {
        "API error"@
    }
}

/// What a refused request is called, by the status of the response.
pub fn failure_context(status: u16) -> (r: &'static str)
    ensures
        r@ == failure_context_text(status),
{
    if status == UNPROCESSABLE_ENTITY {
        "Validation error"
    } else {
        "API error"
    }
}

} // verus!
