//! The prompt from which a language model infers the entities of a project.

use crate::util::model::{System, SystemInferContext};
use crate::util::text::{join, joined, string_views};
use vstd::prelude::*;

verus! {

/// What a system tells about itself, if anything.
pub fn context_of(system: &System) -> (r: Option<&SystemInferContext>)
    ensures
        match system.infer {
            Some(infer) => match infer.context {
                Some(context) => r == Some(&context),
                None => r is None,
            },
            None => r is None,
        },
{
    match &system.infer {
        Some(infer) => match &infer.context {
            Some(context) => Some(context),
            None => None,
        },
        None => None,
    }
}

/// The section of the prompt for the system `key`: a heading, the system's
/// description where it has one, and the output of its command, fenced,
/// where the command was run with success.
pub open spec fn system_section(
    key: Seq<char>,
    description: Option<Seq<char>>,
    output: Option<Seq<char>>,
) -> Seq<char> {
    "### System "@ + key + match description {
        Some(text) => "\n\n"@ + text,
        None => Seq::empty(),
    } + match output {
        Some(text) => "\n\n```\n"@ + text + "\n```"@,
        None => Seq::empty(),
    }
}

/// Writes the section of the prompt for the system `key`.
pub fn system_prompt(key: &str, description: Option<&str>, output: Option<&str>) -> (r: String)
    ensures
        r@ == system_section(
            key@,
            match description {
                Some(text) => Some(text@),
                None => None,
            },
            match output {
                Some(text) => Some(text@),
                None => None,
            },
        ),
{
    let mut out = "### System ".to_owned().concat(key);
    if let Some(text) = description {
        out.append("\n\n");
        out.append(text);
    }
    if let Some(text) = output {
        out.append("\n\n```\n");
        out.append(text);
        out.append("\n```");
    }
    out
}

/// What the model is told about the sections that follow.
pub open spec fn instructions_text(any_section: bool) -> Seq<char> {
    if any_section {
        "The remainder of this section contains context about each system for this application. You should use it to infer entity definitions."@
    } else {
        "No systems in this project provide context, so you should infer entity definitions from migrations files, schema defintions and data access code."@
    }
}

/// What the model is told about the sections that follow.
pub fn instructions(any_section: bool) -> (r: &'static str)
    ensures
        r@ == instructions_text(any_section),
{
    if any_section {
        "The remainder of this section contains context about each system for this application. You should use it to infer entity definitions."
    } else {
        "No systems in this project provide context, so you should infer entity definitions from migrations files, schema defintions and data access code."
    }
}

/// The whole prompt: the general prompt, the instructions and the sections of
/// the systems, a blank line between one section and the next.
pub fn prompt(general: &str, sections: &Vec<String>) -> (r: String)
    ensures
        r@ == general@ + "\n"@ + instructions_text(sections@.len() > 0) + "\n\n"@ + joined(
            string_views(sections@),
            "\n\n"@,
        ),
{
    let all = join(sections, "\n\n");
    general.to_owned().concat("\n").concat(instructions(sections.len() > 0)).concat("\n\n").concat(
        all.as_str(),
    )
}

} // verus!
