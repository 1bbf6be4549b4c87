//! Setting a project up: the first simulation document and the line in
//! `.gitignore` that keeps simulation output out of version control.

use crate::util::text::{chars_of, str_eq, string_of, trim_range, trimmed};
use vstd::prelude::*;

verus! {

/// The path that `.gitignore` has to list.
pub open spec fn ignored_path() -> Seq<char> {
    ".rngo/simulations"@
}

/// What follows the key in a new simulation document.
pub open spec fn template_body() -> Seq<char> {
    "\nseed: 1\nentities:\n  # Define your entities here\n  # Example:\n  # users:\n  #   stream:\n  #     type: object\n  #     properties:\n  #       id:\n  #         type: integer\n  #       name:\n  #         type: string\n"@
}

/// The simulation document of a new project with key `key`: the key, the
/// seed 1 and no entities yet.
pub fn spec_template(key: &str) -> (r: String)
    ensures
        r@ == "key: "@ + key@ + template_body(),
{
    "key: ".to_owned().concat(key).concat(
        "\nseed: 1\nentities:\n  # Define your entities here\n  # Example:\n  # users:\n  #   stream:\n  #     type: object\n  #     properties:\n  #       id:\n  #         type: integer\n  #       name:\n  #         type: string\n",
    )
}

/// The number of characters before the first line feed of `s`; its length
/// where it holds none.
pub open spec fn first_line_len(s: Seq<char>) -> nat
    decreases s.len(),
{
    if s.len() == 0 || s[0] == '\n' {
        0
    } else {
        1 + first_line_len(s.drop_first())
    }
}

/// Whether a line of `content` is `entry`, whitespace around it aside.
pub open spec fn lists(content: Seq<char>, entry: Seq<char>) -> bool
    decreases content.len(),
{
    let n = first_line_len(content) as int;
    ||| trimmed(content.take(n)) == entry
    ||| (n < content.len() && lists(content.skip(n + 1), entry))
}

/// A run of `n` characters without line feed that ends `s` or is followed by
/// a line feed is the first line of `s`.
proof fn lemma_first_line_len_is(s: Seq<char>, n: int)
    requires
        0 <= n <= s.len(),
        forall|i: int| 0 <= i < n ==> s[i] != '\n',
        n < s.len() ==> s[n] == '\n',
    ensures
        first_line_len(s) == n,
    decreases s.len(),
{
    if s.len() > 0 && s[0] != '\n' {
        let rest = s.drop_first();
        lemma_first_line_len_is(rest, n - 1);
    }
}

/// Whether `content` has a line that is `entry`, whitespace around it aside.
pub fn has_line(content: &str, entry: &str) -> (r: bool)
    ensures
        r == lists(content@, entry@),
{
    let chars = chars_of(content);
    let mut start: usize = 0;
    assert(chars@.skip(0) =~= chars@);
    loop
        invariant
            start <= chars.len(),
            chars@ == content@,
            lists(content@, entry@) == lists(chars@.skip(start as int), entry@),
        decreases chars.len() - start,
    {
        let ghost rest = chars@.skip(start as int);
        let mut end: usize = start;
        while end < chars.len() && chars[end] != '\n'
            invariant
                start <= end <= chars.len(),
                forall|k: int| start <= k < end ==> chars@[k] != '\n',
            decreases chars.len() - end,
        {
            end += 1;
        }
        proof {
            lemma_first_line_len_is(rest, end - start);
            assert(rest.take(end - start) =~= chars@.subrange(start as int, end as int));
        }
        let (from, to) = trim_range(&chars, start, end);
        let line = string_of(&chars, from, to);
        if str_eq(line.as_str(), entry) {
            return true;
        }
        if end >= chars.len() {
            return false;
        }
        assert(rest.skip(end - start + 1) =~= chars@.skip(end + 1));
        start = end + 1;
    }
}

/// `content` with a line for `.rngo/simulations` added at its end.
pub open spec fn with_ignored_path(content: Seq<char>) -> Seq<char> {
    if content.len() > 0 && content.last() == '\n' {
        content + ignored_path() + "\n"@
    } else {
        content + "\n"@ + ignored_path() + "\n"@
    }
}

/// What `.gitignore` has to become: `None` where `content` lists
/// `.rngo/simulations` already, and otherwise `content` with that line added,
/// on a line of its own.
pub fn gitignore_update(content: &str) -> (r: Option<String>)
    ensures
        match r {
            None => lists(content@, ignored_path()),
            Some(updated) => !lists(content@, ignored_path()) && updated@ == with_ignored_path(
                content@,
            ),
        },
{
    if has_line(content, ".rngo/simulations") {
        return None;
    }
    let chars = chars_of(content);
    let ends_with_line_feed = chars.len() > 0 && chars[chars.len() - 1] == '\n';
    let mut out = content.to_owned();
    if !ends_with_line_feed {
        out.append("\n");
    }
    out.append(".rngo/simulations");
    out.append("\n");
    Some(out)
}

/// The `.gitignore` of a project that has none yet.
pub fn new_gitignore() -> (r: String)
    ensures
        r@ == ignored_path() + "\n"@,
{
    ".rngo/simulations".to_owned().concat("\n")
}

} // verus!
