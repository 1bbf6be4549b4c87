//! Reassembly of newline-delimited records from the chunks of a byte stream.
//!
//! A body is cut into chunks at arbitrary places, also in the middle of a
//! line or of a multi-byte character. The newline byte never occurs inside a
//! multi-byte UTF-8 character, so lines are framed on bytes and only complete
//! lines are turned into text.

use crate::util::text::{from_utf8_lossy, trim, trimmed, utf8_lossy};
use vstd::prelude::*;
use vstd::utf8::{decode_utf8, valid_utf8};

verus! {

/// The byte that terminates a line.
pub const NEWLINE: u8 = 0x0A;

/// The number of bytes before the first newline of `bytes`; its length where it
/// holds no newline.
pub open spec fn line_end(bytes: Seq<u8>) -> nat
    decreases bytes.len(),
{
    if bytes.len() == 0 || bytes[0] == NEWLINE {
        0
    } else {
        1 + line_end(bytes.drop_first())
    }
}

/// The complete lines of `bytes`, each without its terminating newline.
pub open spec fn complete_lines(bytes: Seq<u8>) -> Seq<Seq<u8>>
    decreases bytes.len(),
{
    let n = line_end(bytes) as int;
    if n >= bytes.len() {
        Seq::empty()
    } else {
        seq![bytes.take(n)] + complete_lines(bytes.skip(n + 1))
    }
}

/// What follows the last newline of `bytes`: the beginning of a line that is
/// not complete yet.
pub open spec fn partial_line(bytes: Seq<u8>) -> Seq<u8>
    decreases bytes.len(),
{
    let n = line_end(bytes) as int;
    if n >= bytes.len() {
        bytes
    } else {
        partial_line(bytes.skip(n + 1))
    }
}

/// `lines`, each followed by a newline, one after the other.
pub open spec fn terminated(lines: Seq<Seq<u8>>) -> Seq<u8>
    decreases lines.len(),
{
    if lines.len() == 0 {
        Seq::empty()
    } else {
        lines[0].push(NEWLINE) + terminated(lines.drop_first())
    }
}

/// `line_end` stops at the first newline and nowhere before it.
pub proof fn lemma_line_end(bytes: Seq<u8>)
    ensures
        line_end(bytes) <= bytes.len(),
        line_end(bytes) < bytes.len() ==> bytes[line_end(bytes) as int] == NEWLINE,
        forall|i: int| 0 <= i < line_end(bytes) ==> bytes[i] != NEWLINE,
    decreases bytes.len(),
{
    if bytes.len() == 0 || bytes[0] == NEWLINE {
    } else {
        let rest = bytes.drop_first();
        lemma_line_end(rest);
        assert forall|i: int| 0 <= i < line_end(bytes) implies bytes[i] != NEWLINE by {
            if i > 0 {
                assert(bytes[i] == rest[i - 1]);
            }
        }
    }
}

/// A position that holds the first newline is where `line_end` stops.
proof fn lemma_line_end_is(bytes: Seq<u8>, n: int)
    requires
        0 <= n <= bytes.len(),
        forall|i: int| 0 <= i < n ==> bytes[i] != NEWLINE,
        n < bytes.len() ==> bytes[n] == NEWLINE,
    ensures
        line_end(bytes) == n,
{
    lemma_line_end(bytes);
}

/// Framing loses and invents nothing: the complete lines with their
/// newlines, followed by the partial line, are the bytes that were framed;
/// and no newline is left inside a line or in the partial line.
pub proof fn lemma_framing_is_exact(bytes: Seq<u8>)
    ensures
        terminated(complete_lines(bytes)) + partial_line(bytes) == bytes,
        !partial_line(bytes).contains(NEWLINE),
        forall|k: int|
            0 <= k < complete_lines(bytes).len() ==> !(#[trigger] complete_lines(bytes)[k]).contains(
                NEWLINE,
            ),
    decreases bytes.len(),
{
    lemma_line_end(bytes);
    let n = line_end(bytes) as int;
    if n < bytes.len() {
        let rest = bytes.skip(n + 1);
        let lines = complete_lines(bytes);
        lemma_framing_is_exact(rest);
        assert(lines.drop_first() =~= complete_lines(rest));
        assert(terminated(lines) + partial_line(bytes) =~= bytes.take(n).push(NEWLINE) + (
        terminated(complete_lines(rest)) + partial_line(rest)));
    }
}

/// Framing a body in two parts gives what framing it whole gives: the lines of
/// the first part, then the lines of what the first part left over followed by
/// the second part.
pub proof fn lemma_lines_of_concat(a: Seq<u8>, b: Seq<u8>)
    ensures
        complete_lines(a + b) == complete_lines(a) + complete_lines(partial_line(a) + b),
        partial_line(a + b) == partial_line(partial_line(a) + b),
    decreases a.len(),
{
    lemma_line_end(a);
    let n = line_end(a) as int;
    if n >= a.len() {
    } else {
        let rest = a.skip(n + 1);
        lemma_line_end_is(a + b, n);
        assert((a + b).take(n) =~= a.take(n));
        assert((a + b).skip(n + 1) =~= rest + b);
        lemma_lines_of_concat(rest, b);
    }
}

/// The byte sequences that `lines` hold.
pub open spec fn line_views(lines: Seq<Vec<u8>>) -> Seq<Seq<u8>> {
    lines.map_values(|line: Vec<u8>| line@)
}

/// The bytes received since the last newline: the beginning of a line whose end
/// has not arrived yet.
pub struct LineBuffer {
    pending: Vec<u8>,
}

impl View for LineBuffer {
    type V = Seq<u8>;

    closed spec fn view(&self) -> Seq<u8> {
        self.pending@
    }
}

impl LineBuffer {
    /// No newline is ever held back: a line leaves the buffer as soon as it is
    /// complete.
    #[verifier::type_invariant]
    pub closed spec fn holds_no_newline(self) -> bool {
        !self.pending@.contains(NEWLINE)
    }

    /// An empty buffer.
    pub fn new() -> (r: LineBuffer)
        ensures
            r@ == Seq::<u8>::empty(),
    {
        LineBuffer { pending: Vec::new() }
    }

    /// What the invariant says of the bytes held back.
    pub proof fn lemma_holds_no_newline(self)
        requires
            self.holds_no_newline(),
        ensures
            !self@.contains(NEWLINE),
    {
    }

    /// The number of bytes held back.
    pub fn len(&self) -> (n: usize)
        ensures
            n == self@.len(),
    {
        self.pending.len()
    }

    /// Appends `chunk` and takes out every line that it completes, leaving
    /// what follows the last newline for the next chunk.
    pub fn push(&mut self, chunk: &[u8]) -> (lines: Vec<Vec<u8>>)
        ensures
            line_views(lines@) == complete_lines(old(self)@ + chunk@),
            final(self)@ == partial_line(old(self)@ + chunk@),
            !final(self)@.contains(NEWLINE),
    {
        proof {
            use_type_invariant(&*self);
        }
        let ghost body = self@ + chunk@;
        let mut pending: Vec<u8> = Vec::new();
        std::mem::swap(&mut pending, &mut self.pending);
        let mut lines: Vec<Vec<u8>> = Vec::new();
        let mut i: usize = 0;
        assert(chunk@.skip(0) =~= chunk@);
        while i < chunk.len()
            invariant
                i <= chunk.len(),
                !pending@.contains(NEWLINE),
                complete_lines(body) == line_views(lines@) + complete_lines(
                    pending@ + chunk@.skip(i as int),
                ),
                partial_line(body) == partial_line(pending@ + chunk@.skip(i as int)),
            decreases chunk.len() - i,
        {
            let b = chunk[i];
            let ghost held = pending@;
            let ghost rest = chunk@.skip(i as int);
            assert(rest.skip(1) =~= chunk@.skip(i + 1));
            if b == NEWLINE {
                let mut line: Vec<u8> = Vec::new();
                proof {
                    lemma_line_end_is(held + rest, held.len() as int);
                    assert((held + rest).take(held.len() as int) =~= held);
                    assert((held + rest).skip(held.len() as int + 1) =~= rest.skip(1));
                }
                std::mem::swap(&mut line, &mut pending);
                lines.push(line);
            } else {
                proof {
                    assert(held.push(b) + rest.skip(1) =~= held + rest);
                }
                pending.push(b);
            }
            i += 1;
        }
        proof {
            lemma_line_end_is(pending@, pending@.len() as int);
        }
        self.pending = pending;
        lines
    }

    /// Drops what is held back: the partial line of a connection that ended
    /// is not carried over to the next one.
    pub fn clear(&mut self)
        ensures
            final(self)@ == Seq::<u8>::empty(),
    {
        self.pending = Vec::new();
    }
}

/// The chunks one after the other: the body that they were cut from.
pub open spec fn joined(chunks: Seq<Seq<u8>>) -> Seq<u8>
    decreases chunks.len(),
{
    if chunks.len() == 0 {
        Seq::empty()
    } else {
        chunks[0] + joined(chunks.drop_first())
    }
}

/// The lines that come out while `chunks` are pushed, one after the other,
/// into a buffer that holds `pending`.
pub open spec fn lines_of_chunks(pending: Seq<u8>, chunks: Seq<Seq<u8>>) -> Seq<Seq<u8>>
    decreases chunks.len(),
{
    if chunks.len() == 0 {
        Seq::empty()
    } else {
        complete_lines(pending + chunks[0]) + lines_of_chunks(
            partial_line(pending + chunks[0]),
            chunks.drop_first(),
        )
    }
}

/// What the buffer holds after `chunks` were pushed into it.
pub open spec fn pending_after_chunks(pending: Seq<u8>, chunks: Seq<Seq<u8>>) -> Seq<u8>
    decreases chunks.len(),
{
    if chunks.len() == 0 {
        pending
    } else {
        pending_after_chunks(partial_line(pending + chunks[0]), chunks.drop_first())
    }
}

/// Where a body is cut into chunks makes no difference: pushing the chunks
/// one by one hands out the lines of the whole body, and holds back what
/// follows its last newline.
pub proof fn lemma_chunking_is_invisible(pending: Seq<u8>, chunks: Seq<Seq<u8>>)
    requires
        !pending.contains(NEWLINE),
    ensures
        lines_of_chunks(pending, chunks) == complete_lines(pending + joined(chunks)),
        pending_after_chunks(pending, chunks) == partial_line(pending + joined(chunks)),
    decreases chunks.len(),
{
    if chunks.len() == 0 {
        lemma_line_end_is(pending, pending.len() as int);
    } else {
        let first = pending + chunks[0];
        let rest = chunks.drop_first();
        lemma_framing_is_exact(first);
        lemma_chunking_is_invisible(partial_line(first), rest);
        lemma_lines_of_concat(first, joined(rest));
        assert(first + joined(rest) =~= pending + joined(chunks));
    }
}

/// Two ways of cutting one body into chunks hand out the same lines.
pub proof fn lemma_splits_agree(first: Seq<Seq<u8>>, second: Seq<Seq<u8>>)
    requires
        joined(first) == joined(second),
    ensures
        lines_of_chunks(Seq::empty(), first) == lines_of_chunks(Seq::empty(), second),
        pending_after_chunks(Seq::empty(), first) == pending_after_chunks(Seq::empty(), second),
{
    lemma_chunking_is_invisible(Seq::empty(), first);
    lemma_chunking_is_invisible(Seq::empty(), second);
}

/// The characters of a line: the decoding of its bytes where they are
/// well-formed UTF-8, and else their lossy decoding.
pub open spec fn line_text(line: Seq<u8>) -> Seq<char> {
    if valid_utf8(line) {
        decode_utf8(line)
    } else {
        utf8_lossy(line)
    }
}

/// The text of a line's record: the characters of the line without the
/// whitespace around them. For a line of well-formed UTF-8 this is the
/// trimmed decoding of the line.
pub open spec fn record_text(line: Seq<u8>) -> Seq<char> {
    trimmed(line_text(line))
}

/// The records among `lines`: the texts of the lines that are not blank, in
/// order. Each line of well-formed UTF-8 gives its own trimmed decoding.
pub open spec fn records(lines: Seq<Seq<u8>>) -> Seq<Seq<char>>
    decreases lines.len(),
{
    if lines.len() == 0 {
        Seq::empty()
    } else {
        let before = records(lines.drop_last());
        let text = record_text(lines.last());
        if text.len() == 0 {
            before
        } else {
            before.push(text)
        }
    }
}

/// The records of two runs of lines, one after the other, are the records of
/// the first followed by those of the second.
pub proof fn lemma_records_of_concat(a: Seq<Seq<u8>>, b: Seq<Seq<u8>>)
    ensures
        records(a + b) == records(a) + records(b),
    decreases b.len(),
{
    if b.len() == 0 {
    } else {
        lemma_records_of_concat(a, b.drop_last());
        assert((a + b).drop_last() =~= a + b.drop_last());
    }
}

/// The text of one line; `None` for a blank line.
pub fn record_of(line: &[u8]) -> (r: Option<String>)
    ensures
        match r {
            Some(text) => text@ == record_text(line@) && text@.len() > 0,
            None => record_text(line@).len() == 0,
        },
{
    let decoded = from_utf8_lossy(line);
    let text = trim(decoded.as_str());
    if text.as_str().is_empty() {
        None
    } else {
        Some(text)
    }
}

/// The records among `lines`, in order: for every line of well-formed UTF-8
/// that is not blank, the trimmed decoding of the line.
pub fn records_of(lines: &Vec<Vec<u8>>) -> (r: Vec<String>)
    ensures
        crate::util::text::string_views(r@) == records(line_views(lines@)),
{
    let mut out: Vec<String> = Vec::new();
    let mut i: usize = 0;
    let ghost all = line_views(lines@);
    while i < lines.len()
        invariant
            i <= lines.len(),
            all == line_views(lines@),
            crate::util::text::string_views(out@) == records(all.take(i as int)),
        decreases lines.len() - i,
    {
        assert(all.take(i + 1).drop_last() =~= all.take(i as int));
        match record_of(lines[i].as_slice()) {
            Some(text) => {
                out.push(text);
            },
            None => {},
        }
        i += 1;
    }
    assert(all.take(i as int) =~= all);
    out
}

} // verus!
