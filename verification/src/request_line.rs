//! Collecting one request line: how long it may get, and when it is complete.

use vstd::prelude::*;

use crate::text;
use crate::text::{push_decimal, same};

verus! {

/// The longest request.
pub const MAX_REQUEST_BYTES: usize = 65536;

/// The longest import, which carries whole playlists.
pub const MAX_IMPORT_REQUEST_BYTES: usize = 4195328;

/// How much is read at a time.
pub const REQUEST_CHUNK_BYTES: usize = 8192;

/// How long a peer has to send its request.
pub const REQUEST_DEADLINE_MS: u64 = 10000;

/// `playlist.import`, which tells an import before the request is parsed.
pub open spec fn import_marker() -> Seq<u8> {
    seq![112u8, 108, 97, 121, 108, 105, 115, 116, 46, 105, 109, 112, 111, 114, 116]
}

/// `marker` stands at position `at`.
pub open spec fn bytes_at(bytes: Seq<u8>, marker: Seq<u8>, at: int) -> bool {
    0 <= at && at + marker.len() <= bytes.len() && bytes.subrange(at, at + marker.len()) == marker
}

/// `marker` stands somewhere.
pub open spec fn has_bytes(bytes: Seq<u8>, marker: Seq<u8>) -> bool {
    exists|at: int| bytes_at(bytes, marker, at)
}

/// The line feed.
pub const NEWLINE: u8 = 10;

pub open spec fn has_newline(bytes: Seq<u8>) -> bool {
    bytes.contains(NEWLINE)
}

/// What a request that is too long is answered.
pub open spec fn too_long(max: usize) -> Seq<char> {
    "request exceeded "@ + text::decimal(max as nat) + " bytes"@
}

fn too_long_error(max: usize) -> (error: String)
    ensures
        error@ == too_long(max),
{
    let mut error = "request exceeded ".to_owned();
    push_decimal(&mut error, max as u128);
    error.append(" bytes");
    error
}

fn import_marker_bytes() -> (marker: Vec<u8>)
    ensures
        marker@ == import_marker(),
{
    let mut marker: Vec<u8> = Vec::new();
    marker.push(112);
    marker.push(108);
    marker.push(97);
    marker.push(121);
    marker.push(108);
    marker.push(105);
    marker.push(115);
    marker.push(116);
    marker.push(46);
    marker.push(105);
    marker.push(109);
    marker.push(112);
    marker.push(111);
    marker.push(114);
    marker.push(116);
    assert(marker@ =~= import_marker());
    marker
}

/// Whether `marker` stands at `at`.
fn matches_at(bytes: &Vec<u8>, marker: &Vec<u8>, at: usize) -> (found: bool)
    requires
        at + marker@.len() <= bytes@.len(),
    ensures
        found == bytes_at(bytes@, marker@, at as int),
{
    let mut i: usize = 0;
    while i < marker.len()
        invariant
            i <= marker@.len(),
            at + marker.len() <= bytes.len(),
            forall|k: int| 0 <= k < i ==> bytes@[at + k] == #[trigger] marker@[k],
        decreases marker.len() - i,
    {
        if bytes[at + i] != marker[i] {
            assert(bytes@.subrange(at as int, at + marker@.len())[i as int] != marker@[i as int]);
            return false;
        }
        i = i + 1;
    }
    assert(bytes@.subrange(at as int, at + marker@.len()) =~= marker@);
    true
}

/// Whether `marker` stands at or after `from`.
fn found_from(bytes: &Vec<u8>, marker: &Vec<u8>, from: usize) -> (found: bool)
    requires
        marker@.len() > 0,
    ensures
        found == exists|at: int| from <= at && bytes_at(bytes@, marker@, at),
{
    if bytes.len() < marker.len() {
        return false;
    }
    let last: usize = bytes.len() - marker.len();
    let mut at: usize = from;
    while at <= last
        invariant
            from <= at,
            last + marker.len() == bytes.len(),
            marker@.len() > 0,
            forall|k: int| from <= k < at ==> !#[trigger] bytes_at(bytes@, marker@, k),
        decreases last + 1 - at,
    {
        if matches_at(bytes, marker, at) {
            return true;
        }
        at = at + 1;
    }
    false
}

/// What reading came to.
#[derive(Debug, Clone, Copy, PartialEq, Eq, Structural)]
pub enum LineStep {
    /// The line is complete.
    Complete,
    /// The peer took too long.
    Expired,
    /// More is to be read.
    Read,
}

/// A request line that is being collected.
pub struct RequestLine {
    line: Vec<u8>,
    saw_import_marker: bool,
}

impl View for RequestLine {
    type V = Seq<u8>;

    closed spec fn view(&self) -> Seq<u8> {
        self.line@
    }
}

impl RequestLine {
    /// The mark of an import is known to be there or not, however the line
    /// came in.
    pub closed spec fn wf(&self) -> bool {
        self.saw_import_marker == has_bytes(self.line@, import_marker())
    }

    pub fn new() -> (line: Self)
        ensures
            line.wf(),
            line@ == Seq::<u8>::empty(),
    {
        let line = RequestLine { line: Vec::new(), saw_import_marker: false };
        assert(line.line@ =~= Seq::<u8>::empty());
        line
    }

    /// Whether to read on. A complete line counts even past the deadline.
    pub fn poll(&self, now: u64, deadline: u64) -> (step: LineStep)
        ensures
            step == (if has_newline(self@) {
                LineStep::Complete
            } else if now >= deadline {
                LineStep::Expired
            } else {
                LineStep::Read
            }),
    {
        if self.has_line_feed() {
            LineStep::Complete
        } else if now >= deadline {
            LineStep::Expired
        } else {
            LineStep::Read
        }
    }

    fn has_line_feed(&self) -> (found: bool)
        ensures
            found == has_newline(self@),
    {
        let mut i: usize = 0;
        while i < self.line.len()
            invariant
                i <= self.line@.len(),
                forall|k: int| 0 <= k < i ==> #[trigger] self.line@[k] != NEWLINE,
            decreases self.line.len() - i,
        {
            if self.line[i] == NEWLINE {
                assert(self.line@[i as int] == NEWLINE);
                return true;
            }
            i = i + 1;
        }
        false
    }

    /// Takes what was read. A line is given up as soon as it is longer than any
    /// request may be, or longer than an ordinary one while nothing in it says
    /// that it is an import. Only what is new is searched, with what a mark
    /// across the seam needs.
    pub fn took(&mut self, chunk: &[u8]) -> (taken: Result<(), String>)
        requires
            old(self).wf(),
            old(self)@.len() <= MAX_IMPORT_REQUEST_BYTES,
            chunk@.len() <= REQUEST_CHUNK_BYTES,
        ensures
            final(self).wf(),
            final(self)@ == old(self)@ + chunk@,
            match taken {
                Ok(_) => final(self)@.len() <= MAX_IMPORT_REQUEST_BYTES && (final(self)@.len()
                    <= MAX_REQUEST_BYTES || has_bytes(final(self)@, import_marker())),
                Err(error) => if final(self)@.len() > MAX_IMPORT_REQUEST_BYTES {
                    error@ == too_long(MAX_IMPORT_REQUEST_BYTES)
                } else {
                    &&& final(self)@.len() > MAX_REQUEST_BYTES
                    &&& !has_bytes(final(self)@, import_marker())
                    &&& error@ == too_long(MAX_REQUEST_BYTES)
                },
            },
    {
        let marker = import_marker_bytes();
        let before_len: usize = self.line.len();
        let scan_start: usize = before_len.saturating_sub(marker.len() - 1);
        let ghost before = self.line@;
        let mut i: usize = 0;
        while i < chunk.len()
            invariant
                i <= chunk@.len(),
                self.line@ == before + chunk@.take(i as int),
                self.saw_import_marker == old(self).saw_import_marker,
            decreases chunk.len() - i,
        {
            self.line.push(chunk[i]);
            assert(before + chunk@.take(i + 1) =~= (before + chunk@.take(i as int)).push(
                chunk@[i as int],
            ));
            i = i + 1;
        }
        assert(chunk@.take(chunk@.len() as int) =~= chunk@);
        let ghost now = self.line@;
        proof {
            let wanted = import_marker();
            assert forall|at: int| 0 <= at && at + wanted.len() <= before.len() implies bytes_at(
                before,
                wanted,
                at,
            ) == #[trigger] bytes_at(now, wanted, at) by {
                assert(before.subrange(at, at + wanted.len()) =~= now.subrange(
                    at,
                    at + wanted.len(),
                ));
            }
            if has_bytes(before, wanted) {
                let at = choose|at: int| bytes_at(before, wanted, at);
                assert(bytes_at(now, wanted, at));
            }
            if has_bytes(now, wanted) && !has_bytes(before, wanted) {
                let at = choose|at: int| bytes_at(now, wanted, at);
                if at + wanted.len() <= before.len() {
                    assert(bytes_at(before, wanted, at));
                }
                assert(scan_start <= at);
            }
        }
        if !self.saw_import_marker {
            self.saw_import_marker = found_from(&self.line, &marker, scan_start);
        }
        if self.line.len() > MAX_IMPORT_REQUEST_BYTES {
            return Err(too_long_error(MAX_IMPORT_REQUEST_BYTES));
        }
        if self.line.len() > MAX_REQUEST_BYTES && !self.saw_import_marker {
            return Err(too_long_error(MAX_REQUEST_BYTES));
        }
        Ok(())
    }

    /// Ends the reading: the line, if there is a whole one.
    pub fn finish(self, expired: bool) -> (line: Result<Vec<u8>, String>)
        ensures
            match line {
                Ok(bytes) => bytes@ == self@ && has_newline(self@) && !expired,
                Err(error) => if expired {
                    error@ == "request deadline exceeded"@
                } else {
                    !has_newline(self@) && error@ == "request ended without a newline"@
                },
            },
    {
        if expired {
            return Err("request deadline exceeded".to_owned());
        }
        if !self.has_line_feed() {
            return Err("request ended without a newline".to_owned());
        }
        Ok(self.line)
    }
}

/// A parsed request that is longer than an ordinary one has to be an import.
/// The mark in the line was only a hint.
pub fn check_request_size(bytes: usize, method: &str) -> (checked: Result<(), String>)
    ensures
        match checked {
            Ok(_) => bytes <= MAX_REQUEST_BYTES || method@ == "playlist.import"@,
            Err(error) => bytes > MAX_REQUEST_BYTES && method@ != "playlist.import"@ && error@
                == too_long(MAX_REQUEST_BYTES),
        },
{
    if bytes > MAX_REQUEST_BYTES && !same(method, "playlist.import") {
        Err(too_long_error(MAX_REQUEST_BYTES))
    } else {
        Ok(())
    }
}

} // verus!
