//! Output capture sink: the per-session pair of append-only text streams
//! that guest-invoked logging and console calls write to.
//!
//! Each write appends one line (the text followed by a newline) to the named
//! stream, so the captured stream always holds the lines in call order.
//! A snapshot returns the current contents without clearing them. The sink
//! belongs to exactly one execution session; callers that share it across
//! threads serialize the appends, so the per-append contract here is the
//! whole story of the stream's contents.

use vstd::prelude::*;
use vstd::utf8::valid_utf8;
use vstd::utf8::decode_utf8;
use crate::text;

verus! {

/// The capture buffers for one execution session: a stdout-equivalent and a
/// stderr-equivalent stream, each a raw UTF-8 byte stream.
pub struct OutputBuffers {
    /// Captured stdout-equivalent stream.
    pub stdout: Vec<u8>,
    /// Captured stderr-equivalent stream.
    pub stderr: Vec<u8>,
}

/// Which of the two captured streams a write goes to.
pub enum StreamKind {
    Stdout,
    Stderr,
}

/// One captured line: the text followed by a newline byte.
pub open spec fn rendered_line(text: Seq<u8>) -> Seq<u8> {
    text.push(0x0a)
}

/// The stream contents after the given lines are written in order onto
/// `start`.
pub open spec fn stream_after(start: Seq<u8>, lines: Seq<Seq<u8>>) -> Seq<u8>
    decreases lines.len(),
{
    if lines.len() == 0 {
        start
    } else {
        stream_after(start + rendered_line(lines[0]), lines.drop_first())
    }
}

impl OutputBuffers {
    /// A fresh, empty sink for a new session.
    pub fn new() -> (r: OutputBuffers)
        ensures
            r.stdout@ == Seq::<u8>::empty(),
            r.stderr@ == Seq::<u8>::empty(),
    {
        OutputBuffers { stdout: Vec::new(), stderr: Vec::new() }
    }

    /// Appends `text` and a newline to the chosen stream; the other stream
    /// is untouched. Append order therefore equals call order.
    pub fn write(&mut self, kind: StreamKind, text: &Vec<u8>)
        ensures
            match kind {
                StreamKind::Stdout => final(self).stdout@ == old(self).stdout@ + rendered_line(
                    text@,
                ) && final(self).stderr@ == old(self).stderr@,
                StreamKind::Stderr => final(self).stderr@ == old(self).stderr@ + rendered_line(
                    text@,
                ) && final(self).stdout@ == old(self).stdout@,
            },
    {
        match kind {
            StreamKind::Stdout => {
                self.stdout.extend_from_slice(text.as_slice());
                self.stdout.push(0x0a);
                proof {
                    assert(self.stdout@ =~= old(self).stdout@ + rendered_line(text@));
                }
            },
            StreamKind::Stderr => {
                self.stderr.extend_from_slice(text.as_slice());
                self.stderr.push(0x0a);
                proof {
                    assert(self.stderr@ =~= old(self).stderr@ + rendered_line(text@));
                }
            },
        }
    }

    /// The current contents of the chosen stream, without clearing them.
    pub fn snapshot(&self, kind: StreamKind) -> (r: Vec<u8>)
        ensures
            r@ == match kind {
                StreamKind::Stdout => self.stdout@,
                StreamKind::Stderr => self.stderr@,
            },
    {
        match kind {
            StreamKind::Stdout => self.stdout.clone(),
            StreamKind::Stderr => self.stderr.clone(),
        }
    }

    /// A snapshot as an owned string, for streams that hold valid UTF-8
    /// (which every stream built from validated writes does).
    pub fn snapshot_string(&self, kind: StreamKind) -> (r: Option<String>)
        ensures
            match kind {
                StreamKind::Stdout => {
                    &&& r is Some <==> valid_utf8(self.stdout@)
                    &&& r matches Some(s) ==> s@ == decode_utf8(self.stdout@)
                },
                StreamKind::Stderr => {
                    &&& r is Some <==> valid_utf8(self.stderr@)
                    &&& r matches Some(s) ==> s@ == decode_utf8(self.stderr@)
                },
            },
    {
        match kind {
            StreamKind::Stdout => text::utf8_to_string(&self.stdout),
            StreamKind::Stderr => text::utf8_to_string(&self.stderr),
        }
    }
}

/// The order law for the capture sink: writing a sequence of lines appends
/// exactly those lines, each newline-terminated, in call order, after the
/// contents that were already there. With [`OutputBuffers::write`]'s
/// contract this pins the captured stream of any session: the lines appear
/// in the order the capability calls were made, whatever their source.
pub proof fn lemma_capture_order(start: Seq<u8>, lines: Seq<Seq<u8>>)
    ensures
        stream_after(start, lines) == start + flat_lines(lines),
    decreases lines.len(),
{
    if lines.len() == 0 {
        assert(flat_lines(lines) =~= Seq::<u8>::empty());
        assert(start + flat_lines(lines) =~= start);
    } else {
        lemma_capture_order(start + rendered_line(lines[0]), lines.drop_first());
        assert(start + rendered_line(lines[0]) + flat_lines(lines.drop_first()) =~= start
            + flat_lines(lines));
    }
}

/// The concatenation of the given lines, each newline-terminated.
pub open spec fn flat_lines(lines: Seq<Seq<u8>>) -> Seq<u8>
    decreases lines.len(),
{
    if lines.len() == 0 {
        Seq::<u8>::empty()
    } else {
        rendered_line(lines[0]) + flat_lines(lines.drop_first())
    }
}

} // verus!
