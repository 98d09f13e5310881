//! Writing a log.
use crate::json::{print_json, DEPTH};
use crate::log::codec::lemma_message_plain;
use crate::log::reader::{
    entries, law_log_grows_at_the_end, lemma_message_line, lemma_one_entry, whole_lines,
};
use crate::log::record::{log_views, LogMessage, LogView};
use crate::paths::{joined, path_join};
use crate::text::lines_of;
use vstd::prelude::*;

verus! {

/// Append-only writer for session log streams.
///
/// `messages.jsonl` holds structured events (small JSON per line). `bodies.bin`
/// is a raw, append-only byte file containing the bodies of all blocks (file
/// contents, command outputs, etc.) concatenated together. Block log entries
/// in messages.jsonl carry `body_offset`/`body_len` so a reader can extract
/// the exact bytes via `pread`. Keeping bodies on disk is what stops
/// `Session.blocks` from holding multi-GB of file contents in RAM.
///
/// Both files are buffered: what was appended waits here until
/// [`LogWriter::flush_all`] hands it out to be written.
pub struct LogWriter {
    dir: String,
    messages: Vec<LogMessage>,
    bodies: Vec<u8>,
    /// Running byte offset into `bodies.bin`. Returned by [`LogWriter::append_body`] as
    /// the offset of the just-written body. Not read back from disk because there is only
    /// one writer.
    bodies_len: u64,
}

/// What a writer holds: where its files are, the messages and the bodies that wait, and the
/// length that bodies.bin has once those are written.
pub struct WriterView {
    pub dir: Seq<char>,
    pub messages: Seq<LogView>,
    pub bodies: Seq<u8>,
    pub bodies_len: u64,
}

impl View for LogWriter {
    type V = WriterView;

    closed spec fn view(&self) -> WriterView {
        WriterView {
            dir: self.dir@,
            messages: log_views(self.messages@),
            bodies: self.bodies@,
            bodies_len: self.bodies_len,
        }
    }
}

impl WriterView {
    /// The bytes that wait are the last ones of bodies.bin.
    pub open spec fn wf(self) -> bool {
        self.bodies.len() <= self.bodies_len
    }

    /// The length that bodies.bin has on disk.
    pub open spec fn on_disk(self) -> int {
        self.bodies_len - self.bodies.len()
    }

    /// One more message waits.
    pub open spec fn with_message(self, message: LogView) -> WriterView {
        WriterView { messages: self.messages.push(message), ..self }
    }

    /// One more body waits.
    pub open spec fn with_body(self, bytes: Seq<u8>) -> WriterView {
        WriterView {
            bodies: self.bodies + bytes,
            bodies_len: (self.bodies_len + bytes.len()) as u64,
            ..self
        }
    }

    /// Nothing waits any more.
    pub open spec fn flushed(self) -> WriterView {
        WriterView { messages: seq![], bodies: seq![], ..self }
    }
}

impl LogWriter {
    /// A writer of the files in `session_dir`, of which bodies.bin has `bodies_len` bytes
    /// already.
    pub fn new(session_dir: &str, bodies_len: u64) -> (r: LogWriter)
        ensures
            r@ == (WriterView { dir: session_dir@, messages: seq![], bodies: seq![], bodies_len }),
            r@.wf(),
    {
        let r = LogWriter {
            dir: session_dir.to_owned(),
            messages: Vec::new(),
            bodies: Vec::new(),
            bodies_len,
        };
        proof {
            assert(r@.messages =~= seq![]);
            assert(r@.bodies =~= seq![]);
        }
        r
    }

    pub fn append_message(&mut self, msg: LogMessage)
        ensures
            final(self)@ == old(self)@.with_message(msg@),
    {
        proof {
            assert(log_views(self.messages@.push(msg)) =~= log_views(self.messages@).push(msg@));
        }
        self.messages.push(msg);
    }

    /// Append a block body to `bodies.bin`. Returns the byte offset where the
    /// body was written; caller persists that in the corresponding
    /// `LogMessage::block` entry.
    pub fn append_body(&mut self, bytes: &[u8]) -> (offset: u64)
        requires
            old(self)@.wf(),
            old(self)@.bodies_len + bytes@.len() <= u64::MAX,
        ensures
            offset == old(self)@.bodies_len,
            final(self)@ == old(self)@.with_body(bytes@),
            final(self)@.wf(),
    {
        let offset = self.bodies_len;
        let mut i: usize = 0;
        let ghost before = self.bodies@;
        let ghost start = self@;
        proof {
            assert(before + bytes@.take(0) =~= before);
        }
        while i < bytes.len()
            invariant
                i <= bytes@.len(),
                self.bodies@ == before + bytes@.take(i as int),
                self@ == (WriterView { bodies: self.bodies@, ..start }),
            decreases bytes@.len() - i,
        {
            self.bodies.push(bytes[i]);
            proof {
                assert(bytes@.take(i + 1) =~= bytes@.take(i as int).push(bytes@[i as int]));
                assert(before + bytes@.take(i + 1) =~= (before + bytes@.take(i as int)).push(
                    bytes@[i as int],
                ));
            }
            i = i + 1;
        }
        self.bodies_len = offset + bytes.len() as u64;
        proof {
            assert(bytes@.take(bytes@.len() as int) =~= bytes@);
        }
        offset
    }

    /// Hands out what waits: the lines to append to `messages.jsonl` and the bytes to append to
    /// `bodies.bin`. Read as a log, the lines hold just the messages that waited.
    pub fn flush_all(&mut self) -> (r: (String, Vec<u8>))
        ensures
            final(self)@ == old(self)@.flushed(),
            old(self)@.wf() ==> final(self)@.wf(),
            entries(r.0@) == Some(old(self)@.messages),
            whole_lines(r.0@),
            r.1@ == old(self)@.bodies,
    {
        let ghost all = self@.messages;
        let mut text = String::new();
        let mut i: usize = 0;
        proof {
            assert(lines_of(text@) =~= seq![]);
            assert(all.take(0) =~= seq![]);
        }
        while i < self.messages.len()
            invariant
                i <= self.messages@.len(),
                all == log_views(self.messages@),
                *self == *old(self),
                entries(text@) == Some(all.take(i as int)),
                whole_lines(text@),
            decreases self.messages@.len() - i,
        {
            let json = self.messages[i].to_json();
            let line = print_json(&json);
            let ghost before = text@;
            text.append(line.as_str());
            text.push('\n');
            proof {
                let message = all[i as int];
                lemma_message_plain(message, DEPTH as nat);
                lemma_message_line(line@, message);
                lemma_one_entry(line@, message);
                law_log_grows_at_the_end(before, line@.push('\n'));
                assert(before + line@.push('\n') =~= text@);
                assert(all.take(i + 1) =~= all.take(i as int) + seq![message]);
            }
            i = i + 1;
        }
        proof {
            assert(all.take(all.len() as int) =~= all);
        }
        let mut bodies: Vec<u8> = Vec::new();
        bodies.append(&mut self.bodies);
        self.messages = Vec::new();
        proof {
            assert(bodies@ =~= old(self)@.bodies);
            assert(self@.messages =~= seq![]);
            assert(self@.bodies =~= seq![]);
        }
        (text, bodies)
    }

    /// The length that bodies.bin has once all that waits is written.
    pub fn next_offset(&self) -> (r: u64)
        ensures
            r == self@.bodies_len,
    {
        self.bodies_len
    }

    /// Where the messages are.
    pub fn messages_path(&self) -> (r: String)
        ensures
            r@ == joined(self@.dir, "messages.jsonl"@),
    {
        path_join(self.dir.as_str(), "messages.jsonl")
    }

    /// Where the bodies are.
    pub fn bodies_path(&self) -> (r: String)
        ensures
            r@ == joined(self@.dir, "bodies.bin"@),
    {
        path_join(self.dir.as_str(), "bodies.bin")
    }
}

// ---------------------------------------------------------------------------------------------
// Laws

/// A body is found again at the place that was recorded for it, whatever is written after it:
/// `file` is bodies.bin as it is on disk when the body is appended, and `later` are the bytes
/// that are appended after it.
pub proof fn law_body_is_found(writer: WriterView, file: Seq<u8>, body: Seq<u8>, later: Seq<u8>)
    requires
        writer.wf(),
        file.len() == writer.on_disk(),
        writer.bodies_len + body.len() <= u64::MAX,
    ensures
        ({
            let offset = writer.bodies_len as int;
            let written = file + writer.with_body(body).bodies + later;
            &&& offset + body.len() <= written.len()
            &&& written.subrange(offset, offset + body.len()) == body
        }),
{
    let offset = writer.bodies_len as int;
    let written = file + writer.with_body(body).bodies + later;
    assert(written.subrange(offset, offset + body.len()) =~= body);
}

/// Writing what waits leaves bodies.bin as long as it was taken to be, so the next offset is
/// right.
pub proof fn law_flush_keeps_offsets(writer: WriterView, file: Seq<u8>)
    requires
        writer.wf(),
        file.len() == writer.on_disk(),
    ensures
        (file + writer.bodies).len() == writer.flushed().on_disk(),
        writer.flushed().bodies_len == writer.bodies_len,
{
}

/// Messages wait in the order in which they were appended, and bodies behind each other. A flush
/// hands all of them out.
pub proof fn law_what_waits(writer: WriterView, message: LogView, bytes: Seq<u8>)
    requires
        writer.bodies_len + bytes.len() <= u64::MAX,
    ensures
        writer.with_message(message).messages == writer.messages.push(message),
        writer.with_message(message).bodies == writer.bodies,
        writer.with_message(message).bodies_len == writer.bodies_len,
        writer.with_body(bytes).bodies == writer.bodies + bytes,
        writer.with_body(bytes).bodies_len == writer.bodies_len + bytes.len(),
        writer.with_body(bytes).messages == writer.messages,
        writer.flushed().messages.len() == 0,
        writer.flushed().bodies.len() == 0,
        writer.flushed().bodies_len == writer.bodies_len,
        writer.flushed().dir == writer.dir,
{
}

/// Where the files of a log are.
pub proof fn law_where_a_log_is(writer: &LogWriter, messages: String, bodies: String)
    requires
        call_ensures(LogWriter::messages_path, (writer,), messages),
        call_ensures(LogWriter::bodies_path, (writer,), bodies),
    ensures
        messages@ == joined(writer@.dir, "messages.jsonl"@),
        bodies@ == joined(writer@.dir, "bodies.bin"@),
{
}

} // verus!
