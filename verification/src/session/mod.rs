//! Sessions: an agent that runs, what its screen shows, and what is logged of it.
pub mod create;
pub mod ident;
pub mod input;
pub mod opencode;
pub mod pty;
pub mod screen;
pub mod stabilizer;
pub mod state;
pub mod wait;
pub mod watch;

use crate::clock::Clock;
use crate::json::opt_text;
use crate::log::bodies::{body_bytes, encode_body};
use crate::log::record::{is_time, LogMessage, LogView};
use crate::log::writer::LogWriter;
use crate::protocol::Backend;
use crate::session::stabilizer::{Stabilizer, StabilizerView};
use crate::session::state::SessionState;
use crate::terminal::{screen_text, Terminal};
use crate::text::{join, texts};
use vstd::prelude::*;
use vstd::utf8::encode_utf8;

verus! {

/// Metadata written to disk for each session.
#[derive(Debug, Clone)]
pub struct SessionMeta {
    pub id: String,
    pub pid: i32,
    pub cwd: String,
    pub created_at: String,
    pub prompt: String,
}

/// A process on a PTY: its number and the descriptor of the PTY's master side.
#[derive(Debug, Clone, Copy, PartialEq, Eq, Structural)]
pub struct SpawnResult {
    pub pid: i32,
    pub master_fd: i32,
}

/// What is kept in memory of a block: its body is in bodies.bin.
#[derive(Debug, Clone)]
pub struct BlockMeta {
    pub id: u64,
    pub block_type: String,
    pub header: String,
    pub seq: u64,
    pub body_offset: u64,
    pub body_len: u64,
}

/// What is kept of a block.
pub struct MetaView {
    pub id: u64,
    pub block_type: Seq<char>,
    pub header: Seq<char>,
    pub seq: u64,
    pub body_offset: u64,
    pub body_len: u64,
}

impl View for BlockMeta {
    type V = MetaView;

    open spec fn view(&self) -> MetaView {
        MetaView {
            id: self.id,
            block_type: self.block_type@,
            header: self.header@,
            seq: self.seq,
            body_offset: self.body_offset,
            body_len: self.body_len,
        }
    }
}

/// What is kept of the blocks of a sequence.
pub open spec fn meta_views(blocks: Seq<BlockMeta>) -> Seq<MetaView> {
    Seq::new(blocks.len(), |i: int| blocks[i]@)
}

/// A running session. Instants are on the session's clock.
pub struct Session {
    pub id: String,
    pub pid: i32,
    pub master_fd: i32,
    pub cwd: String,
    pub created_at: String,
    pub prompt: String,
    pub backend: Backend,
    /// VT terminal parser
    pub parser: Terminal,
    pub state: SessionState,
    pub clock: Clock,
    pub last_esc_seen: u64,
    pub stabilizer: Stabilizer,
    pub stable_snapshot: Vec<String>,
    pub next_block_id: u64,
    /// In the order of their numbers.
    pub blocks: Vec<BlockMeta>,
    pub log_writer: LogWriter,
    pub next_seq: u64,
    pub read_cursor: u64,
    pub gui_pid: Option<u32>,
    pub exit_code: Option<i32>,
    /// Whether "esc to interrupt" has ever been seen (prevents spurious idle during startup)
    pub has_seen_esc: bool,
    /// Codex's own session UUID (captured from terminal output during graceful kill)
    pub codex_session_id: Option<String>,
    pub kimi_session_id: Option<String>,
    pub opencode_session_id: Option<String>,
    pub opencode_binary: Option<String>,
    pub model: Option<String>,
    /// Whether the first prompt is still to be typed. Until it is, the session does not turn
    /// idle.
    pub awaiting_initial_prompt: bool,
}

/// What changes in a session as it runs. Of a logged message everything but its time is said.
pub struct SessionView {
    pub backend: Backend,
    pub rows: u16,
    pub cols: u16,
    /// The bytes that the terminal was given.
    pub fed: Seq<u8>,
    pub state: SessionState,
    pub last_esc_seen: u64,
    pub has_seen_esc: bool,
    pub awaiting: bool,
    pub stabilizer: StabilizerView,
    pub stable: Seq<Seq<char>>,
    pub next_block_id: u64,
    pub blocks: Seq<MetaView>,
    pub dir: Seq<char>,
    pub logged: Seq<LogView>,
    pub bodies: Seq<u8>,
    pub bodies_len: u64,
    pub next_seq: u64,
    pub read_cursor: u64,
    pub exit_code: Option<i32>,
    pub codex_session_id: Option<Seq<char>>,
    pub kimi_session_id: Option<Seq<char>>,
    pub opencode_session_id: Option<Seq<char>>,
}

/// Whether messages are those of before and some more, each of which has a time.
pub open spec fn grown(before: Seq<LogView>, messages: Seq<LogView>) -> bool {
    &&& before.len() <= messages.len()
    &&& forall|i: int| 0 <= i < before.len() ==> #[trigger] messages[i] == before[i]
    &&& forall|i: int|
        before.len() <= i < messages.len() ==> is_time((#[trigger] messages[i]).ts)
}

/// The messages without their times.
pub open spec fn untimed(messages: Seq<LogView>) -> Seq<LogView> {
    Seq::new(messages.len(), |i: int| messages[i].untimed())
}

impl View for Session {
    type V = SessionView;

    open spec fn view(&self) -> SessionView {
        SessionView {
            backend: self.backend,
            rows: self.parser.rows(),
            cols: self.parser.cols(),
            fed: self.parser.input(),
            state: self.state,
            last_esc_seen: self.last_esc_seen,
            has_seen_esc: self.has_seen_esc,
            awaiting: self.awaiting_initial_prompt,
            stabilizer: self.stabilizer@,
            stable: texts(self.stable_snapshot@),
            next_block_id: self.next_block_id,
            blocks: meta_views(self.blocks@),
            dir: self.log_writer@.dir,
            logged: untimed(self.log_writer@.messages),
            bodies: self.log_writer@.bodies,
            bodies_len: self.log_writer@.bodies_len,
            next_seq: self.next_seq,
            read_cursor: self.read_cursor,
            exit_code: self.exit_code,
            codex_session_id: opt_text(self.codex_session_id),
            kimi_session_id: opt_text(self.kimi_session_id),
            opencode_session_id: opt_text(self.opencode_session_id),
        }
    }
}

/// The low 32 bits of a number of lines.
pub open spec fn low_bits(n: nat) -> u32 {
    (n % 0x1_0000_0000) as u32
}

impl SessionView {
    /// What the screen shows.
    pub open spec fn screen(self) -> Seq<Seq<char>> {
        screen_text(self.rows, self.cols, self.fed)
    }

    /// Whether there are numbers left for `n` more messages and blocks.
    pub open spec fn has_room(self, n: int) -> bool {
        self.next_seq + n <= u64::MAX && self.next_block_id + n <= u64::MAX
    }

    /// The bodies that wait are the last bytes of bodies.bin; the messages that wait are
    /// numbered in a row, up to the number before the next one; and the blocks are in the order
    /// of their numbers, all of them given out already, with their bodies in bodies.bin. No
    /// message was read before it was given its number.
    pub open spec fn wf(self) -> bool {
        &&& self.bodies.len() <= self.bodies_len
        &&& self.numbered()
        &&& self.blocks_in_order()
        &&& self.read_cursor <= self.next_seq
    }

    /// The messages that wait are numbered in a row, up to the number before the next one.
    pub open spec fn numbered(self) -> bool {
        forall|i: int|
            0 <= i < self.logged.len() ==> (#[trigger] self.logged[i]).seq + (self.logged.len() - i)
                == self.next_seq
    }

    /// The blocks are in the order of their numbers, all of them given out already, with their
    /// bodies in bodies.bin.
    pub open spec fn blocks_in_order(self) -> bool {
        &&& forall|i: int, j: int|
            0 <= i < j < self.blocks.len() ==> (#[trigger] self.blocks[i]).id < (
            #[trigger] self.blocks[j]).id
        &&& forall|i: int|
            0 <= i < self.blocks.len() ==> (#[trigger] self.blocks[i]).id < self.next_block_id
                && self.blocks[i].body_offset + self.blocks[i].body_len <= self.bodies_len
    }

    /// After a message was logged.
    pub open spec fn log(self, message: LogView) -> SessionView {
        SessionView {
            logged: self.logged.push(message.untimed()),
            next_seq: (self.next_seq + 1) as u64,
            ..self
        }
    }

    /// After a status was logged.
    pub open spec fn log_status(self, text: Seq<char>) -> SessionView {
        self.log(LogView::status(self.next_seq, seq![], text))
    }

    /// After something that the agent said was logged.
    pub open spec fn log_output(self, text: Seq<char>) -> SessionView {
        self.log(LogView::agent_output(self.next_seq, seq![], text))
    }

    /// After a change of state was logged.
    pub open spec fn log_change(self, from: Seq<char>, to: Seq<char>) -> SessionView {
        self.log(LogView::state_change(self.next_seq, seq![], from, to))
    }

    /// After a block with the number `id` was logged: its body is added to bodies.bin, its place
    /// is in the message, and what is kept of it is kept. Where bodies.bin can hold no more, the
    /// message has no place and nothing is kept.
    pub open spec fn log_block(
        self,
        id: u64,
        block_type: Seq<char>,
        header: Seq<char>,
        body: Seq<Seq<char>>,
    ) -> SessionView {
        let bytes = body_bytes(body);
        let message = LogView::block(
            self.next_seq,
            seq![],
            header,
            id,
            block_type,
            low_bits(body.len()),
        );
        if self.bodies_len + bytes.len() <= u64::MAX {
            let meta = MetaView {
                id,
                block_type,
                header,
                seq: self.next_seq,
                body_offset: self.bodies_len,
                body_len: bytes.len() as u64,
            };
            SessionView {
                blocks: self.blocks.push(meta),
                bodies: self.bodies + bytes,
                bodies_len: (self.bodies_len + bytes.len()) as u64,
                ..self.log(message.with_body(self.bodies_len, bytes.len() as u64))
            }
        } else {
            self.log(message)
        }
    }
}

// ---------------------------------------------------------------------------------------------
// Logging

impl Session {
    /// What stays the same in a session as it runs.
    pub open spec fn same_run(self, other: Session) -> bool {
        &&& self.id == other.id
        &&& self.pid == other.pid
        &&& self.master_fd == other.master_fd
        &&& self.cwd == other.cwd
        &&& self.created_at == other.created_at
        &&& self.prompt == other.prompt
        &&& self.clock == other.clock
        &&& self.gui_pid == other.gui_pid
        &&& self.opencode_binary == other.opencode_binary
        &&& self.model == other.model
    }

    /// What holds of a session that has run on from `before`: what stays the same does, the
    /// messages that waited still wait, and those that came after them have a time.
    pub open spec fn runs_on(self, before: Session) -> bool {
        &&& self.same_run(before)
        &&& grown(before.log_writer@.messages, self.log_writer@.messages)
    }

    /// Logs a message, which has the next number.
    pub(crate) fn log(&mut self, msg: LogMessage)
        requires
            old(self)@.next_seq < u64::MAX,
        ensures
            final(self)@ == old(self)@.log(msg@),
            final(self).log_writer@.messages == old(self).log_writer@.messages.push(msg@),
            final(self).same_run(*old(self)),
    {
        self.log_writer.append_message(msg);
        self.next_seq = self.next_seq + 1;
        proof {
            assert(self@.logged =~= old(self)@.logged.push(msg@.untimed()));
            assert(self@.blocks =~= old(self)@.blocks);
            assert(self@.stable =~= old(self)@.stable);
        }
    }

    /// Logs a status.
    pub fn log_status(&mut self, text: String)
        requires
            old(self)@.next_seq < u64::MAX,
        ensures
            final(self)@ == old(self)@.log_status(text@),
            final(self).runs_on(*old(self)),
    {
        let msg = LogMessage::status(self.next_seq, text);
        proof {
            assert(msg@.untimed() == LogView::status(old(self)@.next_seq, seq![], text@));
        }
        self.log(msg);
    }

    /// Logs something that the agent said.
    pub fn log_output(&mut self, text: String)
        requires
            old(self)@.next_seq < u64::MAX,
        ensures
            final(self)@ == old(self)@.log_output(text@),
            final(self).runs_on(*old(self)),
    {
        let msg = LogMessage::agent_output(self.next_seq, text);
        proof {
            assert(msg@.untimed() == LogView::agent_output(old(self)@.next_seq, seq![], text@));
        }
        self.log(msg);
    }

    /// Logs a change of state.
    pub fn log_change(&mut self, from: &str, to: &str)
        requires
            old(self)@.next_seq < u64::MAX,
        ensures
            final(self)@ == old(self)@.log_change(from@, to@),
            final(self).runs_on(*old(self)),
    {
        let msg = LogMessage::state_change(self.next_seq, from, to);
        proof {
            assert(msg@.untimed() == LogView::state_change(
                old(self)@.next_seq,
                seq![],
                from@,
                to@,
            ));
        }
        self.log(msg);
    }

    /// Streams a block's body to `bodies.bin` and records metadata in memory + the message
    /// log. Body bytes are not retained.
    pub fn log_block(&mut self, id: u64, block_type: &str, header: &str, body: &[String])
        requires
            old(self)@.next_seq < u64::MAX,
            old(self)@.bodies.len() <= old(self)@.bodies_len,
        ensures
            final(self)@ == old(self)@.log_block(id, block_type@, header@, texts(body@)),
            final(self).runs_on(*old(self)),
    {
        let seq: u64 = self.next_seq;
        let bytes = encode_body(body);
        let body_len: u64 = bytes.len() as u64;
        let lines: u32 = (body.len() as u64 % 0x1_0000_0000) as u32;
        let msg = LogMessage::block(seq, header, id, block_type, lines);
        let ghost plain = LogView::block(seq, seq![], header@, id, block_type@, lines);
        proof {
            assert(lines == low_bits(texts(body@).len()));
            assert(msg@.untimed() == plain);
        }
        if body_len <= u64::MAX - self.log_writer.next_offset() {
            let body_offset = self.log_writer.append_body(bytes.as_slice());
            let msg = msg.with_body(body_offset, body_len);
            let meta = BlockMeta {
                id,
                block_type: block_type.to_owned(),
                header: header.to_owned(),
                seq,
                body_offset,
                body_len,
            };
            proof {
                assert(msg@.untimed() == plain.with_body(body_offset, body_len));
                assert(meta_views(self.blocks@.push(meta)) =~= meta_views(self.blocks@).push(
                    meta@,
                ));
            }
            self.blocks.push(meta);
            self.log(msg);
        } else {
            self.log(msg);
        }
    }
}

/// Logging a message with the next number keeps a session well-formed.
pub proof fn lemma_log_wf(s: SessionView, message: LogView)
    requires
        s.wf(),
        s.next_seq < u64::MAX,
        message.seq == s.next_seq,
    ensures
        s.log(message).wf(),
{
    let t = s.log(message);
    assert forall|i: int| 0 <= i < t.logged.len() implies (#[trigger] t.logged[i]).seq + (
    t.logged.len() - i) == t.next_seq by {
        if i < s.logged.len() {
            assert(t.logged[i] == s.logged[i]);
        }
    }
}

/// Logging a block with a number that is given out, and above those of the blocks before, keeps
/// a session well-formed.
pub proof fn lemma_block_wf(
    s: SessionView,
    id: u64,
    block_type: Seq<char>,
    header: Seq<char>,
    body: Seq<Seq<char>>,
)
    requires
        s.wf(),
        s.next_seq < u64::MAX,
        id < s.next_block_id,
        forall|i: int| 0 <= i < s.blocks.len() ==> (#[trigger] s.blocks[i]).id < id,
    ensures
        s.log_block(id, block_type, header, body).wf(),
{
    let bytes = body_bytes(body);
    let message = LogView::block(s.next_seq, seq![], header, id, block_type, low_bits(body.len()));
    let t = s.log_block(id, block_type, header, body);
    if s.bodies_len + bytes.len() <= u64::MAX {
        let m = message.with_body(s.bodies_len, bytes.len() as u64);
        lemma_log_wf(s, m);
        let u = s.log(m);
        assert(t.logged == u.logged);
        assert forall|i: int| 0 <= i < t.logged.len() implies (#[trigger] t.logged[i]).seq + (
        t.logged.len() - i) == t.next_seq by {
            assert(u.logged[i].seq + (u.logged.len() - i) == u.next_seq);
        }
        assert forall|i: int, j: int| 0 <= i < j < t.blocks.len() implies (
        #[trigger] t.blocks[i]).id < (#[trigger] t.blocks[j]).id by {
            if j < s.blocks.len() {
                assert(t.blocks[i] == s.blocks[i] && t.blocks[j] == s.blocks[j]);
            } else {
                assert(t.blocks[i] == s.blocks[i]);
            }
        }
        assert forall|i: int| 0 <= i < t.blocks.len() implies (#[trigger] t.blocks[i]).id
            < t.next_block_id && t.blocks[i].body_offset + t.blocks[i].body_len
            <= t.bodies_len by {
            if i < s.blocks.len() {
                assert(t.blocks[i] == s.blocks[i]);
            }
        }
    } else {
        lemma_log_wf(s, message);
    }
}

/// Being well-formed is about the log, the blocks and what was read alone.
pub proof fn lemma_renamed_wf(s: SessionView, t: SessionView)
    requires
        s.wf(),
        t.logged == s.logged,
        t.next_seq == s.next_seq,
        t.read_cursor == s.read_cursor,
        t.blocks == s.blocks,
        t.next_block_id == s.next_block_id,
        t.bodies == s.bodies,
        t.bodies_len == s.bodies_len,
    ensures
        t.wf(),
{
    assert forall|i: int| 0 <= i < t.logged.len() implies (#[trigger] t.logged[i]).seq + (
    t.logged.len() - i) == t.next_seq by {
        assert(s.logged[i].seq + (s.logged.len() - i) == s.next_seq);
    }
    assert(t.blocks_in_order()) by {
        assert(t.blocks == s.blocks);
    }
}

// ---------------------------------------------------------------------------------------------
// Laws

/// What logging does: one more message waits, behind those that did, with the next number, and
/// the number after that is next. Nothing else changes.
pub proof fn law_a_message_is_logged(s: SessionView, text: Seq<char>, from: Seq<char>, to: Seq<char>)
    requires
        s.next_seq < u64::MAX,
    ensures
        ({
            let blank = LogView {
                seq: s.next_seq,
                ts: seq![],
                msg_type: seq![],
                text: seq![],
                state_from: None,
                state_to: None,
                prompt: None,
                block_id: None,
                block_type: None,
                block_lines: None,
                body_offset: None,
                body_len: None,
            };
            let n = (s.next_seq + 1) as u64;
            &&& s.log_status(text) == (SessionView {
                logged: s.logged.push(LogView { msg_type: "status"@, text, ..blank }),
                next_seq: n,
                ..s
            })
            &&& s.log_output(text) == (SessionView {
                logged: s.logged.push(LogView { msg_type: "agent_output"@, text, ..blank }),
                next_seq: n,
                ..s
            })
            &&& s.log_change(from, to) == (SessionView {
                logged: s.logged.push(
                    LogView {
                        msg_type: "state_change"@,
                        text: from + " → "@ + to,
                        state_from: Some(from),
                        state_to: Some(to),
                        ..blank
                    },
                ),
                next_seq: n,
                ..s
            })
        }),
{
}

/// What logging a block does: a message says its number, its type, its header, how many lines
/// its body has and where that lies; the body's lines, joined by line feeds, are added to the
/// bodies; and the block is kept with the same number, type, header, message and place. Where the
/// bodies can hold no more, only the message is logged, without a place.
pub proof fn law_a_block_is_logged(
    s: SessionView,
    id: u64,
    block_type: Seq<char>,
    header: Seq<char>,
    body: Seq<Seq<char>>,
)
    requires
        s.next_seq < u64::MAX,
        body.len() <= u32::MAX,
    ensures
        ({
            let bytes = encode_utf8(join(body, "\n"@));
            let after = s.log_block(id, block_type, header, body);
            let fits = s.bodies_len + bytes.len() <= u64::MAX;
            let message = LogView {
                seq: s.next_seq,
                ts: seq![],
                msg_type: "block"@,
                text: header,
                state_from: None,
                state_to: None,
                prompt: None,
                block_id: Some(id),
                block_type: Some(block_type),
                block_lines: Some(body.len() as u32),
                body_offset: if fits {
                    Some(s.bodies_len)
                } else {
                    None
                },
                body_len: if fits {
                    Some(bytes.len() as u64)
                } else {
                    None
                },
            };
            &&& after.logged == s.logged.push(message)
            &&& after.next_seq == s.next_seq + 1
            &&& fits ==> after == (SessionView {
                logged: after.logged,
                next_seq: after.next_seq,
                bodies: s.bodies + bytes,
                bodies_len: (s.bodies_len + bytes.len()) as u64,
                blocks: s.blocks.push(
                    MetaView {
                        id,
                        block_type,
                        header,
                        seq: s.next_seq,
                        body_offset: s.bodies_len,
                        body_len: bytes.len() as u64,
                    },
                ),
                ..s
            })
            &&& !fits ==> after == (SessionView {
                logged: after.logged,
                next_seq: after.next_seq,
                ..s
            })
        }),
{
}

} // verus!
