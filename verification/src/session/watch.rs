//! Following what an agent shows on its screen.
use crate::log::record::{LogMessage, LogView};
use crate::parser::blocks::{
    block_views, blocks_in, blocks_to, detect_blocks, extract_non_block_text, headers, in_block,
    loose_in, loose_to, Block, BlockView,
};
use crate::parser::classifier::{class, classify_line, MsgType};
use crate::protocol::Backend;
use crate::session::screen::{
    compute_diff, conversation, diff, filter_lines, filtered, law_diff_lines,
    law_no_diff_to_itself, strip_ui_chrome, take_snapshot,
};
use crate::session::state::{
    asks, detect_state, detected, DetectedState, DetectedView, SessionState,
};
use crate::session::{lemma_block_wf, lemma_log_wf, lemma_renamed_wf, Session, SessionView};
use crate::terminal::screen_text;
use crate::text::{any_contains, contains, lines_contain, texts};
use vstd::prelude::*;

verus! {

// ---------------------------------------------------------------------------------------------
// The state

impl SessionView {
    /// After a state was detected: if it is a new one, the change is logged, and the question
    /// where there is one.
    pub open spec fn update_state(self, detected: DetectedView) -> SessionView {
        if detected.state == self.state {
            self
        } else {
            let changed = self.log_change(self.state.name(), detected.state.name());
            let asked = match detected.prompt_info {
                Some(info) => if asks(detected.state) {
                    changed.log(LogView::prompt_msg(changed.next_seq, seq![], info))
                } else {
                    changed
                },
                None => changed,
            };
            SessionView { state: detected.state, ..asked }
        }
    }

    /// Whether the screen shows a sign of work.
    pub open spec fn shows_work(lines: Seq<Seq<char>>) -> bool {
        any_contains(lines, "esc to interrupt"@)
    }

    /// After a sign of work was seen at `now`.
    pub open spec fn seen_at_work(self, now: u64) -> SessionView {
        SessionView { last_esc_seen: now, has_seen_esc: true, ..self }
    }

    /// What a tidy screen shows at `now`, but that a session is not taken to be idle before it
    /// was seen at work, nor before its first prompt was typed.
    pub open spec fn judged(self, lines: Seq<Seq<char>>, now: u64) -> DetectedView {
        let shown = detected(lines, self.last_esc_seen, now);
        if shown.state == SessionState::Idle && (!self.has_seen_esc || self.awaiting) {
            DetectedView { state: SessionState::Working, prompt_info: shown.prompt_info }
        } else {
            shown
        }
    }

    /// After a tidy screen was seen at `now`. `active` says that the session was just seen to
    /// do something, whatever the screen shows.
    pub open spec fn observe(self, lines: Seq<Seq<char>>, active: bool, now: u64) -> SessionView {
        let seen = if active || SessionView::shows_work(lines) {
            self.seen_at_work(now)
        } else {
            self
        };
        seen.update_state(seen.judged(lines, now))
    }
}

impl Session {
    /// Takes over a detected state.
    pub fn update_state(&mut self, detected: DetectedState)
        requires
            old(self)@.has_room(2),
        ensures
            final(self)@ == old(self)@.update_state(detected@),
            final(self).runs_on(*old(self)),
    {
        let new_state = detected.state;
        if new_state != self.state {
            let old_state = self.state;
            self.log_change(old_state.as_str(), new_state.as_str());
            if let Some(info) = detected.prompt_info {
                if new_state == SessionState::Prompting || new_state
                    == SessionState::PromptingNotes {
                    let msg = LogMessage::prompt_msg(self.next_seq, info);
                    proof {
                        assert(msg@.untimed() == LogView::prompt_msg(
                            self.next_seq,
                            seq![],
                            info@,
                        ).untimed());
                    }
                    self.log(msg);
                }
            }
            self.state = new_state;
        }
    }

    /// Takes note of what a tidy screen shows at `now`. `active` says that the session was just
    /// seen to do something, whatever the screen shows.
    pub fn observe(&mut self, filtered: &[String], active: bool, now: u64)
        requires
            old(self)@.has_room(2),
        ensures
            final(self)@ == old(self)@.observe(texts(filtered@), active, now),
            final(self).runs_on(*old(self)),
    {
        if active || lines_contain(filtered, "esc to interrupt") {
            self.last_esc_seen = now;
            self.has_seen_esc = true;
        }
        let mut detected = detect_state(filtered, self.last_esc_seen, now);
        // Don't allow idle until we've seen "esc to interrupt" at least once
        if detected.state == SessionState::Idle && (!self.has_seen_esc
            || self.awaiting_initial_prompt) {
            detected.state = SessionState::Working;
        }
        self.update_state(detected);
    }

    /// Get a snapshot of the current screen.
    pub fn screen_lines(&self) -> (r: Vec<String>)
        ensures
            texts(r@) == self@.screen(),
    {
        take_snapshot(&self.parser)
    }

    /// Get the current screen lines (filtered).
    pub fn screen_lines_filtered(&self) -> (r: Vec<String>)
        ensures
            texts(r@) == filtered(self@.screen()),
    {
        filter_lines(self.screen_lines().as_slice())
    }
}

// ---------------------------------------------------------------------------------------------
// What is new on the screen

impl SessionView {
    /// After a block that was found on the screen was logged, under the next number for blocks.
    pub open spec fn log_found(self, block: BlockView) -> SessionView {
        let id = self.next_block_id;
        SessionView { next_block_id: (id + 1) as u64, ..self }.log_block(
            id,
            block.block_type,
            block.header,
            block.body,
        )
    }

    /// After the first `n` blocks were logged.
    pub open spec fn log_blocks(self, blocks: Seq<BlockView>, n: int) -> SessionView
        decreases n,
    {
        if n <= 0 {
            self
        } else {
            self.log_blocks(blocks, n - 1).log_found(blocks[n - 1])
        }
    }

    /// After a line of that type was logged.
    pub open spec fn log_line(self, line: Seq<char>, class: MsgType) -> SessionView {
        if class == MsgType::Status || class == MsgType::Prompt {
            self.log_status(line)
        } else {
            self.log_output(line)
        }
    }

    /// After the first `n` lines were logged.
    pub open spec fn log_lines(
        self,
        lines: Seq<Seq<char>>,
        classes: Seq<MsgType>,
        n: int,
    ) -> SessionView
        decreases n,
    {
        if n <= 0 {
            self
        } else {
            self.log_lines(lines, classes, n - 1).log_line(lines[n - 1], classes[n - 1])
        }
    }

    /// After blocks and lines outside them were logged: the blocks come first.
    pub open spec fn log_news(
        self,
        blocks: Seq<BlockView>,
        lines: Seq<Seq<char>>,
        classes: Seq<MsgType>,
    ) -> SessionView {
        self.log_blocks(blocks, blocks.len() as int).log_lines(
            lines,
            classes,
            lines.len() as int,
        )
    }

    /// After a stable snapshot was taken over: what differs from the one before was logged.
    pub open spec fn commit(self, snapshot: Seq<Seq<char>>) -> SessionView {
        let news = diff(self.stable, snapshot);
        let lines = loose_in(news, headers(news));
        SessionView {
            stable: snapshot,
            ..self.log_news(blocks_in(news, headers(news)), lines, classes(lines))
        }
    }
}

/// The types of the lines.
pub open spec fn classes(lines: Seq<Seq<char>>) -> Seq<MsgType> {
    Seq::new(lines.len(), |i: int| class(lines[i]))
}

/// The types of the lines.
fn classify_lines(lines: &[String]) -> (r: Vec<MsgType>)
    ensures
        r@ == classes(texts(lines@)),
{
    let ghost all = classes(texts(lines@));
    let mut out: Vec<MsgType> = Vec::new();
    let mut i: usize = 0;
    while i < lines.len()
        invariant
            i <= lines@.len(),
            all == classes(texts(lines@)),
            out@ == all.take(i as int),
        decreases lines@.len() - i,
    {
        out.push(classify_line(lines[i].as_str()));
        proof {
            assert(all.take(i + 1) =~= all.take(i as int).push(all[i as int]));
        }
        i = i + 1;
    }
    proof {
        assert(all.take(lines@.len() as int) =~= all);
    }
    out
}

/// What logging leaves as it is.
pub open spec fn same_watch(a: SessionView, b: SessionView) -> bool {
    &&& a.backend == b.backend
    &&& a.rows == b.rows
    &&& a.cols == b.cols
    &&& a.fed == b.fed
    &&& a.state == b.state
    &&& a.last_esc_seen == b.last_esc_seen
    &&& a.has_seen_esc == b.has_seen_esc
    &&& a.awaiting == b.awaiting
    &&& a.stabilizer == b.stabilizer
    &&& a.stable == b.stable
    &&& a.dir == b.dir
    &&& a.read_cursor == b.read_cursor
    &&& a.exit_code == b.exit_code
    &&& a.codex_session_id == b.codex_session_id
    &&& a.kimi_session_id == b.kimi_session_id
    &&& a.opencode_session_id == b.opencode_session_id
}

/// Logging blocks takes one number each, for the message and for the block.
pub proof fn lemma_log_blocks(s: SessionView, blocks: Seq<BlockView>, n: int)
    requires
        0 <= n <= blocks.len(),
        s.has_room(n),
        s.wf(),
    ensures
        s.log_blocks(blocks, n).next_seq == s.next_seq + n,
        s.log_blocks(blocks, n).next_block_id == s.next_block_id + n,
        s.log_blocks(blocks, n).wf(),
        same_watch(s.log_blocks(blocks, n), s),
    decreases n,
{
    if n > 0 {
        lemma_log_blocks(s, blocks, n - 1);
        let t = s.log_blocks(blocks, n - 1);
        let b = blocks[n - 1];
        let u = SessionView { next_block_id: (t.next_block_id + 1) as u64, ..t };
        assert(u.wf()) by {
            assert forall|i: int| 0 <= i < u.blocks.len() implies (#[trigger] u.blocks[i]).id
                < u.next_block_id && u.blocks[i].body_offset + u.blocks[i].body_len
                <= u.bodies_len by {
                assert(u.blocks[i] == t.blocks[i]);
            }
            assert forall|i: int| 0 <= i < u.logged.len() implies (#[trigger] u.logged[i]).seq + (
            u.logged.len() - i) == u.next_seq by {
                assert(t.logged[i].seq + (t.logged.len() - i) == t.next_seq);
            }
        }
        assert forall|i: int| 0 <= i < u.blocks.len() implies (#[trigger] u.blocks[i]).id
            < t.next_block_id by {
            assert(u.blocks[i] == t.blocks[i]);
        }
        lemma_block_wf(u, t.next_block_id, b.block_type, b.header, b.body);
    }
}

/// Logging lines takes one number each.
pub proof fn lemma_log_lines(s: SessionView, lines: Seq<Seq<char>>, classes: Seq<MsgType>, n: int)
    requires
        0 <= n <= lines.len(),
        s.has_room(n),
        s.wf(),
    ensures
        s.log_lines(lines, classes, n).next_seq == s.next_seq + n,
        s.log_lines(lines, classes, n).next_block_id == s.next_block_id,
        s.log_lines(lines, classes, n).wf(),
        same_watch(s.log_lines(lines, classes, n), s),
    decreases n,
{
    if n > 0 {
        lemma_log_lines(s, lines, classes, n - 1);
        let t = s.log_lines(lines, classes, n - 1);
        lemma_log_wf(t, LogView::status(t.next_seq, seq![], lines[n - 1]));
        lemma_log_wf(t, LogView::agent_output(t.next_seq, seq![], lines[n - 1]));
    }
}

/// There are no more blocks and loose lines than lines.
pub proof fn lemma_news_fit(
    lines: Seq<Seq<char>>,
    heads: Seq<Option<(Seq<char>, Seq<char>)>>,
    n: int,
)
    requires
        0 <= n <= lines.len(),
    ensures
        blocks_to(lines, heads, n).len() + loose_to(lines, heads, n).len() <= n,
    decreases n,
{
    if n > 0 {
        lemma_news_fit(lines, heads, n - 1);
        assert(heads[n - 1] is Some ==> in_block(lines, heads, n - 1));
    }
}

impl Session {
    /// Logs the blocks that were found on the screen, each under the next number for blocks.
    pub fn log_blocks(&mut self, blocks: &[Block])
        requires
            old(self)@.has_room(blocks@.len() as int),
            old(self)@.wf(),
        ensures
            final(self)@ == old(self)@.log_blocks(block_views(blocks@), blocks@.len() as int),
            final(self).runs_on(*old(self)),
    {
        let ghost start = self@;
        let ghost all = block_views(blocks@);
        let mut i: usize = 0;
        while i < blocks.len()
            invariant
                i <= blocks@.len(),
                all == block_views(blocks@),
                start.has_room(blocks@.len() as int),
                start.wf(),
                start == old(self)@,
                self@ == start.log_blocks(all, i as int),
                self.runs_on(*old(self)),
            decreases blocks@.len() - i,
        {
            proof {
                lemma_log_blocks(start, all, i as int);
                assert(all[i as int] == blocks@[i as int]@);
            }
            let id = self.next_block_id;
            self.next_block_id = id + 1;
            self.log_block(
                id,
                blocks[i].block_type.as_str(),
                blocks[i].header.as_str(),
                blocks[i].body.as_slice(),
            );
            i = i + 1;
        }
    }

    /// Logs lines outside blocks, each by its type.
    pub fn log_lines(&mut self, lines: &[String], types: &[MsgType])
        requires
            old(self)@.has_room(lines@.len() as int),
            old(self)@.wf(),
            types@.len() == lines@.len(),
        ensures
            final(self)@ == old(self)@.log_lines(texts(lines@), types@, lines@.len() as int),
            final(self).runs_on(*old(self)),
    {
        let ghost start = self@;
        let ghost all = texts(lines@);
        let mut i: usize = 0;
        while i < lines.len()
            invariant
                i <= lines@.len(),
                types@.len() == lines@.len(),
                all == texts(lines@),
                start.has_room(lines@.len() as int),
                start.wf(),
                start == old(self)@,
                self@ == start.log_lines(all, types@, i as int),
                self.runs_on(*old(self)),
            decreases lines@.len() - i,
        {
            proof {
                lemma_log_lines(start, all, types@, i as int);
                assert(all[i as int] == lines@[i as int]@);
            }
            let line = lines[i].clone();
            let class = types[i];
            if class == MsgType::Status || class == MsgType::Prompt {
                self.log_status(line);
            } else {
                self.log_output(line);
            }
            i = i + 1;
        }
    }

    /// Takes over a stable snapshot: logs what differs from the one before.
    pub fn commit(&mut self, new_snapshot: Vec<String>)
        requires
            old(self)@.has_room(new_snapshot@.len() as int),
            old(self)@.wf(),
        ensures
            final(self)@ == old(self)@.commit(texts(new_snapshot@)),
            final(self).runs_on(*old(self)),
    {
        let ghost start = self@;
        let news = compute_diff(self.stable_snapshot.as_slice(), new_snapshot.as_slice());
        let blocks = detect_blocks(news.as_slice());
        let rest = extract_non_block_text(news.as_slice(), blocks.as_slice());
        let types = classify_lines(rest.as_slice());
        proof {
            let n = texts(news@);
            law_diff_lines(start.stable, texts(new_snapshot@));
            assert(n.len() <= new_snapshot@.len());
            lemma_news_fit(n, headers(n), n.len() as int);
            assert(block_views(blocks@).len() == blocks@.len());
            assert(texts(rest@).len() == rest@.len());
            lemma_log_blocks(start, block_views(blocks@), blocks@.len() as int);
        }
        self.log_blocks(blocks.as_slice());
        self.log_lines(rest.as_slice(), types.as_slice());
        self.stable_snapshot = new_snapshot;
    }
}

// ---------------------------------------------------------------------------------------------
// Output, and the passing of time

impl SessionView {
    /// After the terminal was given more bytes.
    pub open spec fn feed(self, data: Seq<u8>) -> SessionView {
        SessionView { fed: self.fed + data, ..self }
    }

    /// After output came at `now`: the state follows the screen at once, and what is conversation
    /// on the screen waits to be stable. Kimi shows no sign of work, so its output is taken for
    /// one.
    pub open spec fn on_pty_data(self, data: Seq<u8>, now: u64) -> SessionView {
        let fed = self.feed(data);
        let lines = filtered(fed.screen());
        let observed = fed.observe(lines, self.backend == Backend::Kimi, now);
        SessionView {
            stabilizer: observed.stabilizer.changed(conversation(lines), now),
            ..observed
        }
    }

    /// After what has been stable for long enough was taken over at `now`.
    pub open spec fn settle(self, now: u64) -> SessionView {
        let settled = SessionView { stabilizer: self.stabilizer.after_commit(now), ..self };
        match self.stabilizer.committed(now) {
            Some(snapshot) => settled.commit(snapshot),
            None => settled,
        }
    }

    /// After a tick at `now`: what has been stable for long enough is taken over, and the state
    /// follows the screen again, so that a silent session turns idle.
    pub open spec fn tick(self, now: u64) -> SessionView {
        let settled = self.settle(now);
        settled.observe(filtered(settled.screen()), false, now)
    }

    /// How many lines wait to be stable.
    pub open spec fn waiting_lines(self) -> int {
        match self.stabilizer.waiting() {
            Some(snapshot) => snapshot.len() as int,
            None => 0,
        }
    }

    /// After the session was found to be dead.
    pub open spec fn mark_dead(self, exit_code: Option<i32>) -> SessionView {
        let dead = SessionView { exit_code, state: SessionState::Dead, ..self };
        dead.log_change("dead"@, "dead"@)
    }
}

/// Observing keeps a session well-formed and takes at most two numbers.
pub proof fn lemma_observe(s: SessionView, lines: Seq<Seq<char>>, active: bool, now: u64)
    requires
        s.has_room(2),
        s.wf(),
    ensures
        s.observe(lines, active, now).wf(),
        s.observe(lines, active, now).next_seq <= s.next_seq + 2,
        s.observe(lines, active, now).next_block_id == s.next_block_id,
        s.observe(lines, active, now).stabilizer == s.stabilizer,
{
    let seen = if active || SessionView::shows_work(lines) {
        s.seen_at_work(now)
    } else {
        s
    };
    lemma_renamed_wf(s, seen);
    let det = seen.judged(lines, now);
    if det.state != seen.state {
        let change = LogView::state_change(
            seen.next_seq,
            seq![],
            seen.state.name(),
            det.state.name(),
        );
        lemma_log_wf(seen, change);
        let changed = seen.log(change);
        if let Some(info) = det.prompt_info {
            lemma_log_wf(changed, LogView::prompt_msg(changed.next_seq, seq![], info));
        }
        let t = seen.update_state(det);
        lemma_renamed_wf(SessionView { state: seen.state, ..t }, t);
    }
}

/// Taking over a snapshot keeps a session well-formed and takes at most one number a line.
pub proof fn lemma_commit(s: SessionView, snapshot: Seq<Seq<char>>)
    requires
        s.has_room(snapshot.len() as int),
        s.wf(),
    ensures
        s.commit(snapshot).wf(),
        s.commit(snapshot).next_seq <= s.next_seq + snapshot.len(),
        s.commit(snapshot).next_block_id <= s.next_block_id + snapshot.len(),
        s.commit(snapshot).stabilizer == s.stabilizer,
{
    let news = diff(s.stable, snapshot);
    let heads = headers(news);
    let blocks = blocks_in(news, heads);
    let lines = loose_in(news, heads);
    law_diff_lines(s.stable, snapshot);
    lemma_news_fit(news, heads, news.len() as int);
    lemma_log_blocks(s, blocks, blocks.len() as int);
    let t = s.log_blocks(blocks, blocks.len() as int);
    lemma_log_lines(t, lines, classes(lines), lines.len() as int);
    let u = t.log_lines(lines, classes(lines), lines.len() as int);
    lemma_renamed_wf(u, s.commit(snapshot));
}

proof fn lemma_settle(s: SessionView, now: u64)
    requires
        s.has_room(s.waiting_lines()),
        s.wf(),
    ensures
        s.settle(now).wf(),
        s.settle(now).next_seq <= s.next_seq + s.waiting_lines(),
        s.settle(now).next_block_id <= s.next_block_id + s.waiting_lines(),
{
    let settled = SessionView { stabilizer: s.stabilizer.after_commit(now), ..s };
    lemma_renamed_wf(s, settled);
    if let Some(snapshot) = s.stabilizer.committed(now) {
        lemma_commit(settled, snapshot);
    }
}

impl Session {
    /// Whether there are numbers left for whatever the next event may log: three messages, and
    /// one for each line that waits to be stable.
    pub fn has_room(&self) -> (b: bool)
        ensures
            b == self@.has_room(self@.waiting_lines() + 3),
    {
        let lines: usize = match self.stabilizer.pending() {
            Some(snapshot) => {
                proof {
                    assert(texts(snapshot@).len() == snapshot@.len());
                }
                snapshot.len()
            },
            None => 0,
        };
        let n: u128 = lines as u128 + 3;
        self.next_seq as u128 + n <= u64::MAX as u128 && self.next_block_id as u128 + n
            <= u64::MAX as u128
    }

    /// Process PTY bytes that came at `now`.
    pub fn on_pty_data_at(&mut self, data: &[u8], now: u64)
        requires
            old(self)@.rows >= 2,
            3 <= old(self)@.cols <= 65_527,
            old(self)@.has_room(2),
            old(self)@.wf(),
        ensures
            final(self)@ == old(self)@.on_pty_data(data@, now),
            final(self)@.wf(),
            final(self).runs_on(*old(self)),
    {
        self.parser.process(data);
        let filtered = self.screen_lines_filtered();
        let active = self.backend == Backend::Kimi;
        let ghost fed = old(self)@.feed(data@);
        let ghost lines = texts(filtered@);
        proof {
            assert(self@ == fed);
            lemma_renamed_wf(old(self)@, fed);
            lemma_observe(fed, lines, active, now);
            lemma_renamed_wf(
                fed.observe(lines, active, now),
                old(self)@.on_pty_data(data@, now),
            );
        }
        // Instant state detection (no debounce)
        self.observe(filtered.as_slice(), active, now);
        // Feed stabilizer for log emission (stripped of UI chrome)
        let content_only = strip_ui_chrome(filtered.as_slice());
        self.stabilizer.on_change_at(content_only, now);
    }

    /// Process incoming PTY bytes.
    pub fn on_pty_data(&mut self, data: &[u8])
        requires
            old(self)@.rows >= 2,
            3 <= old(self)@.cols <= 65_527,
            old(self)@.has_room(2),
            old(self)@.wf(),
        ensures
            exists|now: u64| final(self)@ == #[trigger] old(self)@.on_pty_data(data@, now),
            final(self)@.wf(),
            final(self).runs_on(*old(self)),
    {
        let now = self.clock.now();
        self.on_pty_data_at(data, now);
    }

    /// Try to commit stable content and emit log messages at `now`.
    /// Also re-evaluate state (handles Working→Idle when PTY goes silent).
    pub fn tick_at(&mut self, now: u64)
        requires
            old(self)@.has_room(old(self)@.waiting_lines() + 2),
            old(self)@.wf(),
        ensures
            final(self)@ == old(self)@.tick(now),
            final(self)@.wf(),
            final(self).runs_on(*old(self)),
    {
        let ghost start = self@;
        proof {
            lemma_settle(start, now);
            lemma_renamed_wf(
                start,
                SessionView { stabilizer: start.stabilizer.after_commit(now), ..start },
            );
        }
        let committed = self.stabilizer.try_commit_at(now);
        proof {
            assert(self@ == (SessionView { stabilizer: start.stabilizer.after_commit(now), ..start
            }));
        }
        if let Some(snapshot) = committed {
            self.commit(snapshot);
        }
        proof {
            assert(self@ == start.settle(now));
            lemma_observe(self@, filtered(self@.screen()), false, now);
        }
        // Re-evaluate state on every tick so that Working→Idle
        // transition fires even when the PTY is silent.
        let filtered = self.screen_lines_filtered();
        self.observe(filtered.as_slice(), false, now);
    }

    /// Try to commit stable content and emit log messages.
    /// Also re-evaluate state (handles Working→Idle when PTY goes silent).
    pub fn tick(&mut self)
        requires
            old(self)@.has_room(old(self)@.waiting_lines() + 2),
            old(self)@.wf(),
        ensures
            exists|now: u64| final(self)@ == #[trigger] old(self)@.tick(now),
            final(self)@.wf(),
            final(self).runs_on(*old(self)),
    {
        let now = self.clock.now();
        self.tick_at(now);
    }

    /// Mark session as dead.
    pub fn mark_dead(&mut self, exit_code: Option<i32>)
        requires
            old(self)@.next_seq < u64::MAX,
        ensures
            final(self)@ == old(self)@.mark_dead(exit_code),
            old(self)@.wf() ==> final(self)@.wf(),
            final(self).runs_on(*old(self)),
    {
        let ghost start = self@;
        self.exit_code = exit_code;
        self.state = SessionState::Dead;
        let ghost dead = self@;
        let state = self.state;
        self.log_change(state.as_str(), "dead");
        proof {
            if start.wf() {
                lemma_renamed_wf(start, dead);
                lemma_log_wf(
                    dead,
                    LogView::state_change(dead.next_seq, seq![], "dead"@, "dead"@),
                );
            }
        }
    }
}

// ---------------------------------------------------------------------------------------------
// Laws

/// A session does not turn idle before it was seen at work, however long it is silent, nor
/// while its first prompt is still to be typed.
pub proof fn law_no_idle_before_work(
    s: SessionView,
    lines: Seq<Seq<char>>,
    active: bool,
    now: u64,
)
    requires
        s.state != SessionState::Idle,
        s.awaiting || (!s.has_seen_esc && !active && !SessionView::shows_work(lines)),
    ensures
        s.observe(lines, active, now).state != SessionState::Idle,
{
}

/// Once a session was seen at work, silence for a second makes it idle, unless it asks
/// something.
pub proof fn law_silence_makes_idle(s: SessionView, lines: Seq<Seq<char>>, now: u64)
    requires
        s.has_seen_esc,
        !s.awaiting,
        crate::clock::passed(s.last_esc_seen, now) >= crate::clock::SECOND,
        !SessionView::shows_work(lines),
        !any_contains(lines, "Question "@),
    ensures
        s.observe(lines, false, now).state == SessionState::Idle,
{
}

/// A change of state is in the log, with the state before and the state after; where the state
/// stays, nothing is logged.
pub proof fn law_changes_are_logged(s: SessionView, detected: DetectedView)
    ensures
        s.update_state(detected).state == detected.state,
        detected.state == s.state ==> s.update_state(detected).logged == s.logged,
        detected.state != s.state ==> {
            let after = s.update_state(detected).logged;
            &&& after.len() > s.logged.len()
            &&& after.take(s.logged.len() as int) == s.logged
            &&& after[s.logged.len() as int].state_from == Some(s.state.name())
            &&& after[s.logged.len() as int].state_to == Some(detected.state.name())
        },
{
    if detected.state != s.state {
        let after = s.update_state(detected).logged;
        assert(after.take(s.logged.len() as int) =~= s.logged);
    }
}

/// The messages of a log are numbered in a row, without a gap and without a number given twice.
pub proof fn law_log_is_numbered(s: SessionView, i: int, j: int)
    requires
        s.wf(),
        0 <= i <= j < s.logged.len(),
    ensures
        s.logged[j].seq - s.logged[i].seq == j - i,
        s.logged[j].seq < s.next_seq,
{
    assert(s.logged[i].seq + (s.logged.len() - i) == s.next_seq);
    assert(s.logged[j].seq + (s.logged.len() - j) == s.next_seq);
}

/// A screen that was taken over before is not news again.
pub proof fn law_same_screen_is_no_news(s: SessionView, snapshot: Seq<Seq<char>>)
    requires
        s.stable == snapshot,
    ensures
        s.commit(snapshot) == s,
{
    law_no_diff_to_itself(snapshot);
    let news = diff(s.stable, snapshot);
    assert(blocks_in(news, headers(news)) =~= seq![]);
    assert(loose_in(news, headers(news)) =~= seq![]);
}

/// What a change of state leaves in the log: the change, by the names of both states, and, where
/// the agent now asks something, the question. Nothing else changes but the state. Where the state
/// stays nothing changes at all.
pub proof fn law_what_a_change_leaves(s: SessionView, detected: DetectedView)
    requires
        s.next_seq + 2 <= u64::MAX,
    ensures
        ({
            let after = s.update_state(detected);
            let asking = (detected.state == SessionState::Prompting || detected.state
                == SessionState::PromptingNotes) && detected.prompt_info is Some;
            let changed = s.log_change(s.state.name(), detected.state.name());
            &&& detected.state == s.state ==> after == s
            &&& detected.state != s.state && !asking ==> after == (SessionView {
                state: detected.state,
                ..changed
            })
            &&& detected.state != s.state && asking ==> {
                let info = detected.prompt_info->0;
                &&& after.logged == changed.logged.push(
                    LogView {
                        seq: (s.next_seq + 1) as u64,
                        ts: seq![],
                        msg_type: "prompt"@,
                        text: info.question_text,
                        state_from: None,
                        state_to: None,
                        prompt: Some(info),
                        block_id: None,
                        block_type: None,
                        block_lines: None,
                        body_offset: None,
                        body_len: None,
                    },
                )
                &&& after == (SessionView {
                    state: detected.state,
                    logged: after.logged,
                    next_seq: (s.next_seq + 2) as u64,
                    ..s
                })
            }
        }),
{
}

/// What a session takes its agent to be doing: what the screen shows, but that it is not idle
/// before it was seen at work, nor as long as its first prompt waits. It is seen at work where the
/// screen shows that it can be interrupted, or where any output counts for that.
pub proof fn law_what_a_session_sees(
    s: SessionView,
    lines: Seq<Seq<char>>,
    active: bool,
    now: u64,
)
    requires
        s.next_seq + 2 <= u64::MAX,
    ensures
        ({
            let after = s.observe(lines, active, now);
            let working = active || exists|i: int|
                0 <= i < lines.len() && contains(#[trigger] lines[i], "esc to interrupt"@);
            let last = if working {
                now
            } else {
                s.last_esc_seen
            };
            let seen = working || s.has_seen_esc;
            let shown = detected(lines, last, now).state;
            &&& after.last_esc_seen == last
            &&& after.has_seen_esc == seen
            &&& shown == SessionState::Idle && (!seen || s.awaiting) ==> after.state
                == SessionState::Working
            &&& !(shown == SessionState::Idle && (!seen || s.awaiting)) ==> after.state == shown
            &&& after == (SessionView {
                state: after.state,
                last_esc_seen: after.last_esc_seen,
                has_seen_esc: after.has_seen_esc,
                logged: after.logged,
                next_seq: after.next_seq,
                ..s
            })
            &&& after.state == s.state ==> after.logged == s.logged
        }),
{
}

/// What is logged of a screen that has become stable: of what is new on it the blocks, in order,
/// and then the lines outside them, in order, and of these a status or a question as a status and
/// the others as what the agent says. The screen is then the one that later ones are compared to.
pub proof fn law_what_is_logged_of_a_screen(s: SessionView, snapshot: Seq<Seq<char>>)
    requires
        s.has_room(snapshot.len() as int),
        s.wf(),
    ensures
        ({
            let after = s.commit(snapshot);
            let news = diff(s.stable, snapshot);
            let blocks = blocks_in(news, headers(news));
            let lines = loose_in(news, headers(news));
            let b = blocks.len() as int;
            let n = s.logged.len() as int;
            &&& after.stable == snapshot
            &&& after.state == s.state
            &&& after.logged.len() == n + b + lines.len()
            &&& after.logged.take(n) == s.logged
            &&& after.next_block_id == s.next_block_id + b
            &&& forall|k: int|
                0 <= k < b ==> {
                    let m = #[trigger] after.logged[n + k];
                    &&& m.msg_type == "block"@
                    &&& m.text == blocks[k].header
                    &&& m.block_type == Some(blocks[k].block_type)
                    &&& m.block_id == Some((s.next_block_id + k) as u64)
                }
            &&& forall|k: int|
                0 <= k < lines.len() ==> {
                    let m = #[trigger] after.logged[n + b + k];
                    &&& m.text == lines[k]
                    &&& m.msg_type == (if class(lines[k]) == MsgType::Status || class(lines[k])
                        == MsgType::Prompt {
                        "status"@
                    } else {
                        "agent_output"@
                    })
                }
        }),
{
    let news = diff(s.stable, snapshot);
    let heads = headers(news);
    let blocks = blocks_in(news, heads);
    let lines = loose_in(news, heads);
    lemma_news_fit(news, heads, news.len() as int);
    law_diff_lines(s.stable, snapshot);
    let b = blocks.len() as int;
    lemma_logged_blocks(s, blocks, b);
    let t = s.log_blocks(blocks, b);
    lemma_log_blocks(s, blocks, b);
    lemma_logged_lines(t, lines, classes(lines), lines.len() as int);
    lemma_log_lines(t, lines, classes(lines), lines.len() as int);
    let after = s.commit(snapshot);
    let n = s.logged.len() as int;
    assert(after.logged.take(n) =~= s.logged) by {
        assert forall|i: int| 0 <= i < n implies after.logged[i] == s.logged[i] by {
            assert(t.logged.take(n)[i] == t.logged[i]);
            assert(after.logged.take(t.logged.len() as int)[i] == after.logged[i]);
        }
    }
    assert forall|k: int| 0 <= k < b implies ({
        let m = #[trigger] after.logged[n + k];
        &&& m.msg_type == "block"@
        &&& m.text == blocks[k].header
        &&& m.block_type == Some(blocks[k].block_type)
        &&& m.block_id == Some((s.next_block_id + k) as u64)
    }) by {
        assert(after.logged.take(t.logged.len() as int)[n + k] == after.logged[n + k]);
        assert(t.logged[n + k].msg_type == "block"@);
    }
    assert forall|k: int| 0 <= k < lines.len() implies ({
        let m = #[trigger] after.logged[n + b + k];
        &&& m.text == lines[k]
        &&& m.msg_type == (if class(lines[k]) == MsgType::Status || class(lines[k])
            == MsgType::Prompt {
            "status"@
        } else {
            "agent_output"@
        })
    }) by {
        assert(after.logged[t.logged.len() + k].text == lines[k]);
        assert(classes(lines)[k] == class(lines[k]));
    }
}

proof fn lemma_logged_blocks(s: SessionView, blocks: Seq<BlockView>, n: int)
    requires
        0 <= n <= blocks.len(),
        s.has_room(n),
        s.wf(),
    ensures
        s.log_blocks(blocks, n).logged.len() == s.logged.len() + n,
        s.log_blocks(blocks, n).logged.take(s.logged.len() as int) == s.logged,
        forall|k: int|
            0 <= k < n ==> {
                let m = #[trigger] s.log_blocks(blocks, n).logged[s.logged.len() + k];
                &&& m.msg_type == "block"@
                &&& m.text == blocks[k].header
                &&& m.block_type == Some(blocks[k].block_type)
                &&& m.block_id == Some((s.next_block_id + k) as u64)
            },
    decreases n,
{
    let len = s.logged.len() as int;
    if n > 0 {
        lemma_logged_blocks(s, blocks, n - 1);
        lemma_log_blocks(s, blocks, n - 1);
        let before = s.log_blocks(blocks, n - 1);
        let after = s.log_blocks(blocks, n);
        assert(after.logged.len() == before.logged.len() + 1);
        assert forall|i: int| 0 <= i < before.logged.len() implies after.logged[i]
            == before.logged[i] by {}
        assert(after.logged.take(len) =~= before.logged.take(len));
        assert forall|k: int| 0 <= k < n implies ({
            let m = #[trigger] after.logged[len + k];
            &&& m.msg_type == "block"@
            &&& m.text == blocks[k].header
            &&& m.block_type == Some(blocks[k].block_type)
            &&& m.block_id == Some((s.next_block_id + k) as u64)
        }) by {
            if k < n - 1 {
                assert(before.logged[len + k].msg_type == "block"@);
            }
        }
    } else {
        assert(s.logged.take(len) =~= s.logged);
    }
}

proof fn lemma_logged_lines(
    s: SessionView,
    lines: Seq<Seq<char>>,
    classes: Seq<MsgType>,
    n: int,
)
    requires
        0 <= n <= lines.len(),
    ensures
        s.log_lines(lines, classes, n).logged.len() == s.logged.len() + n,
        s.log_lines(lines, classes, n).logged.take(s.logged.len() as int) == s.logged,
        forall|k: int|
            0 <= k < n ==> {
                let m = #[trigger] s.log_lines(lines, classes, n).logged[s.logged.len() + k];
                &&& m.text == lines[k]
                &&& m.msg_type == (if classes[k] == MsgType::Status || classes[k]
                    == MsgType::Prompt {
                    "status"@
                } else {
                    "agent_output"@
                })
            },
    decreases n,
{
    let len = s.logged.len() as int;
    if n > 0 {
        lemma_logged_lines(s, lines, classes, n - 1);
        let before = s.log_lines(lines, classes, n - 1);
        let after = s.log_lines(lines, classes, n);
        assert(after.logged.len() == before.logged.len() + 1);
        assert(after.logged.take(len) =~= before.logged.take(len));
        assert forall|k: int| 0 <= k < n implies ({
            let m = #[trigger] after.logged[len + k];
            &&& m.text == lines[k]
            &&& m.msg_type == (if classes[k] == MsgType::Status || classes[k] == MsgType::Prompt {
                "status"@
            } else {
                "agent_output"@
            })
        }) by {
            if k < n - 1 {
                assert(before.logged[len + k].text == lines[k]);
            }
        }
    } else {
        assert(s.logged.take(len) =~= s.logged);
    }
}

/// What output does: the terminal is fed with it, the session looks at the tidied screen, where
/// any output of kimi counts for work, and what of the screen is conversation waits to be stable.
pub proof fn law_what_output_does(s: SessionView, data: Seq<u8>, now: u64)
    requires
        s.next_seq + 2 <= u64::MAX,
    ensures
        ({
            let after = s.on_pty_data(data, now);
            let screen = filtered(screen_text(s.rows, s.cols, s.fed + data));
            let seen = SessionView { fed: s.fed + data, ..s }.observe(
                screen,
                s.backend == Backend::Kimi,
                now,
            );
            &&& after.fed == s.fed + data
            &&& after.state == seen.state
            &&& after.logged == seen.logged
            &&& after.stabilizer == s.stabilizer.changed(conversation(screen), now)
            &&& after.stable == s.stable
            &&& after.blocks == s.blocks
            &&& s.backend == Backend::Kimi ==> after.last_esc_seen == now && after.has_seen_esc
        }),
{
}

/// What the passing of time does: what has been stable for long enough is logged, and the session
/// looks at the tidied screen again. Silence counts for no work.
pub proof fn law_what_time_does(s: SessionView, now: u64)
    requires
        s.wf(),
        s.has_room(s.waiting_lines() + 2),
    ensures
        ({
            let after = s.tick(now);
            let kept = SessionView { stabilizer: s.stabilizer.after_commit(now), ..s };
            let screen = filtered(screen_text(s.rows, s.cols, s.fed));
            match s.stabilizer.committed(now) {
                None => after == kept.observe(screen, false, now),
                Some(snapshot) => after == kept.commit(snapshot).observe(screen, false, now),
            }
        }),
{
    let kept = SessionView { stabilizer: s.stabilizer.after_commit(now), ..s };
    if let Some(snapshot) = s.stabilizer.committed(now) {
        lemma_renamed_wf(s, kept);
        let news = diff(kept.stable, snapshot);
        let heads = headers(news);
        let blocks = blocks_in(news, heads);
        let lines = loose_in(news, heads);
        lemma_news_fit(news, heads, news.len() as int);
        law_diff_lines(kept.stable, snapshot);
        let b = blocks.len() as int;
        lemma_log_blocks(kept, blocks, b);
        lemma_log_lines(kept.log_blocks(blocks, b), lines, classes(lines), lines.len() as int);
    }
}

/// A session that is marked as dead is dead, with the exit code, and that is logged. Nothing else
/// changes.
pub proof fn law_the_dead_are_marked(s: SessionView, exit_code: Option<i32>)
    requires
        s.next_seq < u64::MAX,
    ensures
        ({
            let after = s.mark_dead(exit_code);
            &&& after.state == SessionState::Dead
            &&& after.exit_code == exit_code
            &&& after == (SessionView {
                state: SessionState::Dead,
                exit_code,
                ..s.log_change("dead"@, "dead"@)
            })
        }),
{
}

} // verus!
