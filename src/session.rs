//! Per-conversation state: the message history and a rolling summary, one
//! session per session key. Loading and saving sessions is left to the caller.
use vstd::prelude::*;
use crate::text::str_eq;
use crate::types::{Message, MessageView, Role, messages_view, role_label};

verus! {

/// History and summary of one conversation.
pub struct Session {
    pub history: Vec<Message>,
    pub summary: Option<String>,
    /// When the history was last summarized, in milliseconds since the epoch.
    pub summarized_at_ms: Option<u64>,
}

/// A session as plain values.
pub struct SessionView {
    pub history: Seq<MessageView>,
    pub summary: Option<Seq<char>>,
    pub summarized_at: Option<u64>,
}

impl View for Session {
    type V = SessionView;

    open spec fn view(&self) -> SessionView {
        SessionView {
            history: messages_view(self.history@),
            summary: match self.summary {
                Some(s) => Some(s@),
                None => None,
            },
            summarized_at: self.summarized_at_ms,
        }
    }
}

impl Session {
    /// A session with no history and no summary.
    pub fn empty() -> (r: Session)
        ensures
            r@.history.len() == 0,
            r@.summary is None,
            r@.summarized_at is None,
    {
        Session { history: Vec::new(), summary: None, summarized_at_ms: None }
    }
}

/// History length above which a finished turn summarizes the session.
pub const SUMMARIZE_THRESHOLD: usize = 20;

/// Messages kept once a session has been summarized.
pub const KEEP_AFTER_SUMMARY: usize = 10;

/// The sessions held in memory, by session key.
pub struct SessionManager {
    entries: Vec<(String, Session)>,
}

/// The last `keep` entries of `h`, or all of them when there are fewer.
pub open spec fn newest(h: Seq<MessageView>, keep: nat) -> Seq<MessageView> {
    if h.len() <= keep {
        h
    } else {
        h.subrange(h.len() - keep, h.len() as int)
    }
}

impl SessionManager {
    /// No two entries share a key.
    pub closed spec fn well_formed(&self) -> bool {
        forall|i: int, j: int|
            0 <= i < j < self.entries@.len() ==> self.entries@[i].0@ != self.entries@[j].0@
    }

    /// A session is held for `key`.
    pub closed spec fn has_session(&self, key: Seq<char>) -> bool {
        exists|i: int| 0 <= i < self.entries@.len() && self.entries@[i].0@ == key
    }

    closed spec fn index_of(&self, key: Seq<char>) -> int {
        choose|i: int| 0 <= i < self.entries@.len() && self.entries@[i].0@ == key
    }

    /// The session held for `key`; an empty one where none is held.
    pub closed spec fn session(&self, key: Seq<char>) -> SessionView {
        if self.has_session(key) {
            self.entries@[self.index_of(key)].1@
        } else {
            SessionView { history: seq![], summary: None, summarized_at: None }
        }
    }

    /// The history held for `key`.
    pub open spec fn history_of(&self, key: Seq<char>) -> Seq<MessageView> {
        self.session(key).history
    }

    /// The summary held for `key`.
    pub open spec fn summary_of(&self, key: Seq<char>) -> Option<Seq<char>> {
        self.session(key).summary
    }

    /// When the history of `key` was last summarized.
    pub open spec fn summarized_at_of(&self, key: Seq<char>) -> Option<u64> {
        self.session(key).summarized_at
    }

    pub fn new() -> (r: SessionManager)
        ensures
            r.well_formed(),
            forall|k: Seq<char>| !r.has_session(k),
    {
        SessionManager { entries: Vec::new() }
    }

    proof fn lemma_index(&self, i: int)
        requires
            self.well_formed(),
            0 <= i < self.entries@.len(),
        ensures
            self.has_session(self.entries@[i].0@),
            self.index_of(self.entries@[i].0@) == i,
    {
        let k = self.entries@[i].0@;
        assert(0 <= i < self.entries@.len() && self.entries@[i].0@ == k);
        let j = self.index_of(k);
        if j != i {
            if j < i {
                assert(self.entries@[j].0@ != self.entries@[i].0@);
            } else {
                assert(self.entries@[i].0@ != self.entries@[j].0@);
            }
        }
    }

    fn find(&self, key: &str) -> (r: Option<usize>)
        requires
            self.well_formed(),
        ensures
            match r {
                Some(i) => i < self.entries@.len() && self.entries@[i as int].0@ == key@
                    && self.has_session(key@) && self.index_of(key@) == i,
                None => !self.has_session(key@),
            },
    {
        let mut i: usize = 0;
        while i < self.entries.len()
            invariant
                self.well_formed(),
                i <= self.entries@.len(),
                forall|j: int| 0 <= j < i ==> self.entries@[j].0@ != key@,
            decreases self.entries@.len() - i,
        {
            if str_eq(self.entries[i].0.as_str(), key) {
                proof {
                    self.lemma_index(i as int);
                }
                return Some(i);
            }
            i = i + 1;
        }
        None
    }

    /// Whether a session is held for `key`.
    pub fn contains(&self, key: &str) -> (r: bool)
        requires
            self.well_formed(),
        ensures
            r == self.has_session(key@),
    {
        self.find(key).is_some()
    }

    /// Holds `session` for `key` unless a session is already held for it.
    pub fn insert_loaded(&mut self, key: &str, session: Session)
        requires
            old(self).well_formed(),
        ensures
            final(self).well_formed(),
            final(self).has_session(key@),
            old(self).has_session(key@) ==> final(self).session(key@) == old(self).session(key@),
            !old(self).has_session(key@) ==> final(self).session(key@) == session@,
            forall|k: Seq<char>|
                k != key@ ==> final(self).has_session(k) == old(self).has_session(k)
                    && final(self).session(k) == old(self).session(k),
    {
        if self.find(key).is_some() {
            return;
        }
        let ghost before = *self;
        self.entries.push((String::from_str(key), session));
        proof {
            let n = before.entries@.len() as int;
            assert forall|a: int, b: int| 0 <= a < b < self.entries@.len() implies self.entries@[a].0@
                != self.entries@[b].0@ by {
                if b == n {
                    assert(before.entries@[a] == self.entries@[a]);
                    assert(!(0 <= a < before.entries@.len() && before.entries@[a].0@ == key@));
                } else {
                    assert(before.entries@[a] == self.entries@[a]);
                    assert(before.entries@[b] == self.entries@[b]);
                }
            }
            self.lemma_index(n);
            assert forall|k: Seq<char>| k != key@ implies self.has_session(k) == before.has_session(k)
                && self.session(k) == before.session(k) by {
                if before.has_session(k) {
                    let i = before.index_of(k);
                    before.lemma_index(i);
                    assert(self.entries@[i] == before.entries@[i]);
                    self.lemma_index(i);
                }
                if self.has_session(k) {
                    let i = self.index_of(k);
                    if i < n {
                        assert(self.entries@[i] == before.entries@[i]);
                    }
                }
            }
        }
    }

    /// Puts `session` at position `i`, keeping its key and every other entry.
    fn replace_at(&mut self, i: usize, session: Session)
        requires
            old(self).well_formed(),
            i < old(self).entries@.len(),
        ensures
            final(self).well_formed(),
            final(self).entries@.len() == old(self).entries@.len(),
            final(self).entries@[i as int].0 == old(self).entries@[i as int].0,
            final(self).entries@[i as int].1 == session,
            forall|j: int|
                0 <= j < old(self).entries@.len() && j != i ==> final(self).entries@[j]
                    == old(self).entries@[j],
    {
        let (key, _old_session) = self.entries.remove(i);
        self.entries.insert(i, (key, session));
        assert forall|a: int, b: int|
            0 <= a < b < self.entries@.len() implies self.entries@[a].0@ != self.entries@[b].0@ by {
            assert(self.entries@[a].0 == old(self).entries@[a].0);
            assert(self.entries@[b].0 == old(self).entries@[b].0);
        }
    }

    proof fn lemma_replace_keeps_others(before: &SessionManager, after: &SessionManager, i: int)
        requires
            before.well_formed(),
            after.well_formed(),
            0 <= i < before.entries@.len(),
            after.entries@.len() == before.entries@.len(),
            after.entries@[i].0 == before.entries@[i].0,
            forall|j: int|
                0 <= j < before.entries@.len() && j != i ==> after.entries@[j]
                    == before.entries@[j],
        ensures
            after.has_session(before.entries@[i].0@),
            after.session(before.entries@[i].0@) == after.entries@[i].1@,
            forall|k: Seq<char>|
                k != before.entries@[i].0@ ==> after.has_session(k) == before.has_session(k)
                    && after.session(k) == before.session(k),
    {
        after.lemma_index(i);
        let key = before.entries@[i].0@;
        assert forall|k: Seq<char>| k != key implies after.has_session(k) == before.has_session(k)
            && after.session(k) == before.session(k) by {
            if before.has_session(k) {
                let j = before.index_of(k);
                before.lemma_index(j);
                assert(after.entries@[j] == before.entries@[j]);
                after.lemma_index(j);
            }
            if after.has_session(k) {
                let j = after.index_of(k);
                assert(after.entries@[j] == before.entries@[j]);
            }
        }
    }

    /// The position of the session for `key`, made empty first where none is
    /// held.
    fn slot(&mut self, key: &str) -> (r: usize)
        requires
            old(self).well_formed(),
        ensures
            final(self).well_formed(),
            r < final(self).entries@.len(),
            final(self).entries@[r as int].0@ == key@,
            final(self).session(key@) == old(self).session(key@),
            forall|k: Seq<char>|
                k != key@ ==> final(self).has_session(k) == old(self).has_session(k)
                    && final(self).session(k) == old(self).session(k),
    {
        match self.find(key) {
            Some(i) => i,
            None => {
                self.insert_loaded(key, Session::empty());
                let i = self.find(key);
                proof {
                    assert(self.session(key@).history =~= seq![]);
                }
                match i {
                    Some(i) => i,
                    None => {
                        assert(false);
                        0
                    },
                }
            },
        }
    }

    /// Appends `message` to the history of `key`, starting an empty session
    /// where none is held. Every other session is left as it was.
    pub fn add_message(&mut self, key: &str, message: Message)
        requires
            old(self).well_formed(),
        ensures
            final(self).well_formed(),
            final(self).has_session(key@),
            appended_one(*old(self), *final(self), key@, message@),
            final(self).history_of(key@).len() == old(self).history_of(key@).len() + 1,
            final(self).summary_of(key@) == old(self).summary_of(key@),
            final(self).summarized_at_of(key@) == old(self).summarized_at_of(key@),
            forall|k: Seq<char>|
                k != key@ ==> final(self).has_session(k) == old(self).has_session(k)
                    && final(self).session(k) == old(self).session(k),
    {
        let i = self.slot(key);
        let ghost mid = *self;
        let (k, mut session) = self.entries.remove(i);
        self.entries.insert(i, (k, Session::empty()));
        let ghost before_hist = session.history@;
        session.history.push(message);
        proof {
            mid.lemma_index(i as int);
            assert(messages_view(session.history@) =~= messages_view(before_hist).push(message@));
        }
        self.replace_at(i, session);
        proof {
            SessionManager::lemma_replace_keeps_others(&mid, self, i as int);
        }
    }

    /// The history of `key`, oldest first.
    pub fn get_history(&self, key: &str) -> (r: Vec<Message>)
        requires
            self.well_formed(),
        ensures
            messages_view(r@) == self.history_of(key@),
    {
        match self.find(key) {
            Some(i) => {
                let h = &self.entries[i].1.history;
                let mut r: Vec<Message> = Vec::new();
                let mut j: usize = 0;
                while j < h.len()
                    invariant
                        j <= h@.len(),
                        r@.len() == j,
                        forall|t: int| 0 <= t < j ==> r@[t]@ == h@[t]@,
                    decreases h@.len() - j,
                {
                    r.push(h[j].duplicate());
                    j = j + 1;
                }
                assert(messages_view(r@) =~= messages_view(h@));
                r
            },
            None => {
                let r: Vec<Message> = Vec::new();
                assert(messages_view(r@) =~= seq![]);
                r
            },
        }
    }

    /// The summary of `key`, if one was stored.
    pub fn get_summary(&self, key: &str) -> (r: Option<String>)
        requires
            self.well_formed(),
        ensures
            match r {
                Some(s) => self.summary_of(key@) == Some(s@),
                None => self.summary_of(key@) is None,
            },
    {
        match self.find(key) {
            Some(i) => match &self.entries[i].1.summary {
                Some(s) => Some(s.clone()),
                None => None,
            },
            None => None,
        }
    }

    /// When the history of `key` was last summarized, if ever.
    pub fn summarized_at(&self, key: &str) -> (r: Option<u64>)
        requires
            self.well_formed(),
        ensures
            r == self.summarized_at_of(key@),
    {
        match self.find(key) {
            Some(i) => self.entries[i].1.summarized_at_ms,
            None => None,
        }
    }

    /// Marks the history of `key` as summarized at `now_ms`.
    pub fn mark_summarized(&mut self, key: &str, now_ms: u64)
        requires
            old(self).well_formed(),
        ensures
            final(self).well_formed(),
            final(self).summarized_at_of(key@) == Some(now_ms),
            final(self).history_of(key@) == old(self).history_of(key@),
            final(self).summary_of(key@) == old(self).summary_of(key@),
            forall|k: Seq<char>|
                k != key@ ==> final(self).has_session(k) == old(self).has_session(k)
                    && final(self).session(k) == old(self).session(k),
    {
        let i = self.slot(key);
        let ghost mid = *self;
        let (k, mut session) = self.entries.remove(i);
        self.entries.insert(i, (k, Session::empty()));
        session.summarized_at_ms = Some(now_ms);
        proof {
            mid.lemma_index(i as int);
        }
        self.replace_at(i, session);
        proof {
            SessionManager::lemma_replace_keeps_others(&mid, self, i as int);
        }
    }

    /// Stores `summary` for `key`, starting an empty session where none is
    /// held. The history is left as it was.
    pub fn set_summary(&mut self, key: &str, summary: String)
        requires
            old(self).well_formed(),
        ensures
            final(self).well_formed(),
            final(self).summary_of(key@) == Some(summary@),
            final(self).history_of(key@) == old(self).history_of(key@),
            final(self).summarized_at_of(key@) == old(self).summarized_at_of(key@),
            forall|k: Seq<char>|
                k != key@ ==> final(self).has_session(k) == old(self).has_session(k)
                    && final(self).session(k) == old(self).session(k),
    {
        let i = self.slot(key);
        let ghost mid = *self;
        let (k, mut session) = self.entries.remove(i);
        self.entries.insert(i, (k, Session::empty()));
        session.summary = Some(summary);
        proof {
            mid.lemma_index(i as int);
        }
        self.replace_at(i, session);
        proof {
            SessionManager::lemma_replace_keeps_others(&mid, self, i as int);
        }
    }

    /// Drops the oldest messages of `key` so that at most `keep` remain.
    pub fn auto_trim_history(&mut self, key: &str, keep: usize)
        requires
            old(self).well_formed(),
        ensures
            final(self).well_formed(),
            final(self).history_of(key@) == newest(old(self).history_of(key@), keep as nat),
            final(self).summary_of(key@) == old(self).summary_of(key@),
            final(self).summarized_at_of(key@) == old(self).summarized_at_of(key@),
            forall|k: Seq<char>|
                k != key@ ==> final(self).has_session(k) == old(self).has_session(k)
                    && final(self).session(k) == old(self).session(k),
    {
        let i = self.slot(key);
        let ghost mid = *self;
        let (k, mut session) = self.entries.remove(i);
        self.entries.insert(i, (k, Session::empty()));
        let len = session.history.len();
        let ghost before_hist = session.history@;
        if len > keep {
            let kept = session.history.split_off(len - keep);
            session.history = kept;
            proof {
                assert(messages_view(session.history@) =~= messages_view(before_hist).subrange(
                    (len - keep) as int,
                    len as int,
                ));
            }
        }
        proof {
            mid.lemma_index(i as int);
        }
        self.replace_at(i, session);
        proof {
            SessionManager::lemma_replace_keeps_others(&mid, self, i as int);
        }
    }

    /// Whether the history of `key` has grown enough to be summarized.
    pub fn should_summarize(&self, key: &str) -> (r: bool)
        requires
            self.well_formed(),
        ensures
            r == (self.history_of(key@).len() > SUMMARIZE_THRESHOLD),
    {
        match self.find(key) {
            Some(i) => self.entries[i].1.history.len() > SUMMARIZE_THRESHOLD,
            None => false,
        }
    }
}

/// The conversation as text: one `<Role>: <content>` line per message.
pub open spec fn rendered(h: Seq<MessageView>) -> Seq<char>
    decreases h.len(),
{
    if h.len() == 0 {
        seq![]
    } else if h.len() == 1 {
        role_label(h[0].role) + ": "@ + h[0].content
    } else {
        rendered(h.drop_last()) + "\n"@ + role_label(h.last().role) + ": "@ + h.last().content
    }
}

/// Instruction given to the model when summarizing.
pub open spec fn summary_instruction() -> Seq<char> {
    "You are a helpful assistant. Summarize the conversation history concisely."@
}

/// The request text that asks for a summary of `h`.
pub open spec fn summary_prompt(h: Seq<MessageView>) -> Seq<char> {
    "Summarize the following conversation into a concise paragraph:\n\n"@ + rendered(h)
}

/// Output tokens allowed for a summary.
pub const SUMMARY_MAX_TOKENS: u32 = 500;

/// Renders the conversation as text.
pub fn render_history(history: &Vec<Message>) -> (r: String)
    ensures
        r@ == rendered(messages_view(history@)),
{
    let mut out = String::new();
    let mut i: usize = 0;
    while i < history.len()
        invariant
            i <= history@.len(),
            out@ == rendered(messages_view(history@.subrange(0, i as int))),
        decreases history@.len() - i,
    {
        let ghost next = messages_view(history@.subrange(0, i as int + 1));
        assert(next.drop_last() =~= messages_view(history@.subrange(0, i as int)));
        assert(next.last() == history@[i as int]@);
        if i > 0 {
            out.append("\n");
        } else {
            assert(next.len() == 1);
        }
        out.append(history[i].role.label());
        out.append(": ");
        out.append(history[i].content.as_str());
        i = i + 1;
        assert(out@ =~= rendered(next));
    }
    assert(history@.subrange(0, i as int) =~= history@);
    out
}

/// The two messages that ask the model for a summary of `history`.
pub fn summary_request(session_key: &str, history: &Vec<Message>) -> (r: Vec<Message>)
    ensures
        r@.len() == 2,
        r@[0]@.role == Role::System,
        r@[0]@.content == summary_instruction(),
        r@[1]@.role == Role::User,
        r@[1]@.content == summary_prompt(messages_view(history@)),
{
    let mut prompt = String::from_str(
        "Summarize the following conversation into a concise paragraph:\n\n",
    );
    let text = render_history(history);
    prompt.append(text.as_str());
    let mut r: Vec<Message> = Vec::new();
    r.push(
        Message::new(
            "system",
            session_key,
            Role::System,
            "You are a helpful assistant. Summarize the conversation history concisely.",
        ),
    );
    r.push(Message::new("user", session_key, Role::User, prompt.as_str()));
    r
}

impl SessionManager {
    /// Stores a fresh summary for `key`, marks it summarized as of `now_ms`,
    /// and keeps only the newest
    /// `KEEP_AFTER_SUMMARY` messages of its history.
    pub fn apply_summary(&mut self, key: &str, summary: String, now_ms: u64)
        requires
            old(self).well_formed(),
        ensures
            final(self).well_formed(),
            final(self).summary_of(key@) == Some(summary@),
            final(self).summarized_at_of(key@) == Some(now_ms),
            final(self).history_of(key@) == newest(
                old(self).history_of(key@),
                KEEP_AFTER_SUMMARY as nat,
            ),
            forall|k: Seq<char>|
                k != key@ ==> final(self).has_session(k) == old(self).has_session(k)
                    && final(self).session(k) == old(self).session(k),
    {
        self.set_summary(key, summary);
        self.mark_summarized(key, now_ms);
        self.auto_trim_history(key, KEEP_AFTER_SUMMARY);
    }
}

/// A session key made safe for a file name: every `:` becomes `_`.
pub open spec fn safe_key(key: Seq<char>) -> Seq<char> {
    key.map_values(|c: char| if c == ':' { '_' } else { c })
}

/// The name of the file that holds the session for `key`.
pub fn session_file_name(key: &str) -> (r: String)
    ensures
        r@ == safe_key(key@) + ".json"@,
{
    let n = key.unicode_len();
    let mut out = String::new();
    let mut i: usize = 0;
    while i < n
        invariant
            i <= n == key@.len(),
            out@ == safe_key(key@.subrange(0, i as int)),
        decreases n - i,
    {
        let c = key.get_char(i);
        crate::text::push_char(&mut out, if c == ':' { '_' } else { c });
        i = i + 1;
        assert(out@ =~= safe_key(key@.subrange(0, i as int)));
    }
    assert(key@.subrange(0, n as int) =~= key@);
    out.append(".json");
    out
}

/// What one `add_message` call does to the history of `key`.
pub open spec fn appended_one(
    before: SessionManager,
    after: SessionManager,
    key: Seq<char>,
    m: MessageView,
) -> bool {
    after.history_of(key) == before.history_of(key).push(m)
}

/// After `add_message` calls with the messages `added`, one after the other
/// and with no trim between them, the history of `key` is what it was
/// followed by `added`: its length grew by exactly `added.len()`.
pub proof fn lemma_appends_accumulate(
    states: Seq<SessionManager>,
    key: Seq<char>,
    added: Seq<MessageView>,
)
    requires
        states.len() == added.len() + 1,
        forall|i: int|
            0 <= i < added.len() ==> #[trigger] appended_one(states[i], states[i + 1], key, added[i]),
    ensures
        states.last().history_of(key) == states[0].history_of(key) + added,
        states.last().history_of(key).len() == states[0].history_of(key).len() + added.len(),
    decreases added.len(),
{
    if added.len() == 0 {
        assert(states[0].history_of(key) + added =~= states[0].history_of(key));
    } else {
        let n = added.len() - 1;
        let prefix_states = states.subrange(0, n + 1);
        let prefix_added = added.subrange(0, n);
        assert forall|i: int| 0 <= i < prefix_added.len() implies #[trigger] appended_one(
            prefix_states[i],
            prefix_states[i + 1],
            key,
            prefix_added[i],
        ) by {
            assert(appended_one(states[i], states[i + 1], key, added[i]));
        }
        lemma_appends_accumulate(prefix_states, key, prefix_added);
        assert(appended_one(states[n], states[n + 1], key, added[n]));
        assert(states[0].history_of(key) + added =~= (states[0].history_of(key)
            + prefix_added).push(added[n]));
    }
}

/// Trimming keeps exactly the newest `min(len, keep)` messages, in order.
pub proof fn lemma_trim_keeps_newest(h: Seq<MessageView>, keep: nat)
    ensures
        newest(h, keep).len() == if h.len() <= keep { h.len() } else { keep },
        forall|i: int|
            0 <= i < newest(h, keep).len() ==> newest(h, keep)[i] == h[h.len() - newest(
                h,
                keep,
            ).len() + i],
{
}

} // verus!
