//! Conversation sessions: what a session file holds, how a turn is recorded
//! in it, and the order of the session list.
use vstd::prelude::*;
use crate::agent::{dup_tools, AgentOutput, StoredTool};
use crate::calls;
use crate::error::AppError;
use crate::deepseek::{dup_messages, msgs_view, ApiMessage};
use crate::order::{in_order, is_permutation, lemma_lex_asym, lex_lt, precedes, sorted_order};
use crate::text::{append_chars, append_str, from_chars, owned, take_prefix, take_chars, to_chars, trim, trim_str};
use crate::paths::{join_path, path_join};

verus! {

/// One displayed message of a session.
#[derive(Debug, Clone)]
pub struct StoredMessage {
    pub id: String,
    pub role: String,
    pub content: String,
    pub reasoning: String,
    pub tools: Vec<StoredTool>,
    pub is_error: bool,
    pub created_at: String,
}

/// Everything persisted of a session.
#[derive(Debug, Clone)]
pub struct SessionFile {
    pub id: String,
    pub title: String,
    pub created_at: String,
    pub updated_at: String,
    pub messages: Vec<StoredMessage>,
    /// Raw wire-format conversation, used to continue a session faithfully.
    pub api_messages: Vec<ApiMessage>,
}

/// The list entry of a session.
#[derive(Debug, Clone, PartialEq, Eq)]
pub struct SessionMeta {
    pub id: String,
    pub title: String,
    pub created_at: String,
    pub updated_at: String,
}

/// Where sessions are kept: one JSON file per session in a directory.
#[derive(Debug, Clone)]
pub struct SessionStore {
    dir: String,
}

impl SessionStore {
    /// The directory of the store.
    pub closed spec fn dir_view(&self) -> Seq<char> {
        self.dir@
    }

    /// The store under the data directory `root`: its `sessions` directory.
    pub fn new(root: &str) -> (r: SessionStore)
        ensures
            r.dir_view() == path_join(root@, "sessions"@),
    {
        SessionStore { dir: join_path(root, "sessions") }
    }

    /// The directory of the store.
    pub fn dir(&self) -> (r: &str)
        ensures
            r@ == self.dir_view(),
    {
        self.dir.as_str()
    }

    /// The file of the session `id`: `<id>.json` in the store's directory.
    pub fn path(&self, id: &str) -> (r: String)
        ensures
            r@ == path_join(self.dir_view(), id@ + ".json"@),
    {
        let mut name = to_chars(id);
        append_str(&mut name, ".json");
        let n = from_chars(&name);
        join_path(self.dir.as_str(), n.as_str())
    }
}

/// The title a session takes from its first message: the trimmed text cut
/// to 30 characters, with `…` when it was longer.
pub open spec fn title_of(text: Seq<char>) -> Seq<char> {
    let t = trim(text);
    if t.len() > 30 {
        t.subrange(0, 30) + "…"@
    } else {
        t
    }
}

/// The title a session takes from its first message.
pub fn derive_title(text: &str) -> (r: String)
    ensures
        r@ == title_of(text@),
{
    let t = trim_str(text);
    let mut head = take_prefix(&t, 30);
    if t.len() > 30 {
        append_str(&mut head, "…");
    }
    from_chars(&head)
}

impl SessionFile {
    /// An empty session with the given id, created at `now`.
    pub fn new_at(id: String, now: &str) -> (r: SessionFile)
        ensures
            r.id == id,
            r.title@.len() == 0,
            r.created_at@ == now@,
            r.updated_at@ == now@,
            r.messages@.len() == 0,
            r.api_messages@.len() == 0,
    {
        SessionFile {
            id,
            title: String::new(),
            created_at: owned(now),
            updated_at: owned(now),
            messages: Vec::new(),
            api_messages: Vec::new(),
        }
    }

    /// A new empty session with a fresh id, created now.
    pub fn create() -> (r: SessionFile)
        ensures
            r.title@.len() == 0,
            r.id@.len() == 36,
            r.created_at == r.updated_at,
            r.messages@.len() == 0,
            r.api_messages@.len() == 0,
    {
        let now = calls::utc_now_rfc3339();
        let mut r = SessionFile::new_at(calls::new_uuid(), now.as_str());
        r.updated_at = r.created_at.clone();
        r
    }

    /// The list entry of this session.
    pub fn meta(&self) -> (m: SessionMeta)
        ensures
            m.id == self.id,
            m.title == self.title,
            m.created_at == self.created_at,
            m.updated_at == self.updated_at,
    {
        SessionMeta {
            id: self.id.clone(),
            title: self.title.clone(),
            created_at: self.created_at.clone(),
            updated_at: self.updated_at.clone(),
        }
    }

    /// Records the user message `text` (id `msg_id`, written at `created`);
    /// a session without a title takes it from this message; the session is
    /// updated at `updated`.
    pub fn record_user_at(&mut self, text: &str, msg_id: String, created: String, updated: String)
        ensures
            final(self).messages@ == old(self).messages@.push(final(self).messages@.last()),
            final(self).messages@.last().id == msg_id,
            final(self).messages@.last().role@ == "user"@,
            final(self).messages@.last().content@ == text@,
            final(self).messages@.last().reasoning@.len() == 0,
            final(self).messages@.last().tools@.len() == 0,
            !final(self).messages@.last().is_error,
            final(self).messages@.last().created_at == created,
            old(self).title@.len() == 0 ==> final(self).title@ == title_of(text@),
            old(self).title@.len() != 0 ==> final(self).title == old(self).title,
            final(self).updated_at == updated,
            final(self).id == old(self).id,
            final(self).created_at == old(self).created_at,
            final(self).api_messages == old(self).api_messages,
    {
        self.messages.push(
            StoredMessage {
                id: msg_id,
                role: owned("user"),
                content: owned(text),
                reasoning: String::new(),
                tools: Vec::new(),
                is_error: false,
                created_at: created,
            },
        );
        if self.title.as_str().is_empty() {
            self.title = derive_title(text);
        }
        self.updated_at = updated;
    }

    /// Records the user message `text` now, with a fresh id.
    pub fn record_user(&mut self, text: &str)
        ensures
            final(self).messages@.len() == old(self).messages@.len() + 1,
            final(self).messages@.drop_last() == old(self).messages@,
            final(self).messages@.last().id@.len() == 36,
            final(self).messages@.last().role@ == "user"@,
            final(self).messages@.last().content@ == text@,
            !final(self).messages@.last().is_error,
            old(self).title@.len() == 0 ==> final(self).title@ == title_of(text@),
            old(self).title@.len() != 0 ==> final(self).title == old(self).title,
            final(self).id == old(self).id,
            final(self).api_messages == old(self).api_messages,
    {
        let id = calls::new_uuid();
        let created = calls::utc_now_rfc3339();
        let updated = calls::utc_now_rfc3339();
        self.record_user_at(text, id, created, updated);
    }

    /// Records the assistant turn `output` (id `msg_id`, written at
    /// `created`): content, reasoning and tool records as a message, and the
    /// turn's wire-format conversation in place of the previous one.
    pub fn record_assistant_at(
        &mut self,
        output: &AgentOutput,
        is_error: bool,
        msg_id: String,
        created: String,
        updated: String,
    )
        ensures
            final(self).messages@ == old(self).messages@.push(final(self).messages@.last()),
            final(self).messages@.last().id == msg_id,
            final(self).messages@.last().role@ == "assistant"@,
            final(self).messages@.last().content == output.content,
            final(self).messages@.last().reasoning == output.reasoning,
            final(self).messages@.last().tools@ == output.tools@,
            final(self).messages@.last().is_error == is_error,
            final(self).messages@.last().created_at == created,
            msgs_view(final(self).api_messages@) == msgs_view(output.api_messages@),
            final(self).updated_at == updated,
            final(self).id == old(self).id,
            final(self).title == old(self).title,
            final(self).created_at == old(self).created_at,
    {
        self.messages.push(
            StoredMessage {
                id: msg_id,
                role: owned("assistant"),
                content: output.content.clone(),
                reasoning: output.reasoning.clone(),
                tools: dup_tools(&output.tools),
                is_error,
                created_at: created,
            },
        );
        self.api_messages = dup_messages(&output.api_messages);
        self.updated_at = updated;
    }

    /// Records the assistant turn `output` now, with a fresh id.
    pub fn record_assistant(&mut self, output: &AgentOutput, is_error: bool)
        ensures
            final(self).messages@.len() == old(self).messages@.len() + 1,
            final(self).messages@.drop_last() == old(self).messages@,
            final(self).messages@.last().id@.len() == 36,
            final(self).messages@.last().role@ == "assistant"@,
            final(self).messages@.last().content == output.content,
            final(self).messages@.last().is_error == is_error,
            msgs_view(final(self).api_messages@) == msgs_view(output.api_messages@),
            final(self).id == old(self).id,
            final(self).title == old(self).title,
    {
        let id = calls::new_uuid();
        let created = calls::utc_now_rfc3339();
        let updated = calls::utc_now_rfc3339();
        self.record_assistant_at(output, is_error, id, created, updated);
    }

    /// Records how a turn ended: the answer of a turn that succeeded, or,
    /// for a failed turn, an empty assistant message flagged as an error and
    /// an empty conversation.
    pub fn record_outcome(&mut self, result: &Result<AgentOutput, AppError>)
        ensures
            final(self).messages@.len() == old(self).messages@.len() + 1,
            final(self).messages@.drop_last() == old(self).messages@,
            final(self).messages@.last().id@.len() == 36,
            final(self).messages@.last().role@ == "assistant"@,
            final(self).id == old(self).id,
            final(self).title == old(self).title,
            match result {
                Ok(o) => {
                    &&& final(self).messages@.last().content == o.content
                    &&& !final(self).messages@.last().is_error
                    &&& msgs_view(final(self).api_messages@) == msgs_view(o.api_messages@)
                },
                Err(_) => {
                    &&& final(self).messages@.last().content@.len() == 0
                    &&& final(self).messages@.last().is_error
                    &&& final(self).api_messages@.len() == 0
                },
            },
    {
        match result {
            Ok(o) => self.record_assistant(o, false),
            Err(_) => {
                let empty = AgentOutput {
                    content: String::new(),
                    reasoning: String::new(),
                    tools: Vec::new(),
                    api_messages: Vec::new(),
                };
                self.record_assistant(&empty, true);
                assert(msgs_view(self.api_messages@).len() == 0);
            },
        }
    }
}

/// Whether a directory entry named `name` is a session file: its extension
/// (the text after the last `.`, where that dot is not the name's first
/// character) is `json`.
pub open spec fn is_session_file_name(name: Seq<char>) -> bool {
    name.len() > 5 && name.subrange(name.len() - 5, name.len() as int) == ".json"@
}

/// Whether a directory entry named `name` is a session file.
pub fn session_file_name(name: &str) -> (r: bool)
    ensures
        r == is_session_file_name(name@),
{
    let v = to_chars(name);
    let n = v.len();
    if n <= 5 {
        return false;
    }
    let tail = crate::text::slice_chars(&v, n - 5, n);
    let ext = to_chars(".json");
    crate::text::chars_eq(&tail, &ext)
}

/// The sort keys of a session list: the update times.
pub open spec fn update_keys(metas: Seq<SessionMeta>) -> Seq<Seq<char>> {
    metas.map_values(|m: SessionMeta| m.updated_at@)
}

/// A session list sorted by `sort_by_update_desc` runs newest first: no
/// session comes before one updated later, and sessions updated at the same
/// time keep the order they were found in.
pub proof fn lemma_sessions_newest_first(metas: Seq<SessionMeta>, r: Seq<SessionMeta>, p: Seq<usize>)
    requires
        is_permutation(p, metas.len()),
        in_order(update_keys(metas), true, p),
        r.len() == p.len(),
        forall|i: int| 0 <= i < p.len() ==> #[trigger] r[i] == metas[p[i] as int],
    ensures
        forall|a: int, b: int|
            0 <= a < b < r.len() ==> !lex_lt(#[trigger] r[a].updated_at@, #[trigger] r[b].updated_at@),
        forall|a: int, b: int|
            0 <= a < b < r.len() && r[a].updated_at@ == r[b].updated_at@ ==> p[a] < p[b],
{
    let keys = update_keys(metas);
    assert forall|a: int, b: int| 0 <= a < b < r.len() implies !lex_lt(
        #[trigger] r[a].updated_at@,
        #[trigger] r[b].updated_at@,
    ) && (r[a].updated_at@ == r[b].updated_at@ ==> p[a] < p[b]) by {
        assert(precedes(keys, true, p[a] as int, p[b] as int));
        assert(keys[p[a] as int] == r[a].updated_at@);
        assert(keys[p[b] as int] == r[b].updated_at@);
        lemma_lex_asym(r[a].updated_at@, r[b].updated_at@);
        if r[a].updated_at@ == r[b].updated_at@ {
            lemma_lex_asym(r[a].updated_at@, r[a].updated_at@);
        }
    }
}

/// The session list, most recently updated first; sessions updated at the
/// same time keep their order.
pub fn sort_by_update_desc(metas: &Vec<SessionMeta>) -> (r: Vec<SessionMeta>)
    ensures
        exists|p: Seq<usize>|
            {
                &&& is_permutation(p, metas@.len())
                &&& in_order(update_keys(metas@), true, p)
                &&& r@.len() == p.len()
                &&& forall|i: int| 0 <= i < p.len() ==> #[trigger] r@[i] == metas@[p[i] as int]
            },
{
    let mut keys: Vec<Vec<char>> = Vec::new();
    let mut i: usize = 0;
    while i < metas.len()
        invariant
            i <= metas.len(),
            keys@.map_values(|k: Vec<char>| k@) == update_keys(metas@.subrange(0, i as int)),
        decreases metas.len() - i,
    {
        let ghost before = keys@.map_values(|k: Vec<char>| k@);
        keys.push(to_chars(metas[i].updated_at.as_str()));
        assert(keys@.map_values(|k: Vec<char>| k@) =~= before.push(metas@[i as int].updated_at@));
        assert(update_keys(metas@.subrange(0, i + 1)) =~= update_keys(metas@.subrange(0, i as int)).push(
            metas@[i as int].updated_at@,
        ));
        i += 1;
    }
    assert(metas@.subrange(0, metas.len() as int) =~= metas@);
    let p = sorted_order(&keys, true);
    let mut r: Vec<SessionMeta> = Vec::new();
    let mut j: usize = 0;
    while j < p.len()
        invariant
            j <= p.len(),
            is_permutation(p@, metas@.len()),
            r@.len() == j,
            forall|t: int| 0 <= t < j ==> #[trigger] r@[t] == metas@[p@[t] as int],
        decreases p.len() - j,
    {
        let m = &metas[p[j]];
        r.push(
            SessionMeta {
                id: m.id.clone(),
                title: m.title.clone(),
                created_at: m.created_at.clone(),
                updated_at: m.updated_at.clone(),
            },
        );
        j += 1;
    }
    r
}

} // verus!
