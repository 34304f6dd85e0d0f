//! The chats a running autorun holds beside its work: which chats are open,
//! and for each message a chat sent, the chat a reply to it belongs to. The
//! chats' tasks and channels live around this bookkeeping.

use vstd::prelude::*;
use crate::sessions::{find_message, lemma_message_index, message_index, reply_project, with_message};
use crate::text::{contains_str, str_eq};

verus! {

/// The open chats of one autorun and the routing of replies to them.
#[derive(Debug)]
pub struct ChatRouter {
    /// The project the autorun works on.
    pub project_id: String,
    /// Ids of the open chats.
    pub sessions: Vec<String>,
    /// Message id and the chat that sent it.
    pub message_to_chat: Vec<(i64, String)>,
}

/// The router as plain values.
pub ghost struct RouterV {
    pub project_id: Seq<char>,
    pub sessions: Seq<Seq<char>>,
    pub messages: Seq<(i64, Seq<char>)>,
}

impl View for ChatRouter {
    type V = RouterV;

    open spec fn view(&self) -> RouterV {
        RouterV {
            project_id: self.project_id@,
            sessions: self.sessions.deep_view(),
            messages: self.message_to_chat@.map_values(|m: (i64, String)| (m.0, m.1@)),
        }
    }
}

/// The open chats after opening `c`.
pub open spec fn with_chat(s: Seq<Seq<char>>, c: Seq<char>) -> Seq<Seq<char>> {
    if s.contains(c) {
        s
    } else {
        s.push(c)
    }
}

/// A message is kept unless it belongs to chat `c`.
pub open spec fn not_chat(c: Seq<char>) -> spec_fn((i64, Seq<char>)) -> bool {
    |m: (i64, Seq<char>)| m.1 != c
}

/// A chat other than `c`.
pub open spec fn other_chat(c: Seq<char>) -> spec_fn(Seq<char>) -> bool {
    |x: Seq<char>| x != c
}

/// No open chats, no routed messages, for the autorun of `project_id`.
pub fn new_manager(project_id: String) -> (r: ChatRouter)
    ensures
        r@.project_id == project_id@,
        r@.sessions.len() == 0,
        r@.messages.len() == 0,
{
    let r = ChatRouter { project_id, sessions: Vec::new(), message_to_chat: Vec::new() };
    assert(r@.sessions =~= Seq::<Seq<char>>::empty());
    r
}

impl ChatRouter {
    /// Whether a chat asked for `target_project_id` is this autorun's to
    /// start.
    pub fn accepts(&self, target_project_id: &str) -> (r: bool)
        ensures
            r == (target_project_id@ == self@.project_id),
    {
        str_eq(target_project_id, self.project_id.as_str())
    }

    /// Open chat `chat_id`.
    pub fn add_session(&mut self, chat_id: &str)
        ensures
            final(self)@.sessions == with_chat(old(self)@.sessions, chat_id@),
            final(self)@.messages == old(self)@.messages,
            final(self)@.project_id == old(self)@.project_id,
    {
        if !contains_str(self.sessions.as_slice(), chat_id) {
            let ghost before = self.sessions.deep_view();
            self.sessions.push(chat_id.to_owned());
            assert(self.sessions.deep_view() =~= before.push(chat_id@));
        }
    }

    /// Whether chat `chat_id` is open, so that a reply or a restart can be
    /// passed to it.
    pub fn has_session(&self, chat_id: &str) -> (r: bool)
        ensures
            r == self@.sessions.contains(chat_id@),
    {
        contains_str(self.sessions.as_slice(), chat_id)
    }

    /// Record that message `message_id` was sent by chat `chat_id`.
    pub fn register_message(&mut self, message_id: i64, chat_id: &str)
        ensures
            final(self)@.messages == with_message(old(self)@.messages, message_id, chat_id@),
            final(self)@.sessions == old(self)@.sessions,
            final(self)@.project_id == old(self)@.project_id,
    {
        let ghost ms = self@.messages;
        match find_message(&self.message_to_chat, message_id) {
            Some(i) => {
                self.message_to_chat.set(i, (message_id, chat_id.to_owned()));
                assert(self@.messages =~= ms.update(i as int, (message_id, chat_id@)));
            },
            None => {
                self.message_to_chat.push((message_id, chat_id.to_owned()));
                assert(self@.messages =~= ms.push((message_id, chat_id@)));
            },
        }
    }

    /// The chat that sent message `message_id`.
    pub fn lookup_chat(&self, message_id: i64) -> (r: Option<String>)
        ensures
            r.deep_view() == reply_project(self@.messages, message_id),
    {
        match find_message(&self.message_to_chat, message_id) {
            Some(i) => Some(self.message_to_chat[i].1.clone()),
            None => None,
        }
    }

    /// Close chat `chat_id` and forget the messages it sent.
    pub fn remove_session(&mut self, chat_id: &str)
        ensures
            final(self)@.sessions == old(self)@.sessions.filter(other_chat(chat_id@)),
            final(self)@.messages == old(self)@.messages.filter(not_chat(chat_id@)),
            final(self)@.project_id == old(self)@.project_id,
    {
        let ghost ss = self@.sessions;
        let ghost sp = other_chat(chat_id@);
        let mut open: Vec<String> = Vec::new();
        proof { reveal(Seq::filter); }
        assert(ss.take(0) =~= Seq::<Seq<char>>::empty());
        assert(open.deep_view() =~= ss.take(0).filter(sp));
        let n = self.sessions.len();
        let mut i: usize = 0;
        while i < n
            invariant
                n == ss.len(),
                ss == self@.sessions,
                sp == other_chat(chat_id@),
                i <= n,
                open.deep_view() == ss.take(i as int).filter(sp),
            decreases n - i,
        {
            proof { reveal(Seq::filter); }
            assert(ss.take(i + 1).drop_last() =~= ss.take(i as int));
            assert(ss.take(i + 1).last() == self.sessions@[i as int]@);
            if !str_eq(self.sessions[i].as_str(), chat_id) {
                let ghost before = open.deep_view();
                open.push(self.sessions[i].clone());
                assert(open.deep_view() =~= before.push(ss[i as int]));
            }
            assert(open.deep_view() =~= ss.take(i + 1).filter(sp));
            i += 1;
        }
        assert(ss.take(n as int) =~= ss);
        self.sessions = open;
        let ghost ms = self@.messages;
        let ghost mp = not_chat(chat_id@);
        let mut kept: Vec<(i64, String)> = Vec::new();
        assert(ms.take(0) =~= Seq::<(i64, Seq<char>)>::empty());
        assert(kept@.map_values(|m: (i64, String)| (m.0, m.1@)) =~= ms.take(0).filter(mp));
        let m = self.message_to_chat.len();
        let mut j: usize = 0;
        while j < m
            invariant
                m == ms.len(),
                ms == self@.messages,
                m == self.message_to_chat@.len(),
                mp == not_chat(chat_id@),
                j <= m,
                kept@.map_values(|m: (i64, String)| (m.0, m.1@)) == ms.take(j as int).filter(mp),
            decreases m - j,
        {
            proof { reveal(Seq::filter); }
            let x = &self.message_to_chat[j];
            assert(ms.take(j + 1).drop_last() =~= ms.take(j as int));
            assert(ms.take(j + 1).last() == (x.0, x.1@));
            if !str_eq(x.1.as_str(), chat_id) {
                let ghost before = kept@.map_values(|m: (i64, String)| (m.0, m.1@));
                kept.push((x.0, x.1.clone()));
                assert(kept@.map_values(|m: (i64, String)| (m.0, m.1@)) =~= before.push((x.0, x.1@)));
            }
            assert(kept@.map_values(|m: (i64, String)| (m.0, m.1@)) =~= ms.take(j + 1).filter(mp));
            j += 1;
        }
        assert(ms.take(m as int) =~= ms);
        self.message_to_chat = kept;
    }
}

/// After a chat is closed it is not open, and no reply is routed to it.
pub proof fn law_removed_chat_gets_no_replies(s: Seq<Seq<char>>, ms: Seq<(i64, Seq<char>)>, c: Seq<char>, id: i64)
    ensures
        !s.filter(other_chat(c)).contains(c),
        reply_project(ms.filter(not_chat(c)), id) != Some(c),
{
    broadcast use Seq::lemma_filter_pred;
    let t = s.filter(other_chat(c));
    if t.contains(c) {
        let k = choose|k: int| 0 <= k < t.len() && t[k] == c;
        assert(other_chat(c)(t[k]));
    }
    let f = ms.filter(not_chat(c));
    lemma_message_index(f, id);
    match message_index(f, id) {
        Some(i) => {
            assert(not_chat(c)(f[i]));
        },
        None => {},
    }
}

} // verus!
