//! The chat daemon's sessions: one agent session per project, and for each
//! message the daemon sent, the project whose session it belongs to, so that
//! a reply reaches that session. Times are given by the caller; spawning the
//! agent happens between `begin_invoke` and `finish_invoke`.

use vstd::prelude::*;
use crate::chat::{ReplyTo, ReplyToV};
use crate::schedule::addressing::{first_index_of, lemma_first_index_of, lemma_first_index_of_prefix};
use crate::schedule::types::clone_opt_string;
use crate::text::str_eq;

verus! {

/// The chat session of one project.
#[derive(Debug)]
pub struct ChatSession {
    pub project_id: String,
    pub project_dir: String,
    /// The agent's session, once one was started.
    pub claude_session_id: Option<String>,
    pub session_name: String,
    /// When the session was last used.
    pub last_activity: i64,
}

/// A session as plain values.
pub ghost struct SessionV {
    pub project_id: Seq<char>,
    pub project_dir: Seq<char>,
    pub claude_session_id: Option<Seq<char>>,
    pub session_name: Seq<char>,
    pub last_activity: i64,
}

impl View for ChatSession {
    type V = SessionV;

    open spec fn view(&self) -> SessionV {
        SessionV {
            project_id: self.project_id@,
            project_dir: self.project_dir@,
            claude_session_id: match self.claude_session_id {
                Some(s) => Some(s@),
                None => None,
            },
            session_name: self.session_name@,
            last_activity: self.last_activity,
        }
    }
}

impl ChatSession {
    fn duplicate(&self) -> (r: ChatSession)
        ensures
            r@ == self@,
    {
        ChatSession {
            project_id: self.project_id.clone(),
            project_dir: self.project_dir.clone(),
            claude_session_id: clone_opt_string(&self.claude_session_id),
            session_name: self.session_name.clone(),
            last_activity: self.last_activity,
        }
    }
}

/// The sessions and the routing of replies.
#[derive(Debug)]
pub struct SessionManager {
    pub sessions: Vec<ChatSession>,
    /// Message id and the project its session answered in it.
    pub message_to_project: Vec<(i64, String)>,
    /// The project the user last talked to.
    pub last_active: Option<String>,
}

/// The manager as plain values.
pub ghost struct ManagerV {
    pub sessions: Seq<SessionV>,
    pub messages: Seq<(i64, Seq<char>)>,
    pub last_active: Option<Seq<char>>,
}

impl View for SessionManager {
    type V = ManagerV;

    open spec fn view(&self) -> ManagerV {
        ManagerV {
            sessions: self.sessions@.map_values(|s: ChatSession| s@),
            messages: self.message_to_project@.map_values(|m: (i64, String)| (m.0, m.1@)),
            last_active: match self.last_active {
                Some(s) => Some(s@),
                None => None,
            },
        }
    }
}

/// The spawned agent's inputs for one chat turn.
#[derive(Debug)]
pub struct ChatInvocation {
    pub project_dir: String,
    pub claude_session_id: Option<String>,
    pub session_name: String,
}

/// Project ids of the sessions, in order.
pub open spec fn session_ids(ss: Seq<SessionV>) -> Seq<Seq<char>> {
    ss.map_values(|s: SessionV| s.project_id)
}

/// Where the session of `p` stands.
pub open spec fn session_index(ss: Seq<SessionV>, p: Seq<char>) -> Option<int> {
    first_index_of(session_ids(ss), p)
}

/// The name of a new project's session.
pub open spec fn session_name_of(p: Seq<char>) -> Seq<char> {
    "rex-chat-"@ + p
}

/// The sessions after asking for the session of `p`: a new one, last used
/// `now`, is added when `p` has none.
pub open spec fn with_session(ss: Seq<SessionV>, p: Seq<char>, dir: Seq<char>, now: i64) -> Seq<SessionV> {
    match session_index(ss, p) {
        Some(_) => ss,
        None => ss.push(
            SessionV { project_id: p, project_dir: dir, claude_session_id: None, session_name: session_name_of(p), last_activity: now },
        ),
    }
}

/// First place of message `id`.
pub open spec fn message_index(ms: Seq<(i64, Seq<char>)>, id: i64) -> Option<int>
    decreases ms.len(),
{
    if ms.len() == 0 {
        None
    } else {
        match message_index(ms.drop_last(), id) {
            Some(i) => Some(i),
            None => if ms.last().0 == id {
                Some(ms.len() - 1)
            } else {
                None
            },
        }
    }
}

pub proof fn lemma_message_index(ms: Seq<(i64, Seq<char>)>, id: i64)
    ensures
        message_index(ms, id) matches Some(i) ==> 0 <= i < ms.len() && ms[i].0 == id
            && forall|j: int| 0 <= j < i ==> (#[trigger] ms[j]).0 != id,
        message_index(ms, id) is None ==> forall|j: int| 0 <= j < ms.len() ==> (#[trigger] ms[j]).0 != id,
    decreases ms.len(),
{
    if ms.len() > 0 {
        let d = ms.drop_last();
        lemma_message_index(d, id);
        assert(forall|j: int| 0 <= j < d.len() ==> d[j] == ms[j]);
    }
}

proof fn lemma_message_index_prefix(ms: Seq<(i64, Seq<char>)>, id: i64, k: int)
    requires
        0 <= k <= ms.len(),
        message_index(ms.take(k), id) is Some,
    ensures
        message_index(ms, id) == message_index(ms.take(k), id),
    decreases ms.len(),
{
    if k == ms.len() {
        assert(ms.take(k) =~= ms);
    } else {
        assert(ms.drop_last().take(k) =~= ms.take(k));
        lemma_message_index_prefix(ms.drop_last(), id, k);
    }
}

/// The project a reply to message `id` goes to.
pub open spec fn reply_project(ms: Seq<(i64, Seq<char>)>, id: i64) -> Option<Seq<char>> {
    match message_index(ms, id) {
        Some(i) => Some(ms[i].1),
        None => None,
    }
}

/// The routing after recording that message `id` belongs to `p`; an earlier
/// record of `id` is replaced.
pub open spec fn with_message(ms: Seq<(i64, Seq<char>)>, id: i64, p: Seq<char>) -> Seq<(i64, Seq<char>)> {
    match message_index(ms, id) {
        Some(i) => ms.update(i, (id, p)),
        None => ms.push((id, p)),
    }
}

/// A session used at `cutoff` or later is kept.
pub open spec fn is_fresh(cutoff: i64) -> spec_fn(SessionV) -> bool {
    |s: SessionV| s.last_activity >= cutoff
}

/// A session last used before `cutoff` is stale.
pub open spec fn is_stale(cutoff: i64) -> spec_fn(SessionV) -> bool {
    |s: SessionV| s.last_activity < cutoff
}

/// The project ids of the stale sessions, in order.
pub open spec fn stale_ids(ss: Seq<SessionV>, cutoff: i64) -> Seq<Seq<char>> {
    session_ids(ss.filter(is_stale(cutoff)))
}

/// A message is kept when its project is none of `stale`.
pub open spec fn not_in(stale: Seq<Seq<char>>) -> spec_fn((i64, Seq<char>)) -> bool {
    |m: (i64, Seq<char>)| !stale.contains(m.1)
}

fn find_session(ss: &Vec<ChatSession>, p: &str) -> (r: Option<usize>)
    ensures
        match r {
            Some(k) => session_index(ss@.map_values(|s: ChatSession| s@), p@) == Some(k as int) && (k as int)
                < ss@.len() && ss@[k as int].project_id@ == p@,
            None => session_index(ss@.map_values(|s: ChatSession| s@), p@) is None,
        },
{
    let ghost ids = session_ids(ss@.map_values(|s: ChatSession| s@));
    let mut i: usize = 0;
    assert(ids.take(0) =~= Seq::<Seq<char>>::empty());
    while i < ss.len()
        invariant
            ids == session_ids(ss@.map_values(|s: ChatSession| s@)),
            ids.len() == ss@.len(),
            i <= ss@.len(),
            first_index_of(ids.take(i as int), p@) is None,
        decreases ss.len() - i,
    {
        assert(ids.take(i + 1).drop_last() =~= ids.take(i as int));
        assert(ids[i as int] == ss@[i as int].project_id@);
        if str_eq(ss[i].project_id.as_str(), p) {
            assert(first_index_of(ids.take(i + 1), p@) == Some(i as int));
            proof { lemma_first_index_of_prefix(ids, p@, i as int + 1); }
            return Some(i);
        }
        i += 1;
    }
    assert(ids.take(i as int) =~= ids);
    None
}

pub(crate) fn find_message(ms: &Vec<(i64, String)>, id: i64) -> (r: Option<usize>)
    ensures
        match r {
            Some(k) => message_index(ms@.map_values(|m: (i64, String)| (m.0, m.1@)), id) == Some(k as int)
                && (k as int) < ms@.len() && ms@[k as int].0 == id,
            None => message_index(ms@.map_values(|m: (i64, String)| (m.0, m.1@)), id) is None,
        },
{
    let ghost mv = ms@.map_values(|m: (i64, String)| (m.0, m.1@));
    let mut i: usize = 0;
    assert(mv.take(0) =~= Seq::<(i64, Seq<char>)>::empty());
    while i < ms.len()
        invariant
            mv == ms@.map_values(|m: (i64, String)| (m.0, m.1@)),
            mv.len() == ms@.len(),
            i <= ms@.len(),
            message_index(mv.take(i as int), id) is None,
        decreases ms.len() - i,
    {
        assert(mv.take(i + 1).drop_last() =~= mv.take(i as int));
        assert(mv[i as int].0 == ms@[i as int].0);
        if ms[i].0 == id {
            assert(message_index(mv.take(i + 1), id) == Some(i as int));
            proof { lemma_message_index_prefix(mv, id, i as int + 1); }
            return Some(i);
        }
        i += 1;
    }
    assert(mv.take(i as int) =~= mv);
    None
}

impl SessionManager {
    /// No sessions and no routed messages.
    pub fn new() -> (r: SessionManager)
        ensures
            r@.sessions.len() == 0,
            r@.messages.len() == 0,
            r@.last_active is None,
    {
        SessionManager { sessions: Vec::new(), message_to_project: Vec::new(), last_active: None }
    }

    /// Make sure `project_id` has a session, creating one last used `now`,
    /// and return its place among the sessions.
    pub fn get_or_create(&mut self, project_id: &str, project_dir: &str, now: i64) -> (r: usize)
        ensures
            final(self)@.sessions == with_session(old(self)@.sessions, project_id@, project_dir@, now),
            final(self)@.messages == old(self)@.messages,
            final(self)@.last_active == old(self)@.last_active,
            (r as int) < final(self)@.sessions.len(),
            final(self)@.sessions[r as int].project_id == project_id@,
    {
        let ghost ss = self@.sessions;
        match find_session(&self.sessions, project_id) {
            Some(i) => i,
            None => {
                let s = ChatSession {
                    project_id: project_id.to_owned(),
                    project_dir: project_dir.to_owned(),
                    claude_session_id: None,
                    session_name: "rex-chat-".to_owned().concat(project_id),
                    last_activity: now,
                };
                let ghost sv = s@;
                self.sessions.push(s);
                assert(self@.sessions =~= ss.push(sv));
                self.sessions.len() - 1
            },
        }
    }

    /// Record that message `msg_id` belongs to the session of `project_id`.
    pub fn register_message(&mut self, msg_id: i64, project_id: &str)
        ensures
            final(self)@.messages == with_message(old(self)@.messages, msg_id, project_id@),
            final(self)@.sessions == old(self)@.sessions,
            final(self)@.last_active == old(self)@.last_active,
    {
        let ghost ms = self@.messages;
        match find_message(&self.message_to_project, msg_id) {
            Some(i) => {
                self.message_to_project.set(i, (msg_id, project_id.to_owned()));
                assert(self@.messages =~= ms.update(i as int, (msg_id, project_id@)));
            },
            None => {
                self.message_to_project.push((msg_id, project_id.to_owned()));
                assert(self@.messages =~= ms.push((msg_id, project_id@)));
            },
        }
    }

    /// The project whose session sent message `reply_to_msg_id`.
    pub fn lookup_reply(&self, reply_to_msg_id: i64) -> (r: Option<&str>)
        ensures
            match r {
                Some(p) => reply_project(self@.messages, reply_to_msg_id) == Some(p@),
                None => reply_project(self@.messages, reply_to_msg_id) is None,
            },
    {
        match find_message(&self.message_to_project, reply_to_msg_id) {
            Some(i) => Some(self.message_to_project[i].1.as_str()),
            None => None,
        }
    }

    /// Whom a message replying to `reply_to` is for, as routing needs it.
    pub fn reply_target(&self, reply_to: Option<i64>) -> (r: ReplyTo)
        ensures
            r@ == match reply_to {
                None => ReplyToV::Nothing,
                Some(id) => match reply_project(self@.messages, id) {
                    Some(p) => ReplyToV::Known(p),
                    None => ReplyToV::Unknown,
                },
            },
    {
        match reply_to {
            None => ReplyTo::Nothing,
            Some(id) => match self.lookup_reply(id) {
                Some(p) => ReplyTo::Known(p.to_owned()),
                None => ReplyTo::Unknown,
            },
        }
    }

    /// Drop the sessions last used before `cutoff`, and the routing of the
    /// messages of their projects; return the dropped projects in order.
    pub fn cleanup_stale(&mut self, cutoff: i64) -> (r: Vec<String>)
        ensures
            r@.map_values(|s: String| s@) == stale_ids(old(self)@.sessions, cutoff),
            final(self)@.sessions == old(self)@.sessions.filter(is_fresh(cutoff)),
            final(self)@.messages == old(self)@.messages.filter(not_in(stale_ids(old(self)@.sessions, cutoff))),
            final(self)@.last_active == old(self)@.last_active,
    {
        let ghost ss = self@.sessions;
        let ghost fresh = is_fresh(cutoff);
        let ghost stale = is_stale(cutoff);
        let mut kept: Vec<ChatSession> = Vec::new();
        let mut gone: Vec<String> = Vec::new();
        proof { reveal(Seq::filter); }
        assert(ss.take(0) =~= Seq::<SessionV>::empty());
        assert(kept@.map_values(|s: ChatSession| s@) =~= ss.take(0).filter(fresh));
        assert(gone@.map_values(|s: String| s@) =~= session_ids(ss.take(0).filter(stale)));
        let n = self.sessions.len();
        let mut i: usize = 0;
        while i < n
            invariant
                n == ss.len(),
                ss == self@.sessions,
                n == self.sessions@.len(),
                fresh == is_fresh(cutoff),
                stale == is_stale(cutoff),
                i <= n,
                kept@.map_values(|s: ChatSession| s@) == ss.take(i as int).filter(fresh),
                gone@.map_values(|s: String| s@) == session_ids(ss.take(i as int).filter(stale)),
            decreases n - i,
        {
            proof { reveal(Seq::filter); }
            let s = &self.sessions[i];
            assert(ss.take(i + 1).drop_last() =~= ss.take(i as int));
            assert(ss.take(i + 1).last() == s@);
            let ghost kb = kept@.map_values(|s: ChatSession| s@);
            let ghost gb = ss.take(i as int).filter(stale);
            if s.last_activity >= cutoff {
                kept.push(s.duplicate());
                assert(kept@.map_values(|s: ChatSession| s@) =~= kb.push(s@));
                assert(ss.take(i + 1).filter(stale) == gb);
            } else {
                let ghost gv = gone@.map_values(|s: String| s@);
                gone.push(s.project_id.clone());
                assert(ss.take(i + 1).filter(stale) == gb.push(s@));
                assert(session_ids(gb.push(s@)) =~= session_ids(gb).push(s@.project_id));
                assert(gone@.map_values(|s: String| s@) =~= gv.push(s@.project_id));
            }
            assert(kept@.map_values(|s: ChatSession| s@) =~= ss.take(i + 1).filter(fresh));
            i += 1;
        }
        assert(ss.take(n as int) =~= ss);
        self.sessions = kept;
        let ghost sid = stale_ids(ss, cutoff);
        let ghost ms = self@.messages;
        let ghost pred = not_in(sid);
        let mut keep_msgs: Vec<(i64, String)> = Vec::new();
        assert(ms.take(0) =~= Seq::<(i64, Seq<char>)>::empty());
        assert(keep_msgs@.map_values(|m: (i64, String)| (m.0, m.1@)) =~= ms.take(0).filter(pred));
        let m = self.message_to_project.len();
        let mut j: usize = 0;
        while j < m
            invariant
                m == ms.len(),
                ms == self@.messages,
                m == self.message_to_project@.len(),
                sid == stale_ids(ss, cutoff),
                gone@.map_values(|s: String| s@) == sid,
                pred == not_in(sid),
                j <= m,
                keep_msgs@.map_values(|m: (i64, String)| (m.0, m.1@)) == ms.take(j as int).filter(pred),
            decreases m - j,
        {
            proof { reveal(Seq::filter); }
            let x = &self.message_to_project[j];
            assert(ms.take(j + 1).drop_last() =~= ms.take(j as int));
            assert(ms.take(j + 1).last() == (x.0, x.1@));
            let mut hit = false;
            let mut k: usize = 0;
            while k < gone.len()
                invariant
                    k <= gone@.len(),
                    gone@.map_values(|s: String| s@) == sid,
                    hit == (exists|a: int| 0 <= a < k && sid[a] == x.1@),
                decreases gone.len() - k,
            {
                assert(sid[k as int] == gone@[k as int]@);
                if str_eq(gone[k].as_str(), x.1.as_str()) {
                    hit = true;
                }
                k += 1;
            }
            assert(hit == sid.contains(x.1@));
            let ghost before = keep_msgs@.map_values(|m: (i64, String)| (m.0, m.1@));
            if !hit {
                keep_msgs.push((x.0, x.1.clone()));
                assert(keep_msgs@.map_values(|m: (i64, String)| (m.0, m.1@)) =~= before.push((x.0, x.1@)));
            }
            assert(keep_msgs@.map_values(|m: (i64, String)| (m.0, m.1@)) =~= ms.take(j + 1).filter(pred));
            j += 1;
        }
        assert(ms.take(m as int) =~= ms);
        self.message_to_project = keep_msgs;
        gone
    }

    /// Start a chat turn with `project_id`'s session: mark it used `now` and
    /// hand out what the agent needs; `None` when the project has no session.
    pub fn begin_invoke(&mut self, project_id: &str, now: i64) -> (r: Option<ChatInvocation>)
        ensures
            match session_index(old(self)@.sessions, project_id@) {
                Some(i) => {
                    let s = old(self)@.sessions[i];
                    &&& r matches Some(inv) && inv.project_dir@ == s.project_dir && inv.session_name@ == s.session_name
                        && inv.claude_session_id.deep_view() == s.claude_session_id
                    &&& final(self)@.sessions == old(self)@.sessions.update(i, SessionV { last_activity: now, ..s })
                },
                None => r is None && final(self)@.sessions == old(self)@.sessions,
            },
            final(self)@.messages == old(self)@.messages,
            final(self)@.last_active == old(self)@.last_active,
    {
        let ghost ss = self@.sessions;
        match find_session(&self.sessions, project_id) {
            Some(i) => {
                let mut s = self.sessions[i].duplicate();
                let inv = ChatInvocation {
                    project_dir: s.project_dir.clone(),
                    claude_session_id: clone_opt_string(&s.claude_session_id),
                    session_name: s.session_name.clone(),
                };
                s.last_activity = now;
                let ghost sv = s@;
                self.sessions.set(i, s);
                assert(self@.sessions =~= ss.update(i as int, sv));
                Some(inv)
            },
            None => None,
        }
    }

    /// Record the agent session that a chat turn of `project_id` ran in.
    pub fn finish_invoke(&mut self, project_id: &str, new_session_id: &str)
        ensures
            final(self)@.sessions == match session_index(old(self)@.sessions, project_id@) {
                Some(i) => old(self)@.sessions.update(
                    i,
                    SessionV { claude_session_id: Some(new_session_id@), ..old(self)@.sessions[i] },
                ),
                None => old(self)@.sessions,
            },
            final(self)@.messages == old(self)@.messages,
            final(self)@.last_active == old(self)@.last_active,
    {
        let ghost ss = self@.sessions;
        match find_session(&self.sessions, project_id) {
            Some(i) => {
                let mut s = self.sessions[i].duplicate();
                s.claude_session_id = Some(new_session_id.to_owned());
                let ghost sv = s@;
                self.sessions.set(i, s);
                assert(self@.sessions =~= ss.update(i as int, sv));
            },
            None => {},
        }
    }
}

/// Asking twice for a project's session gives one session: the second
/// request finds the first one's session and changes nothing.
pub proof fn law_one_session_per_project(ss: Seq<SessionV>, p: Seq<char>, dir: Seq<char>, now: i64, dir2: Seq<char>, now2: i64)
    ensures
        with_session(with_session(ss, p, dir, now), p, dir2, now2) == with_session(ss, p, dir, now),
{
    let t = with_session(ss, p, dir, now);
    lemma_first_index_of(session_ids(ss), p);
    if session_index(ss, p) is None {
        assert(session_ids(t).drop_last() =~= session_ids(ss));
        assert(session_ids(t).last() == p);
    }
}

/// A recorded message routes a reply to the project it was recorded for.
pub proof fn law_registered_message_routes_reply(ms: Seq<(i64, Seq<char>)>, id: i64, p: Seq<char>, other: i64)
    ensures
        reply_project(with_message(ms, id, p), id) == Some(p),
        other != id ==> reply_project(with_message(ms, id, p), other) == reply_project(ms, other),
{
    lemma_message_index(ms, id);
    lemma_message_index(ms, other);
    let t = with_message(ms, id, p);
    match message_index(ms, id) {
        Some(i) => {
            lemma_message_index(t, id);
            lemma_message_index(t, other);
            assert(t[i] == (id, p));
            match message_index(ms, other) {
                Some(j) => {
                    if other != id {
                        assert(t[j] == ms[j]);
                        assert forall|a: int| 0 <= a < j implies (#[trigger] t[a]).0 != other by {
                            if a != i {
                                assert(t[a] == ms[a]);
                            }
                        }
                    }
                },
                None => {
                    assert forall|a: int| 0 <= a < t.len() implies (#[trigger] t[a]).0 != other || other == id by {
                        if a != i {
                            assert(t[a] == ms[a]);
                        }
                    }
                },
            }
            assert forall|a: int| 0 <= a < i implies (#[trigger] t[a]).0 != id by {
                assert(t[a] == ms[a]);
            }
        },
        None => {
            assert(t.drop_last() =~= ms);
        },
    }
}

/// After a cleanup, no reply is routed to a project whose session was
/// dropped, and the routing of every other message is kept.
pub proof fn law_cleanup_forgets_dropped_sessions(ss: Seq<SessionV>, ms: Seq<(i64, Seq<char>)>, cutoff: i64)
    ensures
        forall|j: int|
            0 <= j < ms.filter(not_in(stale_ids(ss, cutoff))).len() ==> !stale_ids(ss, cutoff).contains(
                (#[trigger] ms.filter(not_in(stale_ids(ss, cutoff)))[j]).1,
            ),
        forall|j: int|
            0 <= j < ms.len() && !stale_ids(ss, cutoff).contains(#[trigger] ms[j].1) ==> ms.filter(
                not_in(stale_ids(ss, cutoff)),
            ).contains(ms[j]),
        forall|j: int|
            0 <= j < ss.filter(is_fresh(cutoff)).len() ==> (#[trigger] ss.filter(is_fresh(cutoff))[j]).last_activity
                >= cutoff,
{
    broadcast use Seq::lemma_filter_pred, Seq::lemma_filter_contains;
    let sid = stale_ids(ss, cutoff);
    assert forall|j: int| 0 <= j < ms.filter(not_in(sid)).len() implies !sid.contains(
        (#[trigger] ms.filter(not_in(sid))[j]).1,
    ) by {
        assert(not_in(sid)(ms.filter(not_in(sid))[j]));
    }
    assert forall|j: int| 0 <= j < ss.filter(is_fresh(cutoff)).len() implies (#[trigger] ss.filter(
        is_fresh(cutoff),
    )[j]).last_activity >= cutoff by {
        assert(is_fresh(cutoff)(ss.filter(is_fresh(cutoff))[j]));
    }
    assert forall|j: int| 0 <= j < ms.len() && !sid.contains(#[trigger] ms[j].1) implies ms.filter(
        not_in(sid),
    ).contains(ms[j]) by {
        assert(not_in(sid)(ms[j]));
    }
}

} // verus!
