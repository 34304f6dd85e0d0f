//! Triage of chat updates while a run waits: which updates answer the run's
//! question, stop it, ask for its stats, or belong to another run and are
//! passed on through that run's inbox.

use vstd::prelude::*;
use crate::autorun::InboxMessage;
use crate::text::{
    find_char, first_match, has_prefix, is_char, lemma_first_match_valid, str_eq, strip_prefix_str, trim_spec,
    trim_str,
};

verus! {

/// What a run is waiting for while it polls.
#[derive(Debug, Clone, Copy, PartialEq, Eq, Structural)]
pub enum PollMode {
    /// A reply to the message `expected`.
    AwaitingReply { expected: i64 },
    /// The end of an agent run; only a kill matters.
    Executing,
}

/// One chat update.
#[derive(Debug)]
pub enum Update {
    /// A button press with its data, `action` or `action:project`.
    Button { chat_id: i64, data: String },
    /// A message, with its text and the message it replies to.
    Message { chat_id: i64, text: Option<String>, reply_to: Option<i64> },
}

/// Another run listed in the shared registry.
#[derive(Debug)]
pub struct Peer {
    pub project_id: String,
    pub expected_message_id: Option<i64>,
}

/// What to do with an update or inbox message.
#[derive(Debug)]
pub enum Triage {
    /// Nothing.
    Ignore,
    /// The awaited reply.
    Reply(String),
    /// Stop the run.
    Kill,
    /// Send this run's stats.
    SendStats,
    /// Send a reply prompt for `project`; with `track`, the prompt becomes
    /// the message whose reply that project awaits.
    PromptReply { project: String, track: bool },
    /// Pass the message on to the inbox of `project`.
    Route { project: String, message: InboxMessage },
    /// Clear the chat history.
    ClearHistory,
    /// Send the list of commands.
    SendHelp,
    /// Answer that the message was not understood, listing the runs.
    SendUnprocessed,
}

/// A peer as plain values.
pub ghost struct PeerV {
    pub project_id: Seq<char>,
    pub expected_message_id: Option<i64>,
}

/// An update as plain values.
pub ghost enum UpdateV {
    Button { chat_id: i64, data: Seq<char> },
    Message { chat_id: i64, text: Option<Seq<char>>, reply_to: Option<i64> },
}

/// An inbox message as plain values.
pub ghost enum InboxV {
    Reply { text: Seq<char> },
    Kill,
    Query,
}

/// A triage decision as plain values.
pub ghost enum TriageV {
    Ignore,
    Reply(Seq<char>),
    Kill,
    SendStats,
    PromptReply { project: Seq<char>, track: bool },
    Route { project: Seq<char>, message: InboxV },
    ClearHistory,
    SendHelp,
    SendUnprocessed,
}

impl View for Peer {
    type V = PeerV;

    open spec fn view(&self) -> PeerV {
        PeerV { project_id: self.project_id@, expected_message_id: self.expected_message_id }
    }
}

impl DeepView for Peer {
    type V = PeerV;

    open spec fn deep_view(&self) -> PeerV {
        self@
    }
}

impl View for Update {
    type V = UpdateV;

    open spec fn view(&self) -> UpdateV {
        match self {
            Update::Button { chat_id, data } => UpdateV::Button { chat_id: *chat_id, data: data@ },
            Update::Message { chat_id, text, reply_to } => UpdateV::Message {
                chat_id: *chat_id,
                text: match text {
                    Some(t) => Some(t@),
                    None => None,
                },
                reply_to: *reply_to,
            },
        }
    }
}

/// The value of an inbox message.
pub open spec fn inbox_view(m: InboxMessage) -> InboxV {
    match m {
        InboxMessage::Reply { text } => InboxV::Reply { text: text@ },
        InboxMessage::Kill => InboxV::Kill,
        InboxMessage::Query => InboxV::Query,
    }
}

impl View for Triage {
    type V = TriageV;

    open spec fn view(&self) -> TriageV {
        match self {
            Triage::Ignore => TriageV::Ignore,
            Triage::Reply(t) => TriageV::Reply(t@),
            Triage::Kill => TriageV::Kill,
            Triage::SendStats => TriageV::SendStats,
            Triage::PromptReply { project, track } => TriageV::PromptReply { project: project@, track: *track },
            Triage::Route { project, message } => TriageV::Route { project: project@, message: inbox_view(*message) },
            Triage::ClearHistory => TriageV::ClearHistory,
            Triage::SendHelp => TriageV::SendHelp,
            Triage::SendUnprocessed => TriageV::SendUnprocessed,
        }
    }
}

/// Project ids of the peers, in order.
pub open spec fn peer_ids(peers: Seq<PeerV>) -> Seq<Seq<char>> {
    peers.map_values(|p: PeerV| p.project_id)
}

/// The first peer that awaits a reply to message `id`, skipping the peer
/// `skip` when one is given.
pub open spec fn first_waiting(peers: Seq<PeerV>, id: i64, skip: Option<Seq<char>>) -> Option<int>
    decreases peers.len(),
{
    if peers.len() == 0 {
        None
    } else {
        match first_waiting(peers.drop_last(), id, skip) {
            Some(i) => Some(i),
            None => if peers.last().expected_message_id == Some(id) && skip != Some(peers.last().project_id) {
                Some(peers.len() - 1)
            } else {
                None
            },
        }
    }
}

/// Button data split at its first colon into action and target project.
pub open spec fn split_button(data: Seq<char>) -> (Seq<char>, Seq<char>) {
    match first_match(data, is_char(':')) {
        Some(i) => (data.take(i), data.skip(i + 1)),
        None => (data, seq![]),
    }
}

/// Button data written as `action:target`, with no colon in the action,
/// splits back into that action and target.
pub proof fn lemma_split_button(action: Seq<char>, target: Seq<char>)
    requires
        forall|i: int| 0 <= i < action.len() ==> action[i] != ':',
    ensures
        split_button(action + seq![':'] + target) == (action, target),
{
    let data = action + seq![':'] + target;
    let k = action.len() as int;
    assert forall|j: int| 0 <= j < k implies !is_char(':')(#[trigger] data[j]) by {
        assert(data[j] == action[j]);
    }
    assert(data[k] == ':');
    crate::text::lemma_first_match_at(data, is_char(':'), k);
    assert(data.take(k) =~= action);
    assert(data.skip(k + 1) =~= target);
}

/// A `/kill` or `/query` target: empty or this project's id means this run.
pub open spec fn targets_self(target: Seq<char>, pid: Seq<char>) -> bool {
    target.len() == 0 || target == pid
}

/// A command for another known run goes to its inbox; one for an unknown
/// run is dropped.
pub open spec fn route_to(peers: Seq<PeerV>, target: Seq<char>, m: InboxV) -> TriageV {
    if peer_ids(peers).contains(target) {
        TriageV::Route { project: target, message: m }
    } else {
        TriageV::Ignore
    }
}

/// The decision for a button press in this run's chat.
pub open spec fn button_triage(mode: PollMode, data: Seq<char>, pid: Seq<char>, peers: Seq<PeerV>) -> TriageV {
    let (action, target) = split_button(data);
    let track = mode is AwaitingReply;
    if target.len() > 0 && target != pid {
        if !peer_ids(peers).contains(target) {
            TriageV::Ignore
        } else if action == "kill"@ {
            TriageV::Route { project: target, message: InboxV::Kill }
        } else if action == "query"@ {
            TriageV::Route { project: target, message: InboxV::Query }
        } else if action == "reply"@ {
            TriageV::PromptReply { project: target, track }
        } else {
            TriageV::Ignore
        }
    } else if action == "kill"@ {
        TriageV::Kill
    } else if action == "query"@ {
        TriageV::SendStats
    } else if action == "reply"@ {
        TriageV::PromptReply { project: pid, track }
    } else {
        TriageV::Ignore
    }
}

/// The decision for a text message in this run's chat.
pub open spec fn text_triage(mode: PollMode, t: Seq<char>, reply_to: Option<i64>, pid: Seq<char>, peers: Seq<PeerV>) -> TriageV {
    if has_prefix(t, "/kill"@) {
        let target = trim_spec(t.skip(5));
        if targets_self(target, pid) {
            TriageV::Kill
        } else {
            route_to(peers, target, InboxV::Kill)
        }
    } else if has_prefix(t, "/query"@) {
        let target = trim_spec(t.skip(6));
        if targets_self(target, pid) {
            TriageV::SendStats
        } else {
            route_to(peers, target, InboxV::Query)
        }
    } else if has_prefix(t, "/clear"@) {
        TriageV::ClearHistory
    } else if has_prefix(t, "/commands"@) || has_prefix(t, "/start"@) || has_prefix(t, "/menu"@) {
        TriageV::SendHelp
    } else {
        match reply_to {
            None => TriageV::SendUnprocessed,
            Some(id) => {
                let (own, skip) = match mode {
                    PollMode::AwaitingReply { expected } => (id == expected, Some(pid)),
                    PollMode::Executing => (false, None),
                };
                if own {
                    TriageV::Reply(t)
                } else {
                    match first_waiting(peers, id, skip) {
                        Some(j) => TriageV::Route { project: peers[j].project_id, message: InboxV::Reply { text: t } },
                        None => TriageV::Ignore,
                    }
                }
            },
        }
    }
}

/// The decision for an update: updates from other chats and messages
/// without text are ignored.
pub open spec fn update_triage(mode: PollMode, u: UpdateV, chat: i64, pid: Seq<char>, peers: Seq<PeerV>) -> TriageV {
    match u {
        UpdateV::Button { chat_id, data } => if chat_id != chat {
            TriageV::Ignore
        } else {
            button_triage(mode, data, pid, peers)
        },
        UpdateV::Message { chat_id, text, reply_to } => if chat_id != chat {
            TriageV::Ignore
        } else {
            match text {
                None => TriageV::Ignore,
                Some(t) => text_triage(mode, t, reply_to, pid, peers),
            }
        },
    }
}

/// Whether a peer with project id `id` is listed.
fn has_peer(peers: &[Peer], id: &str) -> (r: bool)
    ensures
        r == peer_ids(peers.deep_view()).contains(id@),
{
    let ghost ids = peer_ids(peers.deep_view());
    let mut i: usize = 0;
    while i < peers.len()
        invariant
            ids == peer_ids(peers.deep_view()),
            i <= ids.len(),
            forall|k: int| 0 <= k < i ==> ids[k] != id@,
        decreases peers.len() - i,
    {
        assert(ids[i as int] == peers@[i as int].project_id@);
        if str_eq(peers[i].project_id.as_str(), id) {
            return true;
        }
        i += 1;
    }
    false
}

/// The first peer that awaits a reply to message `id`, skipping `skip`.
fn find_waiting(peers: &[Peer], id: i64, skip: Option<&str>) -> (r: Option<usize>)
    ensures
        match r {
            Some(j) => first_waiting(peers.deep_view(), id, match skip {
                Some(s) => Some(s@),
                None => None,
            }) == Some(j as int),
            None => first_waiting(peers.deep_view(), id, match skip {
                Some(s) => Some(s@),
                None => None,
            }) is None,
        },
{
    let ghost pv = peers.deep_view();
    let ghost sk = match skip {
        Some(s) => Some(s@),
        None => None::<Seq<char>>,
    };
    let mut i: usize = 0;
    assert(pv.take(0) =~= Seq::<PeerV>::empty());
    while i < peers.len()
        invariant
            pv == peers.deep_view(),
            sk == match skip {
                Some(s) => Some(s@),
                None => None::<Seq<char>>,
            },
            i <= pv.len(),
            first_waiting(pv.take(i as int), id, sk) is None,
        decreases peers.len() - i,
    {
        assert(pv.take(i + 1).drop_last() =~= pv.take(i as int));
        assert(pv.take(i + 1).last() == pv[i as int]);
        let skipped = match skip {
            Some(s) => str_eq(peers[i].project_id.as_str(), s),
            None => false,
        };
        if peers[i].expected_message_id == Some(id) && !skipped {
            assert(first_waiting(pv.take(i + 1), id, sk) == Some(i as int));
            proof { lemma_first_waiting_prefix(pv, id, sk, i + 1); }
            return Some(i);
        }
        i += 1;
    }
    assert(pv.take(i as int) =~= pv);
    None
}

proof fn lemma_first_waiting_prefix(peers: Seq<PeerV>, id: i64, skip: Option<Seq<char>>, k: int)
    requires
        0 <= k <= peers.len(),
        first_waiting(peers.take(k), id, skip) is Some,
    ensures
        first_waiting(peers, id, skip) == first_waiting(peers.take(k), id, skip),
    decreases peers.len(),
{
    if k == peers.len() {
        assert(peers.take(k) =~= peers);
    } else {
        assert(peers.drop_last().take(k) =~= peers.take(k));
        lemma_first_waiting_prefix(peers.drop_last(), id, skip, k);
    }
}

proof fn lemma_first_waiting_valid(peers: Seq<PeerV>, id: i64, skip: Option<Seq<char>>)
    ensures
        first_waiting(peers, id, skip) matches Some(j) ==> 0 <= j < peers.len(),
    decreases peers.len(),
{
    if peers.len() > 0 {
        lemma_first_waiting_valid(peers.drop_last(), id, skip);
    }
}

/// Decide on a button press in this run's chat.
fn triage_button(mode: PollMode, data: &str, project_id: &str, peers: &[Peer]) -> (r: Triage)
    ensures
        r@ == button_triage(mode, data@, project_id@, peers.deep_view()),
{
    let (action, target) = match find_char(data, ':') {
        Some(i) => {
            proof { lemma_first_match_valid(data@, is_char(':')); }
            let n = data.unicode_len();
            (data.substring_char(0, i), data.substring_char(i + 1, n))
        },
        None => (data, ""),
    };
    proof {
        reveal_strlit("");
        assert(split_button(data@).0 =~= action@);
        assert(split_button(data@).1 =~= target@);
    }
    let track = match mode {
        PollMode::AwaitingReply { .. } => true,
        PollMode::Executing => false,
    };
    if target.unicode_len() > 0 && !str_eq(target, project_id) {
        if !has_peer(peers, target) {
            Triage::Ignore
        } else if str_eq(action, "kill") {
            Triage::Route { project: target.to_owned(), message: InboxMessage::Kill }
        } else if str_eq(action, "query") {
            Triage::Route { project: target.to_owned(), message: InboxMessage::Query }
        } else if str_eq(action, "reply") {
            Triage::PromptReply { project: target.to_owned(), track }
        } else {
            Triage::Ignore
        }
    } else if str_eq(action, "kill") {
        Triage::Kill
    } else if str_eq(action, "query") {
        Triage::SendStats
    } else if str_eq(action, "reply") {
        Triage::PromptReply { project: project_id.to_owned(), track }
    } else {
        Triage::Ignore
    }
}

/// Decide on a text message in this run's chat.
fn triage_text(mode: PollMode, t: &str, reply_to: Option<i64>, project_id: &str, peers: &[Peer]) -> (r: Triage)
    ensures
        r@ == text_triage(mode, t@, reply_to, project_id@, peers.deep_view()),
{
    proof {
        reveal_strlit("/kill");
        reveal_strlit("/query");
    }
    if let Some(rest) = strip_prefix_str(t, "/kill") {
        let target = trim_str(rest);
        if target.unicode_len() == 0 || str_eq(target, project_id) {
            return Triage::Kill;
        }
        return if has_peer(peers, target) {
            Triage::Route { project: target.to_owned(), message: InboxMessage::Kill }
        } else {
            Triage::Ignore
        };
    }
    if let Some(rest) = strip_prefix_str(t, "/query") {
        let target = trim_str(rest);
        if target.unicode_len() == 0 || str_eq(target, project_id) {
            return Triage::SendStats;
        }
        return if has_peer(peers, target) {
            Triage::Route { project: target.to_owned(), message: InboxMessage::Query }
        } else {
            Triage::Ignore
        };
    }
    if strip_prefix_str(t, "/clear").is_some() {
        return Triage::ClearHistory;
    }
    if strip_prefix_str(t, "/commands").is_some() || strip_prefix_str(t, "/start").is_some() || strip_prefix_str(
        t,
        "/menu",
    ).is_some() {
        return Triage::SendHelp;
    }
    match reply_to {
        None => Triage::SendUnprocessed,
        Some(id) => {
            let (own, skip) = match mode {
                PollMode::AwaitingReply { expected } => (id == expected, Some(project_id)),
                PollMode::Executing => (false, None),
            };
            if own {
                Triage::Reply(t.to_owned())
            } else {
                proof {
                    lemma_first_waiting_valid(peers.deep_view(), id, match skip {
                        Some(s) => Some(s@),
                        None => None,
                    });
                }
                match find_waiting(peers, id, skip) {
                    Some(j) => Triage::Route {
                        project: peers[j].project_id.clone(),
                        message: InboxMessage::Reply { text: t.to_owned() },
                    },
                    None => Triage::Ignore,
                }
            }
        },
    }
}

/// Decide what to do with a chat update while a run polls, for the run of
/// project `project_id` in chat `chat_id` (see `update_triage`).
pub fn triage_update(mode: PollMode, update: &Update, chat_id: i64, project_id: &str, peers: &[Peer]) -> (r: Triage)
    ensures
        r@ == update_triage(mode, update@, chat_id, project_id@, peers.deep_view()),
{
    match update {
        Update::Button { chat_id: c, data } => {
            if *c != chat_id {
                Triage::Ignore
            } else {
                triage_button(mode, data.as_str(), project_id, peers)
            }
        },
        Update::Message { chat_id: c, text, reply_to } => {
            if *c != chat_id {
                return Triage::Ignore;
            }
            match text {
                None => Triage::Ignore,
                Some(t) => triage_text(mode, t.as_str(), *reply_to, project_id, peers),
            }
        },
    }
}

/// The decision for a message another run left in this run's inbox: a
/// reply answers only a run that awaits one; a kill stops; a query asks for
/// the stats.
pub open spec fn inbox_triage(mode: PollMode, m: InboxV) -> TriageV {
    match m {
        InboxV::Reply { text } => if mode is AwaitingReply {
            TriageV::Reply(text)
        } else {
            TriageV::Ignore
        },
        InboxV::Kill => TriageV::Kill,
        InboxV::Query => TriageV::SendStats,
    }
}

/// Decide what to do with a message from this run's inbox.
pub fn triage_inbox(mode: PollMode, message: InboxMessage) -> (r: Triage)
    ensures
        r@ == inbox_triage(mode, inbox_view(message)),
{
    match message {
        InboxMessage::Reply { text } => match mode {
            PollMode::AwaitingReply { .. } => Triage::Reply(text),
            PollMode::Executing => Triage::Ignore,
        },
        InboxMessage::Kill => Triage::Kill,
        InboxMessage::Query => Triage::SendStats,
    }
}

/// A run takes a chat message as its reply only while it awaits one, only
/// from its own chat, and only when the message replies to the awaited one;
/// and messages are passed on only to runs listed in the registry.
pub proof fn law_replies_reach_their_run(mode: PollMode, u: UpdateV, chat: i64, pid: Seq<char>, peers: Seq<PeerV>)
    ensures
        update_triage(mode, u, chat, pid, peers) is Reply ==> (mode matches PollMode::AwaitingReply { expected }
            && u matches UpdateV::Message { chat_id, reply_to, .. } && chat_id == chat && reply_to == Some(expected)),
        update_triage(mode, u, chat, pid, peers) matches TriageV::Route { project, .. } ==> peer_ids(peers).contains(project),
{
    match u {
        UpdateV::Message { chat_id, text: Some(t), reply_to: Some(id) } => {
            let skip = match mode {
                PollMode::AwaitingReply { .. } => Some(pid),
                PollMode::Executing => None,
            };
            lemma_first_waiting_valid(peers, id, skip);
            if let Some(j) = first_waiting(peers, id, skip) {
                assert(peer_ids(peers)[j] == peers[j].project_id);
            }
        },
        _ => {},
    }
}

/// How many earlier messages a history clear deletes below the marker
/// message `marker`: those from `marker - 1` down, at most 200, none below 1.
pub open spec fn cleared_count(marker: int) -> int {
    if marker - 1 <= 0 {
        0
    } else if marker - 1 > 200 {
        200
    } else {
        marker - 1
    }
}

/// The messages a history clear deletes, in order: the earlier ones from
/// the newest down, then the marker itself.
pub open spec fn cleared_messages(marker: i64) -> Seq<i64> {
    Seq::new(cleared_count(marker as int) as nat, |k: int| (marker - 1 - k) as i64).push(marker)
}

/// The ids to delete when clearing the chat history after sending the
/// marker message `marker_id`.
pub fn messages_to_clear(marker_id: i64) -> (r: Vec<i64>)
    ensures
        r@ == cleared_messages(marker_id),
{
    let mut out: Vec<i64> = Vec::new();
    if marker_id <= 1 {
        out.push(marker_id);
        assert(out@ =~= cleared_messages(marker_id));
        return out;
    }
    let ghost n = cleared_count(marker_id as int);
    let mut id: i64 = marker_id - 1;
    let mut taken: u32 = 0;
    while id >= 1 && taken < 200
        invariant
            id == marker_id - 1 - taken,
            0 <= taken <= 200,
            taken <= n,
            n == cleared_count(marker_id as int),
            out@ == Seq::new(taken as nat, |k: int| (marker_id - 1 - k) as i64),
            (id < 1 || taken == 200) ==> taken == n,
            id >= 1 && taken < 200 ==> taken < n,
        decreases 200 - taken,
    {
        let ghost before = out@;
        out.push(id);
        assert(out@ =~= Seq::new((taken + 1) as nat, |k: int| (marker_id - 1 - k) as i64));
        id = id - 1;
        taken = taken + 1;
    }
    assert(taken == n);
    let ghost body = out@;
    out.push(marker_id);
    assert(out@ =~= cleared_messages(marker_id));
    out
}

/// The acknowledgments sent when a reply to a run's question arrives.
pub open spec fn ack_responses() -> Seq<Seq<char>> {
    seq![
        "Copy that! Processing now..."@,
        "Got it! On it..."@,
        "Message received! Working on it..."@,
        "Roger that! Processing..."@,
        "Received! Putting the hamsters to work..."@,
        "Got your reply! Spinning up the gears..."@,
        "Acknowledged! Processing your input..."@,
        "Loud and clear! Getting to work..."@,
        "Reply captured! Crunching away..."@,
        "On it like a bonnet! Processing..."@,
        "Received loud and clear! Working..."@,
        "Copy copy! Processing now..."@,
        "Message in a bottle received! Working..."@,
        "Gotcha! Firing up the engines..."@,
        "Reply secured! Processing..."@,
        "Heard you! Computing away..."@,
        "Affirmative! Getting to work..."@,
        "Response captured! Processing..."@,
        "10-4 good buddy! On it..."@,
        "Read you 5 by 5! Processing..."@,
        "Message intercepted! Working on it..."@,
        "Input absorbed! Processing..."@,
        "Reply digested! Working..."@,
        "Signal received! Processing..."@,
        "Got your signal! Engines firing..."@,
        "Transmission received! Processing..."@,
        "Read and understood! Working..."@,
        "Input locked in! Processing..."@,
        "Reply banked! Getting to work..."@,
        "Confirmed! Processing your response..."@,
        "Logged and loaded! Working..."@,
        "Challenge accepted! Processing..."@,
        "Message decoded! On it..."@,
        "Consider it received! Processing..."@,
        "In the pipeline! Working..."@,
        "Captured! Processing your input..."@,
        "Response logged! Working on it..."@,
        "Game on! Processing..."@,
        "Received and caffeinated! Working..."@,
        "Your wish is my command! Processing..."@,
        "Locked in! Getting to work..."@,
        "Reply received! Neurons firing..."@,
        "Got the memo! Processing..."@,
        "Incoming processed! Working..."@,
        "Message secured! On it..."@,
        "Input acknowledged! Processing..."@,
        "Received! The wheels are turning..."@,
        "Copy that, processing at light speed..."@,
        "Reply in hand! Working on it..."@,
        "Noted and processing! Hang tight..."@,
    ]
}

/// The acknowledgment for a received reply, picked by the sub-second
/// nanoseconds of the clock, which the caller reads.
pub fn pick_ack_response(nanos: u32) -> (r: &'static str)
    ensures
        r@ == ack_responses()[(nanos % 50) as int],
{
    let table: [&str; 50] = [
        "Copy that! Processing now...",
        "Got it! On it...",
        "Message received! Working on it...",
        "Roger that! Processing...",
        "Received! Putting the hamsters to work...",
        "Got your reply! Spinning up the gears...",
        "Acknowledged! Processing your input...",
        "Loud and clear! Getting to work...",
        "Reply captured! Crunching away...",
        "On it like a bonnet! Processing...",
        "Received loud and clear! Working...",
        "Copy copy! Processing now...",
        "Message in a bottle received! Working...",
        "Gotcha! Firing up the engines...",
        "Reply secured! Processing...",
        "Heard you! Computing away...",
        "Affirmative! Getting to work...",
        "Response captured! Processing...",
        "10-4 good buddy! On it...",
        "Read you 5 by 5! Processing...",
        "Message intercepted! Working on it...",
        "Input absorbed! Processing...",
        "Reply digested! Working...",
        "Signal received! Processing...",
        "Got your signal! Engines firing...",
        "Transmission received! Processing...",
        "Read and understood! Working...",
        "Input locked in! Processing...",
        "Reply banked! Getting to work...",
        "Confirmed! Processing your response...",
        "Logged and loaded! Working...",
        "Challenge accepted! Processing...",
        "Message decoded! On it...",
        "Consider it received! Processing...",
        "In the pipeline! Working...",
        "Captured! Processing your input...",
        "Response logged! Working on it...",
        "Game on! Processing...",
        "Received and caffeinated! Working...",
        "Your wish is my command! Processing...",
        "Locked in! Getting to work...",
        "Reply received! Neurons firing...",
        "Got the memo! Processing...",
        "Incoming processed! Working...",
        "Message secured! On it...",
        "Input acknowledged! Processing...",
        "Received! The wheels are turning...",
        "Copy that, processing at light speed...",
        "Reply in hand! Working on it...",
        "Noted and processing! Hang tight...",
    ];
    let ghost tv = ack_responses();
    assert(table@.map_values(|s: &str| s@) =~= tv);
    let i = (nanos % 50) as usize;
    assert(table@[i as int]@ == tv[i as int]);
    table[i]
}

/// A kill or stats button for another listed run is passed on to that
/// run's inbox as the matching message; the same button for this run (or
/// with no target) is handled here: a kill stops this run, a stats request
/// sends this run's stats; a button for a run that is not listed is dropped.
pub proof fn law_buttons_reach_the_run_they_name(
    mode: PollMode,
    chat: i64,
    pid: Seq<char>,
    peers: Seq<PeerV>,
    kill: bool,
    target: Seq<char>,
)
    ensures
        ({
            let action = if kill { "kill"@ } else { "query"@ };
            let r = update_triage(mode, UpdateV::Button { chat_id: chat, data: action + seq![':'] + target }, chat, pid, peers);
            &&& (target.len() > 0 && target != pid && peer_ids(peers).contains(target)) ==> r == TriageV::Route {
                project: target,
                message: if kill { InboxV::Kill } else { InboxV::Query },
            }
            &&& (target.len() > 0 && target != pid && !peer_ids(peers).contains(target)) ==> r == TriageV::Ignore
            &&& (target.len() == 0 || target == pid) ==> r == if kill { TriageV::Kill } else { TriageV::SendStats }
        }),
{
    reveal_strlit("kill");
    reveal_strlit("query");
    reveal_strlit("reply");
    let action = if kill { "kill"@ } else { "query"@ };
    lemma_split_button(action, target);
}

/// A button from another chat is ignored, whatever it asks.
pub proof fn law_buttons_from_other_chats_ignored(mode: PollMode, chat: i64, other: i64, data: Seq<char>, pid: Seq<char>, peers: Seq<PeerV>)
    requires
        other != chat,
    ensures
        update_triage(mode, UpdateV::Button { chat_id: other, data }, chat, pid, peers) == TriageV::Ignore,
{
}

} // verus!
