//! What the chat daemon shows: the buttons of its project menu and of a
//! chat answer, the prompt of a chat turn, and how long a run has been up.

use vstd::prelude::*;
use crate::autorun::{escape_html, html_escaped};
use crate::chat::{shell_escape, shell_quoted};
use crate::text::{decimal, i32_to_decimal, signed_decimal, u64_to_decimal};

verus! {

/// A button under a chat message: its label and the data its press sends.
#[derive(Debug)]
pub struct InlineButton {
    pub text: String,
    pub callback_data: String,
}

impl View for InlineButton {
    type V = (Seq<char>, Seq<char>);

    open spec fn view(&self) -> (Seq<char>, Seq<char>) {
        (self.text@, self.callback_data@)
    }
}

/// Rows of buttons as plain values.
pub open spec fn rows_view(rows: Seq<Vec<InlineButton>>) -> Seq<Seq<(Seq<char>, Seq<char>)>> {
    rows.map_values(|r: Vec<InlineButton>| r@.map_values(|b: InlineButton| b@))
}

/// The buttons under a chat answer: reply to the project, or go to the menu.
pub open spec fn reply_row(p: Seq<char>) -> Seq<(Seq<char>, Seq<char>)> {
    seq![("💬 Reply"@, "rc_reply:"@ + p), ("🏠 Menu"@, "menu"@)]
}

/// The menu row of a running project: chat, status, stop.
pub open spec fn running_row(p: Seq<char>) -> Seq<(Seq<char>, Seq<char>)> {
    seq![("💬 "@ + p, "chat:"@ + p), ("📊"@, "status:"@ + p), ("🛑"@, "stop:"@ + p)]
}

/// The menu row of a project that is not running: start, chat.
pub open spec fn available_row(p: Seq<char>) -> Seq<(Seq<char>, Seq<char>)> {
    seq![("🚀 "@ + p, "start:"@ + p), ("💬 Chat"@, "chat:"@ + p)]
}

/// The menu: the running projects' rows in order, then the others' rows in
/// order.
pub open spec fn menu_rows(ps: Seq<(Seq<char>, bool)>) -> Seq<Seq<(Seq<char>, Seq<char>)>> {
    ps.filter(|x: (Seq<char>, bool)| x.1).map_values(|x: (Seq<char>, bool)| running_row(x.0)) + ps.filter(
        |x: (Seq<char>, bool)| !x.1,
    ).map_values(|x: (Seq<char>, bool)| available_row(x.0))
}

fn button(text: String, data: String) -> (r: InlineButton)
    ensures
        r@ == (text@, data@),
{
    InlineButton { text, callback_data: data }
}

/// The buttons under a chat answer from `project_id`.
pub fn chat_reply_buttons(project_id: &str) -> (r: Vec<Vec<InlineButton>>)
    ensures
        rows_view(r@) == seq![reply_row(project_id@)],
{
    let mut row: Vec<InlineButton> = Vec::new();
    row.push(button("💬 Reply".to_owned(), "rc_reply:".to_owned().concat(project_id)));
    row.push(button("🏠 Menu".to_owned(), "menu".to_owned()));
    assert(row@.map_values(|b: InlineButton| b@) =~= reply_row(project_id@));
    let mut rows: Vec<Vec<InlineButton>> = Vec::new();
    rows.push(row);
    assert(rows_view(rows@) =~= seq![reply_row(project_id@)]);
    rows
}

fn project_row(p: &str, running: bool) -> (r: Vec<InlineButton>)
    ensures
        r@.map_values(|b: InlineButton| b@) == if running { running_row(p@) } else { available_row(p@) },
{
    let mut row: Vec<InlineButton> = Vec::new();
    if running {
        row.push(button("💬 ".to_owned().concat(p), "chat:".to_owned().concat(p)));
        row.push(button("📊".to_owned(), "status:".to_owned().concat(p)));
        row.push(button("🛑".to_owned(), "stop:".to_owned().concat(p)));
        assert(row@.map_values(|b: InlineButton| b@) =~= running_row(p@));
    } else {
        row.push(button("🚀 ".to_owned().concat(p), "start:".to_owned().concat(p)));
        row.push(button("💬 Chat".to_owned(), "chat:".to_owned().concat(p)));
        assert(row@.map_values(|b: InlineButton| b@) =~= available_row(p@));
    }
    row
}

/// The pairs as plain values.
pub open spec fn projects_view(ps: Seq<(String, bool)>) -> Seq<(Seq<char>, bool)> {
    ps.map_values(|x: (String, bool)| (x.0@, x.1))
}

fn rows_of(projects: &[(String, bool)], running: bool) -> (r: Vec<Vec<InlineButton>>)
    ensures
        rows_view(r@) == projects_view(projects@).filter(|x: (Seq<char>, bool)| x.1 == running).map_values(
            |x: (Seq<char>, bool)| if running { running_row(x.0) } else { available_row(x.0) },
        ),
{
    let ghost pv = projects_view(projects@);
    let ghost pred = |x: (Seq<char>, bool)| x.1 == running;
    let ghost f = |x: (Seq<char>, bool)| if running { running_row(x.0) } else { available_row(x.0) };
    let mut rows: Vec<Vec<InlineButton>> = Vec::new();
    proof { reveal(Seq::filter); }
    assert(pv.take(0) =~= Seq::<(Seq<char>, bool)>::empty());
    assert(rows_view(rows@) =~= pv.take(0).filter(pred).map_values(f));
    let mut i: usize = 0;
    while i < projects.len()
        invariant
            pv == projects_view(projects@),
            pv.len() == projects@.len(),
            pred == (|x: (Seq<char>, bool)| x.1 == running),
            f == (|x: (Seq<char>, bool)| if running { running_row(x.0) } else { available_row(x.0) }),
            i <= pv.len(),
            rows_view(rows@) == pv.take(i as int).filter(pred).map_values(f),
        decreases projects.len() - i,
    {
        proof { reveal(Seq::filter); }
        assert(pv.take(i + 1).drop_last() =~= pv.take(i as int));
        assert(pv.take(i + 1).last() == pv[i as int]);
        let ghost before = pv.take(i as int).filter(pred);
        if projects[i].1 == running {
            let row = project_row(projects[i].0.as_str(), running);
            let ghost rv = rows_view(rows@);
            rows.push(row);
            assert(pv.take(i + 1).filter(pred) == before.push(pv[i as int]));
            assert(rows_view(rows@) =~= rv.push(f(pv[i as int])));
            assert(before.push(pv[i as int]).map_values(f) =~= before.map_values(f).push(f(pv[i as int])));
        } else {
            assert(pv.take(i + 1).filter(pred) == before);
        }
        i += 1;
    }
    assert(pv.take(i as int) =~= pv);
    rows
}

/// The buttons of the project menu for `projects`, each an id and whether
/// an autorun is running for it.
pub fn menu_buttons(projects: &[(String, bool)]) -> (r: Vec<Vec<InlineButton>>)
    ensures
        rows_view(r@) == menu_rows(projects_view(projects@)),
{
    let mut rows = rows_of(projects, true);
    let mut rest = rows_of(projects, false);
    let ghost a = rows_view(rows@);
    let ghost b = rows_view(rest@);
    rows.append(&mut rest);
    let ghost pv = projects_view(projects@);
    assert((|x: (Seq<char>, bool)| x.1 == true) =~= (|x: (Seq<char>, bool)| x.1));
    assert((|x: (Seq<char>, bool)| x.1 == false) =~= (|x: (Seq<char>, bool)| !x.1));
    assert(pv.filter(|x: (Seq<char>, bool)| x.1).map_values(
        |x: (Seq<char>, bool)| if true { running_row(x.0) } else { available_row(x.0) },
    ) =~= pv.filter(|x: (Seq<char>, bool)| x.1).map_values(|x: (Seq<char>, bool)| running_row(x.0)));
    assert(pv.filter(|x: (Seq<char>, bool)| !x.1).map_values(
        |x: (Seq<char>, bool)| if false { running_row(x.0) } else { available_row(x.0) },
    ) =~= pv.filter(|x: (Seq<char>, bool)| !x.1).map_values(|x: (Seq<char>, bool)| available_row(x.0)));
    assert(rows_view(rows@) =~= a + b);
    rows
}

/// The prompt of a chat turn.
pub open spec fn chat_prompt_text(p: Seq<char>, dir: Seq<char>, message: Seq<char>) -> Seq<char> {
    "Project \""@ + p + "\" at "@ + dir + ".\n\nUser's message: "@ + message
}

/// The prompt handed to the agent for a chat turn with `project_id`.
pub fn chat_prompt(project_id: &str, project_dir: &str, message: &str) -> (r: String)
    ensures
        r@ == chat_prompt_text(project_id@, project_dir@, message@),
{
    let r = "Project \"".to_owned().concat(project_id).concat("\" at ").concat(project_dir).concat(
        ".\n\nUser's message: ",
    ).concat(message);
    r
}

/// How long a run has been up, from its elapsed seconds: `"{h}h {m}m"` from
/// an hour on, else `"{m}m"`; a negative time counts as none.
pub open spec fn elapsed_text(secs: int) -> Seq<char> {
    let total = if secs < 0 { 0 } else { secs };
    let hours = total / 3600;
    let mins = (total % 3600) / 60;
    if hours > 0 {
        decimal(hours as nat) + "h "@ + decimal(mins as nat) + "m"@
    } else {
        decimal(mins as nat) + "m"@
    }
}

/// Render the uptime of a run that has been up `elapsed_secs` seconds.
pub fn format_elapsed(elapsed_secs: i64) -> (r: String)
    ensures
        r@ == elapsed_text(elapsed_secs as int),
{
    let total: u64 = if elapsed_secs < 0 { 0 } else { elapsed_secs as u64 };
    let hours = total / 3600;
    let mins = (total % 3600) / 60;
    if hours > 0 {
        u64_to_decimal(hours).concat("h ").concat(u64_to_decimal(mins).as_str()).concat("m")
    } else {
        u64_to_decimal(mins).concat("m")
    }
}

/// The notice that a project is unknown.
pub open spec fn not_found_text(p: Seq<char>) -> Seq<char> {
    "❌ Project <code>"@ + html_escaped(p) + "</code> not found"@
}

/// The shell command that starts an autorun in the background.
pub open spec fn launch_command(dir: Seq<char>) -> Seq<char> {
    "nohup rex-autorun --project-dir "@ + seq!['\''] + shell_quoted(dir) + seq!['\''] + " > /dev/null 2>&1 &"@
}

/// What starting an autorun from the chat does.
#[derive(Debug)]
pub enum StartStep {
    /// Only tell the user this.
    Notify(String),
    /// Run `command`; on success tell the user `started`.
    Launch { command: String, started: String },
}

/// A start step as plain values.
pub ghost enum StartStepV {
    Notify(Seq<char>),
    Launch { command: Seq<char>, started: Seq<char> },
}

impl View for StartStep {
    type V = StartStepV;

    open spec fn view(&self) -> StartStepV {
        match self {
            StartStep::Notify(t) => StartStepV::Notify(t@),
            StartStep::Launch { command, started } => StartStepV::Launch { command: command@, started: started@ },
        }
    }
}

/// The start step for project `p`, found at `dir` or not, running or not.
pub open spec fn start_step_of(p: Seq<char>, dir: Option<Seq<char>>, running: bool) -> StartStepV {
    match dir {
        None => StartStepV::Notify(not_found_text(p)),
        Some(d) => if running {
            StartStepV::Notify("⚠️ <code>"@ + html_escaped(p) + "</code> is already running"@)
        } else {
            StartStepV::Launch {
                command: launch_command(d),
                started: "🚀 Started autorun for <code>"@ + html_escaped(p) + "</code>"@,
            }
        },
    }
}

/// Decide how to start the autorun of `project_id`: its directory, if the
/// project was found, and whether a run's state file is there.
pub fn start_step(project_id: &str, project_dir: Option<&str>, running: bool) -> (r: StartStep)
    ensures
        r@ == start_step_of(project_id@, crate::bundle::merge::opt_view(project_dir), running),
{
    let pid = escape_html(project_id);
    match project_dir {
        None => StartStep::Notify("❌ Project <code>".to_owned().concat(pid.as_str()).concat("</code> not found")),
        Some(d) => {
            if running {
                StartStep::Notify("⚠️ <code>".to_owned().concat(pid.as_str()).concat("</code> is already running"))
            } else {
                let q = shell_escape(d);
                let command = "nohup rex-autorun --project-dir ".to_owned().concat(q.as_str()).concat(
                    " > /dev/null 2>&1 &",
                );
                assert(command@ =~= launch_command(d@));
                StartStep::Launch {
                    command,
                    started: "🚀 Started autorun for <code>".to_owned().concat(pid.as_str()).concat("</code>"),
                }
            }
        },
    }
}

/// The notice that the launch of `p`'s autorun failed with `err`.
pub fn launch_failed_text(project_id: &str, err: &str) -> (r: String)
    ensures
        r@ == "❌ Failed to start autorun for <code>"@ + html_escaped(project_id@) + "</code>: "@ + html_escaped(err@),
{
    let pid = escape_html(project_id);
    let e = escape_html(err);
    "❌ Failed to start autorun for <code>".to_owned().concat(pid.as_str()).concat("</code>: ").concat(e.as_str())
}

/// What stopping an autorun from the chat does.
#[derive(Debug)]
pub enum StopStep {
    /// Only tell the user this.
    Notify(String),
    /// Send SIGTERM to process group `pgid`, then tell the user `text`.
    Signal { pgid: i32, text: String },
}

/// A stop step as plain values.
pub ghost enum StopStepV {
    Notify(Seq<char>),
    Signal { pgid: i32, text: Seq<char> },
}

impl View for StopStep {
    type V = StopStepV;

    open spec fn view(&self) -> StopStepV {
        match self {
            StopStep::Notify(t) => StopStepV::Notify(t@),
            StopStep::Signal { pgid, text } => StopStepV::Signal { pgid: *pgid, text: text@ },
        }
    }
}

/// The stop step for project `p`: found or not, and the process group its
/// run's state file records, if there is a state file.
pub open spec fn stop_step_of(p: Seq<char>, found: bool, state: Option<Option<i32>>) -> StopStepV {
    if !found {
        StopStepV::Notify(not_found_text(p))
    } else {
        match state {
            None => StopStepV::Notify("❌ <code>"@ + html_escaped(p) + "</code> doesn't appear to be running"@),
            Some(None) => StopStepV::Notify("❌ <code>"@ + html_escaped(p) + "</code> has no active process group"@),
            Some(Some(g)) => StopStepV::Signal {
                pgid: g,
                text: "🛑 Sent SIGTERM to <code>"@ + html_escaped(p) + "</code> (pgid "@ + signed_decimal(g as int) + ")"@,
            },
        }
    }
}

/// Decide how to stop the autorun of `project_id`.
pub fn stop_step(project_id: &str, found: bool, state: Option<Option<i32>>) -> (r: StopStep)
    ensures
        r@ == stop_step_of(project_id@, found, state),
{
    let pid = escape_html(project_id);
    if !found {
        return StopStep::Notify("❌ Project <code>".to_owned().concat(pid.as_str()).concat("</code> not found"));
    }
    match state {
        None => StopStep::Notify("❌ <code>".to_owned().concat(pid.as_str()).concat("</code> doesn't appear to be running")),
        Some(None) => StopStep::Notify(
            "❌ <code>".to_owned().concat(pid.as_str()).concat("</code> has no active process group"),
        ),
        Some(Some(g)) => StopStep::Signal {
            pgid: g,
            text: "🛑 Sent SIGTERM to <code>".to_owned().concat(pid.as_str()).concat("</code> (pgid ").concat(
                i32_to_decimal(g).as_str(),
            ).concat(")"),
        },
    }
}

/// The status lines shown while the agent works on a chat turn.
pub open spec fn thinking_messages() -> Seq<Seq<char>> {
    seq![
        "Thinking..."@,
        "On it..."@,
        "Working on it..."@,
        "Let me look into that..."@,
        "Digging in..."@,
        "Give me a moment..."@,
        "Processing..."@,
        "Looking into it..."@,
        "One sec..."@,
        "Checking..."@,
        "Pulling up the details..."@,
        "Investigating..."@,
        "Hang tight..."@,
        "Let me check..."@,
        "Spinning up..."@,
        "Crunching..."@,
        "Searching the codebase..."@,
        "Reading the code..."@,
        "Analyzing..."@,
        "Diving in..."@,
        "Looking around..."@,
        "Running through it..."@,
        "Figuring it out..."@,
        "Browsing the project..."@,
        "Scanning..."@,
        "Taking a look..."@,
        "Getting the context..."@,
        "Picking up where we left off..."@,
        "Loading context..."@,
        "Rifling through the code..."@,
        "Parsing your request..."@,
        "Consulting the source..."@,
        "Let me see..."@,
        "Poking around..."@,
        "Tracing through..."@,
        "Gathering info..."@,
        "Sifting through the files..."@,
        "Assembling an answer..."@,
        "Bear with me..."@,
        "Reviewing the code..."@,
        "Mapping it out..."@,
        "Following the trail..."@,
        "Chasing that down..."@,
        "Pulling threads..."@,
        "Wiring it together..."@,
        "Reading up..."@,
        "Checking the source..."@,
        "Almost there..."@,
        "Connecting the dots..."@,
        "Mulling it over..."@,
    ]
}

/// The status line for a chat turn, picked by the sub-second nanoseconds
/// of the clock, which the caller reads.
pub fn thinking_message(nanos: u32) -> (r: &'static str)
    ensures
        r@ == thinking_messages()[(nanos % 50) as int],
{
    let table: [&str; 50] = [
        "Thinking...",
        "On it...",
        "Working on it...",
        "Let me look into that...",
        "Digging in...",
        "Give me a moment...",
        "Processing...",
        "Looking into it...",
        "One sec...",
        "Checking...",
        "Pulling up the details...",
        "Investigating...",
        "Hang tight...",
        "Let me check...",
        "Spinning up...",
        "Crunching...",
        "Searching the codebase...",
        "Reading the code...",
        "Analyzing...",
        "Diving in...",
        "Looking around...",
        "Running through it...",
        "Figuring it out...",
        "Browsing the project...",
        "Scanning...",
        "Taking a look...",
        "Getting the context...",
        "Picking up where we left off...",
        "Loading context...",
        "Rifling through the code...",
        "Parsing your request...",
        "Consulting the source...",
        "Let me see...",
        "Poking around...",
        "Tracing through...",
        "Gathering info...",
        "Sifting through the files...",
        "Assembling an answer...",
        "Bear with me...",
        "Reviewing the code...",
        "Mapping it out...",
        "Following the trail...",
        "Chasing that down...",
        "Pulling threads...",
        "Wiring it together...",
        "Reading up...",
        "Checking the source...",
        "Almost there...",
        "Connecting the dots...",
        "Mulling it over...",
    ];
    let ghost tv = thinking_messages();
    assert(table@.map_values(|s: &str| s@) =~= tv);
    let i = (nanos % 50) as usize;
    assert(table@[i as int]@ == tv[i as int]);
    table[i]
}

} // verus!
