//! Show a markdown document in a browser through the ui-leaf bridge.
//!
//! The bridge is a Node script: it is sent one JSON request line and answers
//! with JSON event lines (`ready`, `closed`, `error`). Running it and the
//! JSON encoding belong to the program; this module builds the request and
//! decides what each answer means.
use crate::strings::{concat2, concat3, owned, trim, trim_str};
use vstd::prelude::*;

verus! {

/// The document part of a bridge request.
#[derive(Clone, Debug)]
pub struct BridgeData {
    pub markdown: String,
    pub title: Option<String>,
}

/// A request to the bridge: which view to show, and its data.
#[derive(Clone, Debug)]
pub struct BridgeRequest {
    pub view: String,
    pub data: BridgeData,
    pub title: Option<String>,
}

/// An event reported by the bridge.
#[derive(Clone, Debug)]
pub enum BridgeEvent {
    Ready { url: String, port: u16 },
    Closed,
    Error { message: String },
}

/// What to do after a bridge event.
#[derive(Clone, Debug)]
pub enum BridgeAction {
    /// Tell the user this, and keep listening.
    Announce(String),
    /// The view was closed: stop listening.
    Stop,
    /// The bridge failed: wait for it, then fail with this message.
    Fail(String),
    /// Nothing to do: keep listening.
    Skip,
}

/// An optional borrowed string as plain text.
pub open spec fn opt_str_view(o: Option<&str>) -> Option<Seq<char>> {
    match o {
        Some(s) => Some(s@),
        None => None,
    }
}

/// An optional string as plain text.
pub open spec fn opt_string_view(o: Option<String>) -> Option<Seq<char>> {
    match o {
        Some(s) => Some(s@),
        None => None,
    }
}

fn owned_opt(o: Option<&str>) -> (r: Option<String>)
    ensures
        opt_string_view(r) == opt_str_view(o),
{
    match o {
        Some(s) => Some(owned(s)),
        None => None,
    }
}

/// The request that shows `markdown` in the `spec` view, titled `title`.
pub fn spec_request(markdown: &str, title: Option<&str>) -> (r: BridgeRequest)
    ensures
        r.view@ == "spec"@,
        r.data.markdown@ == markdown@,
        opt_string_view(r.data.title) == opt_str_view(title),
        opt_string_view(r.title) == opt_str_view(title),
{
    BridgeRequest {
        view: owned("spec"),
        data: BridgeData { markdown: owned(markdown), title: owned_opt(title) },
        title: owned_opt(title),
    }
}

/// Whether a line from the bridge carries an event (blank lines do not).
pub fn is_event_line(line: &str) -> (b: bool)
    ensures
        b == (trim(line@).len() > 0),
{
    let t = trim_str(line);
    t.as_str().unicode_len() > 0
}

/// What each event means: `ready` is announced with its URL, `closed` ends
/// the session, `error` fails it with the bridge's message.
pub fn on_event(ev: BridgeEvent) -> (a: BridgeAction)
    ensures
        match ev {
            BridgeEvent::Ready { url, .. } => a matches BridgeAction::Announce(m) && m@
                == "oaudit: view ready at "@ + url@ + " (close the tab to exit)"@,
            BridgeEvent::Closed => a is Stop,
            BridgeEvent::Error { message } => a matches BridgeAction::Fail(m) && m@
                == "ui-leaf bridge error: "@ + message@,
        },
{
    match ev {
        BridgeEvent::Ready { url, port } => BridgeAction::Announce(
            concat3("oaudit: view ready at ", url.as_str(), " (close the tab to exit)"),
        ),
        BridgeEvent::Closed => BridgeAction::Stop,
        BridgeEvent::Error { message } => BridgeAction::Fail(
            concat2("ui-leaf bridge error: ", message.as_str()),
        ),
    }
}

// ---------------------------------------------------------------------------
// A whole session with the bridge
// ---------------------------------------------------------------------------
/// A line from the bridge, as plain values.
pub enum LineModel {
    /// Blank: carries no event.
    Blank,
    /// Not an event: the line and why it did not parse.
    Bad(Seq<char>, Seq<char>),
    /// The view is ready at this URL.
    Ready(Seq<char>),
    /// The view was closed.
    Closed,
    /// The bridge failed with this message.
    Error(Seq<char>),
}

/// Where a session stands.
pub enum SessionState {
    /// Still listening.
    Open,
    /// The view was closed.
    Closed,
    /// The session failed with this message.
    Failed(String),
}

/// Where a session stands, as plain values.
pub enum StateModel {
    Open,
    Closed,
    Failed(Seq<char>),
}

/// The state as plain values.
pub open spec fn state_model(s: SessionState) -> StateModel {
    match s {
        SessionState::Open => StateModel::Open,
        SessionState::Closed => StateModel::Closed,
        SessionState::Failed(m) => StateModel::Failed(m@),
    }
}

/// Where a session stands after these lines: it listens until a line closes
/// the view or fails the session; blank lines and `ready` keep it open.
pub open spec fn session_state(lines: Seq<LineModel>) -> StateModel
    decreases lines.len(),
{
    if lines.len() == 0 {
        StateModel::Open
    } else {
        match session_state(lines.drop_last()) {
            StateModel::Open => match lines.last() {
                LineModel::Blank => StateModel::Open,
                LineModel::Ready(_) => StateModel::Open,
                LineModel::Closed => StateModel::Closed,
                LineModel::Bad(l, d) => StateModel::Failed(
                    "parsing bridge event line: "@ + l + ": "@ + d,
                ),
                LineModel::Error(m) => StateModel::Failed("ui-leaf bridge error: "@ + m),
            },
            other => other,
        }
    }
}

/// The outcome of a whole session: its failure if a line failed it, else
/// success exactly when the bridge exited successfully (`status` is how
/// its exit status displays).
pub open spec fn session_outcome(lines: Seq<LineModel>, success: bool, status: Seq<char>) -> Result<(), Seq<char>> {
    match session_state(lines) {
        StateModel::Failed(m) => Err(m),
        _ => if success {
            Ok(())
        } else {
            Err("bridge exited with status "@ + status)
        },
    }
}

/// A session with the bridge: what it has read so far, and where it stands.
pub struct BridgeSession {
    pub state: SessionState,
    /// The lines read so far.
    pub lines: Ghost<Seq<LineModel>>,
}

/// What the bridge's JSON decoder made of a line, as plain values.
pub open spec fn line_model(line: Seq<char>, parsed: Result<BridgeEvent, String>) -> LineModel {
    if trim(line).len() == 0 {
        LineModel::Blank
    } else {
        match parsed {
            Err(d) => LineModel::Bad(line, d@),
            Ok(BridgeEvent::Ready { url, .. }) => LineModel::Ready(url@),
            Ok(BridgeEvent::Closed) => LineModel::Closed,
            Ok(BridgeEvent::Error { message }) => LineModel::Error(message@),
        }
    }
}

impl BridgeSession {
    /// A session that has read nothing.
    pub fn new() -> (s: Self)
        ensures
            s.lines@.len() == 0,
            s.state is Open,
    {
        BridgeSession { state: SessionState::Open, lines: Ghost(Seq::empty()) }
    }

    /// The state follows the lines read.
    pub open spec fn wf(&self) -> bool {
        state_model(self.state) == session_state(self.lines@)
    }

    /// Reads one more line: `parsed` is what decoding it as an event gave
    /// (unused for a blank line). What to do next follows [`on_event`]; a
    /// line that is not an event fails the session.
    pub fn feed(&mut self, line: &str, parsed: Result<BridgeEvent, String>) -> (a: BridgeAction)
        requires
            old(self).wf(),
            old(self).state is Open,
        ensures
            final(self).wf(),
            final(self).lines@ == old(self).lines@.push(line_model(line@, parsed)),
            match line_model(line@, parsed) {
                LineModel::Blank => a matches BridgeAction::Skip,
                LineModel::Ready(url) => a matches BridgeAction::Announce(m) && m@
                    == "oaudit: view ready at "@ + url + " (close the tab to exit)"@,
                LineModel::Closed => a is Stop,
                LineModel::Bad(l, d) => a matches BridgeAction::Fail(m) && m@
                    == "parsing bridge event line: "@ + l + ": "@ + d,
                LineModel::Error(msg) => a matches BridgeAction::Fail(m) && m@
                    == "ui-leaf bridge error: "@ + msg,
            },
    {
        let ghost lm = line_model(line@, parsed);
        proof {
            assert(self.lines@.push(lm).drop_last() =~= self.lines@);
        }
        self.lines = Ghost(self.lines@.push(lm));
        if !is_event_line(line) {
            return BridgeAction::Skip;
        }
        let a = match parsed {
            Err(d) => {
                let mut m = String::from_str("parsing bridge event line: ");
                m.append(line);
                m.append(": ");
                m.append(d.as_str());
                BridgeAction::Fail(m)
            },
            Ok(ev) => on_event(ev),
        };
        match &a {
            BridgeAction::Stop => {
                self.state = SessionState::Closed;
            },
            BridgeAction::Fail(m) => {
                self.state = SessionState::Failed(m.clone());
            },
            _ => {},
        }
        a
    }

    /// Ends the session once the bridge has exited, successfully or not
    /// (`status` is how its exit status displays): the outcome of the whole
    /// session.
    pub fn finish(self, success: bool, status: &str) -> (r: Result<(), String>)
        requires
            self.wf(),
        ensures
            match session_outcome(self.lines@, success, status@) {
                Ok(()) => r is Ok,
                Err(m) => r matches Err(e) && e@ == m,
            },
    {
        match self.state {
            SessionState::Failed(m) => Err(m),
            _ => {
                if success {
                    Ok(())
                } else {
                    Err(bridge_exit_message(status))
                }
            },
        }
    }
}

/// The message when no bridge script is found at `path`.
pub fn bridge_missing_message(path: &str) -> (m: String)
    ensures
        m@ == "ui-leaf bridge not found at "@ + path@ + "\n  set OAUDIT_UI_BRIDGE to override"@,
{
    concat3("ui-leaf bridge not found at ", path, "\n  set OAUDIT_UI_BRIDGE to override")
}

/// The message when the bridge exits unsuccessfully, `status` being how
/// its exit status displays.
pub fn bridge_exit_message(status: &str) -> (m: String)
    ensures
        m@ == "bridge exited with status "@ + status@,
{
    concat2("bridge exited with status ", status)
}

} // verus!
