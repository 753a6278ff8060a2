//! The control channel's decisions: what each request is answered with and
//! what it makes the daemon do.

use crate::config::is_blank;
use crate::text::same_text;
use crate::text::trim;
use serde_json::Error;
use serde_json::Value;
use vstd::prelude::*;
use vstd::string::StringExecFns;

verus! {

/// Makes `serde_json::Value` known as a type whose inside is not looked
/// at.
#[verifier::external_type_specification]
#[verifier::external_body]
pub struct ExJsonValue(Value);

/// Makes `serde_json::Error` known as a type whose inside is not looked
/// at.
#[verifier::external_type_specification]
#[verifier::external_body]
pub struct ExJsonError(Error);

/// The members of a JSON value that are text, by name: what an object
/// holds under a name as a JSON string. A value that is no object has none.
pub uninterp spec fn json_texts(v: Value) -> Map<Seq<char>, Seq<char>>;

/// The text members of the JSON value that a line parses to; nothing where
/// the line is no JSON.
pub uninterp spec fn json_parsed(line: Seq<char>) -> Option<Map<Seq<char>, Seq<char>>>;

/// Calls `serde_json::from_str` for a `Value`. The parser's answer depends
/// on the line alone: it succeeds exactly where `json_parsed` has a value,
/// and then that value is what the parsed value holds as text members.
#[verifier::external_body]
fn json_parse(line: &str) -> (r: Result<Value, Error>)
    ensures
        r is Ok <==> json_parsed(line@) is Some,
        r is Ok ==> json_texts(r->Ok_0) == json_parsed(line@)->0,
{
    serde_json::from_str(line)
}

/// Calls `serde_json::Value::get` with a name and `Value::as_str` on what
/// it finds: the text member of that name, as `json_texts` holds it. A
/// value without such a member, or with one that is no JSON string, gives
/// nothing.
#[verifier::external_body]
fn json_text_member(v: &Value, name: &str) -> (r: Option<String>)
    ensures
        match r {
            Some(s) => json_texts(*v).contains_key(name@) && json_texts(*v)[name@] == s@,
            None => !json_texts(*v).contains_key(name@),
        },
{
    match v.get(name) {
        Some(m) => match m.as_str() {
            Some(s) => Some(s.to_owned()),
            None => None,
        },
        None => None,
    }
}

/// Gives what `serde_json::Error` shows of itself. Nothing is claimed of
/// the text.
#[verifier::external_body]
fn json_error_text(e: &Error) -> (s: String) {
    e.to_string()
}

/// What the gesture pipeline tells the daemon.
#[derive(Debug, Clone)]
pub enum DaemonEvent {
    /// A line for the log.
    Log(String),
}

/// What a request makes the daemon do.
#[derive(Debug, Clone)]
pub enum IpcMsg {
    /// Read the active profile again.
    Reload,
    /// Make the named profile the active one.
    UseProfile(String),
    /// Stop.
    Shutdown,
}

/// The mathematical content of an `IpcMsg`.
pub enum IpcMsgView {
    Reload,
    UseProfile(Seq<char>),
    Shutdown,
}

impl View for IpcMsg {
    type V = IpcMsgView;

    open spec fn view(&self) -> IpcMsgView {
        match self {
            IpcMsg::Reload => IpcMsgView::Reload,
            IpcMsg::UseProfile(n) => IpcMsgView::UseProfile(n@),
            IpcMsg::Shutdown => IpcMsgView::Shutdown,
        }
    }
}

/// What a request is answered with. The caller fills in the daemon's state
/// where the answer shows it.
#[derive(Debug)]
pub enum Reply {
    /// The daemon's state: enabled flag, active profile, socket, devices.
    Status,
    /// The name of the active profile.
    ActiveProfile(String),
    /// The profiles on disk and the active one.
    Profiles,
    /// The diagnosis.
    Doctor,
    /// The daemon stops.
    ShuttingDown,
    /// The request failed, with the reason.
    Failure(String),
}

/// The mathematical content of a `Reply`.
pub enum ReplyView {
    Status,
    ActiveProfile(Seq<char>),
    Profiles,
    Doctor,
    ShuttingDown,
    Failure(Seq<char>),
}

impl View for Reply {
    type V = ReplyView;

    open spec fn view(&self) -> ReplyView {
        match self {
            Reply::Status => ReplyView::Status,
            Reply::ActiveProfile(n) => ReplyView::ActiveProfile(n@),
            Reply::Profiles => ReplyView::Profiles,
            Reply::Doctor => ReplyView::Doctor,
            Reply::ShuttingDown => ReplyView::ShuttingDown,
            Reply::Failure(e) => ReplyView::Failure(e@),
        }
    }
}

impl Reply {
    /// Whether the answer reports success.
    pub fn is_ok(&self) -> (ok: bool)
        ensures
            ok == !(self@ is Failure),
    {
        match self {
            Reply::Failure(_) => false,
            _ => true,
        }
    }
}

/// How a request is handled: the answer, and what is passed on to the
/// daemon's main loop.
#[derive(Debug)]
pub struct Handling {
    pub reply: Reply,
    pub forward: Option<IpcMsg>,
}

/// The mathematical content of a `Handling`.
pub struct HandlingView {
    pub reply: ReplyView,
    pub forward: Option<IpcMsgView>,
}

impl View for Handling {
    type V = HandlingView;

    open spec fn view(&self) -> HandlingView {
        HandlingView {
            reply: self.reply@,
            forward: match self.forward {
                Some(m) => Some(m@),
                None => None,
            },
        }
    }
}

/// How the request with operation `op` is handled, where `profile` is the
/// profile that the request names and `active` the active one.
pub open spec fn handling_of(op: Seq<char>, profile: Seq<char>, active: Seq<char>) -> HandlingView {
    if op == "status"@ {
        HandlingView { reply: ReplyView::Status, forward: None }
    } else if op == "reload"@ {
        HandlingView {
            reply: ReplyView::ActiveProfile(active),
            forward: Some(IpcMsgView::Reload),
        }
    } else if op == "use"@ {
        HandlingView {
            reply: ReplyView::ActiveProfile(profile),
            forward: Some(IpcMsgView::UseProfile(profile)),
        }
    } else if op == "list"@ {
        HandlingView { reply: ReplyView::Profiles, forward: None }
    } else if op == "doctor"@ {
        HandlingView { reply: ReplyView::Doctor, forward: None }
    } else if op == "shutdown"@ {
        HandlingView { reply: ReplyView::ShuttingDown, forward: Some(IpcMsgView::Shutdown) }
    } else {
        HandlingView { reply: ReplyView::Failure("unknown op: "@ + op), forward: None }
    }
}

/// Decides how a request is handled. `op` is the request's operation,
/// `profile` the profile that it names (empty where it names none), and
/// `active_name` the name of the active profile. An operation that is not
/// known fails with `unknown op: ` and the operation.
pub fn handle_request(op: &str, profile: &str, active_name: &str) -> (h: Handling)
    ensures
        h@ == handling_of(op@, profile@, active_name@),
{
    if same_text(op, "status") {
        Handling { reply: Reply::Status, forward: None }
    } else if same_text(op, "reload") {
        Handling {
            reply: Reply::ActiveProfile(String::from_str(active_name)),
            forward: Some(IpcMsg::Reload),
        }
    } else if same_text(op, "use") {
        Handling {
            reply: Reply::ActiveProfile(String::from_str(profile)),
            forward: Some(IpcMsg::UseProfile(String::from_str(profile))),
        }
    } else if same_text(op, "list") {
        Handling { reply: Reply::Profiles, forward: None }
    } else if same_text(op, "doctor") {
        Handling { reply: Reply::Doctor, forward: None }
    } else if same_text(op, "shutdown") {
        Handling { reply: Reply::ShuttingDown, forward: Some(IpcMsg::Shutdown) }
    } else {
        let mut text = String::from_str("unknown op: ");
        text.append(op);
        Handling { reply: Reply::Failure(text), forward: None }
    }
}

/// The text member `name` of `members`; empty where there is none.
pub open spec fn member_or_empty(members: Map<Seq<char>, Seq<char>>, name: Seq<char>) -> Seq<char> {
    if members.contains_key(name) {
        members[name]
    } else {
        Seq::empty()
    }
}

/// How a line of the control channel is handled, where `parsed` is what
/// the line holds as JSON: a line that is empty or white space gets no
/// answer; a line that is no JSON fails; any other line is the request
/// whose operation is its member `op` and whose profile is its member
/// `profile`.
pub open spec fn line_handling(
    line: Seq<char>,
    parsed: Option<Map<Seq<char>, Seq<char>>>,
    active: Seq<char>,
    h: Option<HandlingView>,
) -> bool {
    if trim(line).len() == 0 {
        h is None
    } else {
        match parsed {
            Some(members) => h == Some(
                handling_of(
                    member_or_empty(members, "op"@),
                    member_or_empty(members, "profile"@),
                    active,
                ),
            ),
            None => h is Some && h->0.reply is Failure && h->0.forward is None,
        }
    }
}

/// The view of a handling that may be absent.
pub open spec fn handling_view(h: Option<Handling>) -> Option<HandlingView> {
    match h {
        Some(h) => Some(h@),
        None => None,
    }
}

/// The text of the member `name` of a request; empty where the request has
/// no such member or the member is no text.
fn request_text(req: &Value, name: &str) -> (s: String)
    ensures
        s@ == member_or_empty(json_texts(*req), name@),
{
    match json_text_member(req, name) {
        Some(s) => s,
        None => {
            proof {
                reveal_strlit("");
            }
            assert(""@ =~= Seq::<char>::empty());
            String::from_str("")
        },
    }
}

/// Decides how one line of the control channel is handled. A line that is
/// empty or white space gets no answer. A line that is no JSON fails with
/// what the parser says. Any other line is a request: its member `op` is
/// the operation and its member `profile` the profile that it names, each
/// taken as empty where it is missing or no text, and the request is
/// handled as `handle_request` says.
pub fn handle_line(line: &str, active_name: &str) -> (r: Option<Handling>)
    ensures
        line_handling(line@, json_parsed(line@), active_name@, handling_view(r)),
        r is None <==> trim(line@).len() == 0,
{
    if is_blank(line) {
        return None;
    }
    match json_parse(line) {
        Ok(req) => {
            let op = request_text(&req, "op");
            let profile = request_text(&req, "profile");
            Some(handle_request(op.as_str(), profile.as_str(), active_name))
        },
        Err(e) => Some(Handling { reply: Reply::Failure(json_error_text(&e)), forward: None }),
    }
}

} // verus!
