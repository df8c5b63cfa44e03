//! Requests of the local control socket (one JSON line per request) and
//! what each asks the node to do. Reading, writing and the JSON encoding
//! belong to the program that serves the socket.

use vstd::prelude::*;
use crate::text::str_eq;

verus! {

/// The four operations a client can ask for.
#[derive(Debug, Clone, Copy, PartialEq, Eq, Structural)]
pub enum Op {
    Status,
    List,
    Start,
    Stop,
}

/// The name of each operation on the wire.
pub open spec fn op_name(op: Op) -> Seq<char> {
    match op {
        Op::Status => "status"@,
        Op::List => "list"@,
        Op::Start => "start"@,
        Op::Stop => "stop"@,
    }
}

/// The operation with a given wire name, if any.
pub open spec fn op_named(s: Seq<char>) -> Option<Op> {
    if s == "status"@ {
        Some(Op::Status)
    } else if s == "list"@ {
        Some(Op::List)
    } else if s == "start"@ {
        Some(Op::Start)
    } else if s == "stop"@ {
        Some(Op::Stop)
    } else {
        None
    }
}

impl Op {
    /// The operation's wire name.
    pub fn name(&self) -> (res: &'static str)
        ensures
            res@ == op_name(*self),
    {
        match self {
            Op::Status => "status",
            Op::List => "list",
            Op::Start => "start",
            Op::Stop => "stop",
        }
    }

    /// The operation named `s` (names are lower case), if any.
    pub fn from_name(s: &str) -> (res: Option<Op>)
        ensures
            res == op_named(s@),
    {
        if str_eq(s, "status") {
            Some(Op::Status)
        } else if str_eq(s, "list") {
            Some(Op::List)
        } else if str_eq(s, "start") {
            Some(Op::Start)
        } else if str_eq(s, "stop") {
            Some(Op::Stop)
        } else {
            None
        }
    }
}

/// A client's request.
#[derive(Debug, Clone)]
pub struct Request {
    pub id: String,
    pub op: Op,
    pub service: Option<String>,
}

/// What the node does for a request.
#[derive(Debug, Clone, PartialEq, Eq)]
pub enum IpcAction {
    /// Answer with a snapshot of the node.
    Status,
    /// Answer with the list of services.
    List,
    /// Start the named service.
    Start(String),
    /// Stop the named service.
    Stop(String),
    /// Refuse: the operation needs a service and none was named.
    MissingService,
}

/// The action for each request.
pub open spec fn action_for(op: Op, service: Option<Seq<char>>) -> (Option<Seq<char>>, u8) {
    match op {
        Op::Status => (None, 0),
        Op::List => (None, 1),
        Op::Start => match service {
            Some(s) => (Some(s), 2),
            None => (None, 4),
        },
        Op::Stop => match service {
            Some(s) => (Some(s), 3),
            None => (None, 4),
        },
    }
}

/// An action as plain values: the service it names and its kind
/// (status, list, start, stop, missing service).
pub open spec fn action_view(a: IpcAction) -> (Option<Seq<char>>, u8) {
    match a {
        IpcAction::Status => (None, 0),
        IpcAction::List => (None, 1),
        IpcAction::Start(s) => (Some(s@), 2),
        IpcAction::Stop(s) => (Some(s@), 3),
        IpcAction::MissingService => (None, 4),
    }
}

/// The message of the refusal when no service was named.
pub open spec fn missing_service_text() -> Seq<char> {
    "missing 'service'"@
}

impl Request {
    /// What the node must do for this request: status and list need
    /// nothing more; start and stop act on the named service, and are
    /// refused when none is named.
    pub fn action(&self) -> (res: IpcAction)
        ensures
            action_view(res) == action_for(
                self.op,
                match self.service {
                    Some(s) => Some(s@),
                    None => None,
                },
            ),
    {
        match self.op {
            Op::Status => IpcAction::Status,
            Op::List => IpcAction::List,
            Op::Start => match &self.service {
                Some(s) => IpcAction::Start(s.clone()),
                None => IpcAction::MissingService,
            },
            Op::Stop => match &self.service {
                Some(s) => IpcAction::Stop(s.clone()),
                None => IpcAction::MissingService,
            },
        }
    }
}

/// The message a refused request without a service is answered with.
pub fn missing_service() -> (res: &'static str)
    ensures
        res@ == missing_service_text(),
{
    "missing 'service'"
}

} // verus!
