//! The messages between the `boinc` CLI (which context-menu hooks invoke)
//! and a running app, and what the app does with each.

use vstd::prelude::*;

use crate::format::{spec_from_extension, Format};
use crate::text::owned;

verus! {

/// A message to the running app. On the wire each is one JSON line:
/// `{"cmd":"open"}`, `{"cmd":"pick","input":"/f.png"}`,
/// `{"cmd":"convert","input":"/f.png","to":"jpg"}`.
#[derive(Debug, PartialEq, Eq)]
pub enum IpcMsg {
    Open,
    Pick { input: String },
    Convert { input: String, to: String },
}

/// What the app does on a message.
#[derive(Debug, PartialEq, Eq)]
pub enum IpcAction {
    /// Bring the window up.
    OpenWindow,
    /// Show the target picker for a file.
    Pick(String),
    /// Queue a conversion.
    Enqueue { input: String, to: Format },
    /// A conversion to a format Boinc does not know; the message is dropped.
    UnknownFormat(String),
}

/// Dispatch a message: open and pick go to the window; a conversion is
/// queued when its target extension names a format.
pub fn dispatch(msg: IpcMsg) -> (a: IpcAction)
    ensures
        match msg {
            IpcMsg::Open => a == IpcAction::OpenWindow,
            IpcMsg::Pick { input } => a == IpcAction::Pick(input),
            IpcMsg::Convert { input, to } => match spec_from_extension(to@) {
                Some(f) => a == (IpcAction::Enqueue { input, to: f }),
                None => a == IpcAction::UnknownFormat(to),
            },
        },
{
    match msg {
        IpcMsg::Open => IpcAction::OpenWindow,
        IpcMsg::Pick { input } => IpcAction::Pick(input),
        IpcMsg::Convert { input, to } => match Format::from_extension(to.as_str()) {
            Some(f) => IpcAction::Enqueue { input, to: f },
            None => IpcAction::UnknownFormat(to),
        },
    }
}

/// The socket name: the `BOINC_SOCK` override when set, else `boinc.sock`.
pub fn socket_name(override_name: Option<&str>) -> (s: String)
    ensures
        s@ == match override_name {
            Some(n) => n@,
            None => "boinc.sock"@,
        },
{
    match override_name {
        Some(n) => owned(n),
        None => owned("boinc.sock"),
    }
}

/// `m` asks to pick the file `input`.
pub open spec fn is_pick_of(m: IpcMsg, input: Seq<char>) -> bool {
    match m {
        IpcMsg::Pick { input: i } => i@ == input,
        _ => false,
    }
}

/// What a second app instance forwards: open the window, then a pick for
/// each file it was given, in order.
pub fn forward_messages(files: &Vec<String>) -> (v: Vec<IpcMsg>)
    ensures
        v@.len() == files@.len() + 1,
        v@[0] == IpcMsg::Open,
        forall|k: int| 1 <= k < v@.len() ==> is_pick_of(#[trigger] v@[k], files@[k - 1]@),
{
    let mut v: Vec<IpcMsg> = Vec::new();
    v.push(IpcMsg::Open);
    let n = files.len();
    for i in 0..n
        invariant
            n == files@.len(),
            v@.len() == i + 1,
            v@[0] == IpcMsg::Open,
            forall|k: int| 1 <= k < v@.len() ==> is_pick_of(#[trigger] v@[k], files@[k - 1]@),
    {
        let ghost prev = v@;
        v.push(IpcMsg::Pick { input: owned(files[i].as_str()) });
        assert forall|k: int| 1 <= k < v@.len() implies is_pick_of(#[trigger] v@[k], files@[k - 1]@) by {
            if k < v@.len() - 1 {
                assert(v@[k] == prev[k]);
            }
        }
    }
    v
}

} // verus!
