//! Events of the gar window manager and how its raw event messages are read.

use vstd::prelude::*;
use crate::text::str_eq;

verus! {

/// A raw gar event message, `{ "event": name, "data": {..} }`, with the fields of `data`
/// that the daemon reads (absent when missing or not of the expected JSON type).
#[derive(Debug, Clone)]
pub struct RawGarEvent {
    pub event: String,
    /// `data.current` as an unsigned integer
    pub current: Option<u64>,
    /// `data.previous` as an unsigned integer
    pub previous: Option<u64>,
    /// `data.name` as a string
    pub name: Option<String>,
    /// `data.action` as a string
    pub action: Option<String>,
    /// `data.window_id` as an unsigned integer
    pub window_id: Option<u64>,
    /// `data.workspace` as an unsigned integer
    pub workspace: Option<u64>,
}

/// Events from gar window manager
#[derive(Debug, Clone)]
pub enum GarEvent {
    /// Workspace changed
    Workspace { current: usize, previous: usize },
    /// Monitor configuration changed ("added", "removed", "changed")
    Monitor { name: String, action: String },
    /// Window focused
    Focus { window_id: u32, workspace: usize },
    /// Unknown event (for forward compatibility)
    Unknown,
}

pub open spec fn u64_or(o: Option<u64>, d: u64) -> u64 {
    match o {
        Some(v) => v,
        None => d,
    }
}

pub open spec fn str_or(o: Option<String>, d: Seq<char>) -> Seq<char> {
    match o {
        Some(v) => v@,
        None => d,
    }
}

fn string_or_unknown(o: Option<String>) -> (r: String)
    ensures
        r@ == str_or(o, "unknown"@),
{
    match o {
        Some(v) => v,
        None => crate::text::str_to_string("unknown"),
    }
}

impl GarEvent {
    /// Reads a raw event: known event names become their variant with missing fields
    /// defaulted (workspace 1, previous 0, window 0, names "unknown"); other names are Unknown.
    pub fn from_raw(raw: RawGarEvent) -> (ev: GarEvent)
        ensures
            raw.event@ == "workspace"@ ==> ev == (GarEvent::Workspace {
                current: u64_or(raw.current, 1) as usize,
                previous: u64_or(raw.previous, 0) as usize,
            }),
            raw.event@ == "monitor"@ ==> (ev matches GarEvent::Monitor { name, action } && name@
                == str_or(raw.name, "unknown"@) && action@ == str_or(raw.action, "unknown"@)),
            raw.event@ == "focus"@ ==> ev == (GarEvent::Focus {
                window_id: u64_or(raw.window_id, 0) as u32,
                workspace: u64_or(raw.workspace, 1) as usize,
            }),
            raw.event@ != "workspace"@ && raw.event@ != "monitor"@ && raw.event@ != "focus"@ ==> ev
                is Unknown,
    {
        proof {
            reveal_strlit("workspace");
            reveal_strlit("monitor");
            reveal_strlit("focus");
            assert("workspace"@.len() == 9);
            assert("monitor"@.len() == 7);
            assert("focus"@.len() == 5);
            assert("workspace"@ != "monitor"@);
            assert("workspace"@ != "focus"@);
            assert("monitor"@ != "focus"@);
        }
        let e = raw.event.as_str();
        if str_eq(e, "workspace") {
            let current = match raw.current {
                Some(v) => v,
                None => 1,
            };
            let previous = match raw.previous {
                Some(v) => v,
                None => 0,
            };
            GarEvent::Workspace { current: current as usize, previous: previous as usize }
        } else if str_eq(e, "monitor") {
            let name = string_or_unknown(raw.name);
            let action = string_or_unknown(raw.action);
            GarEvent::Monitor { name, action }
        } else if str_eq(e, "focus") {
            let window_id = match raw.window_id {
                Some(v) => v,
                None => 0,
            };
            let workspace = match raw.workspace {
                Some(v) => v,
                None => 1,
            };
            GarEvent::Focus { window_id: window_id as u32, workspace: workspace as usize }
        } else {
            GarEvent::Unknown
        }
    }
}

/// The outcome of a subscribe request, from the reply's `success` flag and `error` text.
pub fn subscribe_outcome(success: Option<bool>, error: Option<String>) -> (r: Result<(), String>)
    ensures
        success == Some(true) ==> r is Ok,
        success != Some(true) ==> (r matches Err(m) && m@ == "Subscribe failed: "@ + str_or(
            error,
            "Unknown error"@,
        )),
{
    let accepted = match success {
        Some(b) => b,
        None => false,
    };
    if accepted {
        Ok(())
    } else {
        let err = string_or_unknown_error(error);
        Err(crate::text::str_concat("Subscribe failed: ", err.as_str()))
    }
}

fn string_or_unknown_error(o: Option<String>) -> (r: String)
    ensures
        r@ == str_or(o, "Unknown error"@),
{
    match o {
        Some(v) => v,
        None => crate::text::str_to_string("Unknown error"),
    }
}

} // verus!
