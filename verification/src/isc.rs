//! Initial filter criteria: which application servers a request goes through.

use crate::error::{value_error, ErrorText, ScriptError};
use crate::pyvalue::{entries_text, PyText, PyValue};
use crate::sip::copy_opt;
use crate::text::{debug_quoted, lower, opt_text, quote_debug, same_text, to_lower};
use vstd::prelude::*;
use vstd::string::*;

verus! {

/// Which side of a session a request is on.
#[derive(Clone, Copy, Debug, PartialEq, Eq, Structural)]
pub enum SessionCase {
    Originating,
    Terminating,
    OriginatingUnregistered,
    TerminatingUnregistered,
}

/// The session case that a name stands for, without regard to case.
pub open spec fn session_case_named(name: Seq<char>) -> Option<SessionCase> {
    let name = lower(name);
    if name == "originating"@ || name == "orig"@ {
        Some(SessionCase::Originating)
    } else if name == "terminating"@ || name == "term"@ {
        Some(SessionCase::Terminating)
    } else if name == "originating_unregistered"@ || name == "orig_unreg"@ {
        Some(SessionCase::OriginatingUnregistered)
    } else if name == "terminating_unregistered"@ || name == "term_unreg"@ {
        Some(SessionCase::TerminatingUnregistered)
    } else {
        None
    }
}

/// The session case that a name stands for, without regard to case.
pub fn parse_session_case(value: &str) -> (r: Option<SessionCase>)
    ensures
        r == session_case_named(value@),
{
    let name = to_lower(value);
    if same_text(&name, "originating") || same_text(&name, "orig") {
        Some(SessionCase::Originating)
    } else if same_text(&name, "terminating") || same_text(&name, "term") {
        Some(SessionCase::Terminating)
    } else if same_text(&name, "originating_unregistered") || same_text(&name, "orig_unreg") {
        Some(SessionCase::OriginatingUnregistered)
    } else if same_text(&name, "terminating_unregistered") || same_text(&name, "term_unreg") {
        Some(SessionCase::TerminatingUnregistered)
    } else {
        None
    }
}

/// An application server that a request goes through.
pub struct IfcMatch {
    pub server_name: String,
    pub default_handling: u8,
    pub service_info: Option<String>,
    pub priority: i32,
}

/// What a script sees of an application server.
pub open spec fn match_dict(m: IfcMatch) -> PyText {
    PyText::Dict(
        seq![
            ("server_name"@, PyText::Text(m.server_name@)),
            ("default_handling"@, PyText::Int(m.default_handling as int)),
            (
                "service_info"@,
                match opt_text(m.service_info) {
                    Some(info) => PyText::Text(info),
                    None => PyText::Nothing,
                },
            ),
            ("priority"@, PyText::Int(m.priority as int)),
        ],
    )
}

impl IfcMatch {
    /// The application server as a dict.
    pub fn to_dict(&self) -> (r: PyValue)
        ensures
            r@ == match_dict(*self),
    {
        let entries: Vec<(String, PyValue)> = vec![
            ("server_name".to_owned(), PyValue::text(&self.server_name)),
            ("default_handling".to_owned(), PyValue::Int(self.default_handling as i128)),
            ("service_info".to_owned(), PyValue::opt_text(copy_opt(&self.service_info))),
            ("priority".to_owned(), PyValue::Int(self.priority as i128)),
        ];
        assert(PyText::Dict(entries_text(entries@)) == match_dict(*self)) by {
            assert(entries_text(entries@) =~= seq![
                ("server_name"@, PyText::Text(self.server_name@)),
                ("default_handling"@, PyText::Int(self.default_handling as int)),
                (
                    "service_info"@,
                    match opt_text(self.service_info) {
                        Some(info) => PyText::Text(info),
                        None => PyText::Nothing,
                    },
                ),
                ("priority"@, PyText::Int(self.priority as int)),
            ]);
        }
        PyValue::dict(entries)
    }
}

pub open spec fn session_case_error(name: Seq<char>) -> ErrorText {
    value_error(
        "invalid session_case: "@ + debug_quoted(name)
            + " — expected one of: originating, terminating, originating_unregistered, terminating_unregistered"@,
    )
}

/// The `isc` namespace of scripts.
pub struct PyIsc;

impl PyIsc {
    pub fn new() -> (r: Self)
        ensures
            r == PyIsc,
    {
        PyIsc
    }

    /// What a script gets for a profile that was read: how many rules it has,
    /// or why it could not be read.
    pub fn store_profile(&self, stored: Result<usize, String>) -> (r: Result<usize, ScriptError>)
        ensures
            match stored {
                Ok(count) => r matches Ok(n) && n == count,
                Err(reason) => r matches Err(e) && e@ == value_error(
                    "iFC XML parse error: "@ + reason@,
                ),
            },
    {
        match stored {
            Ok(count) => Ok(count),
            Err(reason) => Err(
                ScriptError::value("iFC XML parse error: ".to_owned().concat(&reason)),
            ),
        }
    }

    /// The session case under which criteria are evaluated.
    pub fn session_case(&self, session_case: &str) -> (r: Result<SessionCase, ScriptError>)
        ensures
            match r {
                Ok(case) => session_case_named(session_case@) == Some(case),
                Err(e) => session_case_named(session_case@) is None && e@ == session_case_error(
                    session_case@,
                ),
            },
    {
        match parse_session_case(session_case) {
            Some(case) => Ok(case),
            None => Err(
                ScriptError::value(
                    "invalid session_case: ".to_owned().concat(&quote_debug(session_case)).concat(
                        " — expected one of: originating, terminating, originating_unregistered, terminating_unregistered",
                    ),
                ),
            ),
        }
    }

    /// What a script gets of the servers that the criteria of a session case
    /// name: one dict each, in their order.
    pub fn evaluate(&self, session_case: &str, matches: &Vec<IfcMatch>) -> (r: Result<
        Vec<PyValue>,
        ScriptError,
    >)
        ensures
            match r {
                Ok(dicts) => session_case_named(session_case@) is Some && dicts@.len()
                    == matches@.len() && forall|i: int|
                    0 <= i < dicts@.len() ==> (#[trigger] dicts@[i])@ == match_dict(matches@[i]),
                Err(e) => session_case_named(session_case@) is None && e@ == session_case_error(
                    session_case@,
                ),
            },
    {
        match self.session_case(session_case) {
            Ok(_) => {},
            Err(e) => {
                return Err(e);
            },
        }
        let mut out: Vec<PyValue> = Vec::new();
        let mut i: usize = 0;
        while i < matches.len()
            invariant
                i <= matches@.len(),
                out@.len() == i,
                session_case_named(session_case@) is Some,
                forall|k: int| 0 <= k < i ==> (#[trigger] out@[k])@ == match_dict(matches@[k]),
            decreases matches@.len() - i,
        {
            out.push(matches[i].to_dict());
            i += 1;
        }
        Ok(out)
    }
}

/// The names of session cases do not depend on the case of their letters.
pub proof fn session_case_ignores_case(a: Seq<char>, b: Seq<char>)
    requires
        lower(a) == lower(b),
    ensures
        session_case_named(a) == session_case_named(b),
{
}

} // verus!
