//! The vocabulary of AVPs, commands and applications, and the filters that
//! speak it.

use crate::error::{value_error, ErrorText, ScriptError};
use crate::text::{
    ascii_lower, char_lower, chars_of, debug_quoted, find_char, find_char_in, lower, quote_debug,
    same_ignoring_case, same_text, split, split_text, string_between, texts, trim, trim_text,
};
use vstd::prelude::*;
use vstd::string::*;

verus! {

/// The data type of an AVP.
#[derive(Clone, Copy, Debug, PartialEq, Eq, Structural)]
pub enum AvpType {
    UTF8String,
    DiameterIdentity,
    OctetString,
    Unsigned32,
    Enumerated,
    Unsigned64,
    Integer32,
    Address,
    Time,
    Grouped,
}

/// A dictionary entry.
pub struct AvpDef {
    pub code: u32,
    pub vendor_id: u32,
    pub name: String,
    pub data_type: AvpType,
}

pub struct DefText {
    pub code: u32,
    pub vendor_id: u32,
    pub name: Seq<char>,
    pub data_type: AvpType,
}

impl View for AvpDef {
    type V = DefText;

    open spec fn view(&self) -> DefText {
        DefText {
            code: self.code,
            vendor_id: self.vendor_id,
            name: self.name@,
            data_type: self.data_type,
        }
    }
}

/// A command: its long name without the suffix, its acronym, its code.
pub struct CommandDef {
    pub name: String,
    pub acronym: String,
    pub code: u32,
}

pub struct CommandText {
    pub name: Seq<char>,
    pub acronym: Seq<char>,
    pub code: u32,
}

impl View for CommandDef {
    type V = CommandText;

    open spec fn view(&self) -> CommandText {
        CommandText { name: self.name@, acronym: self.acronym@, code: self.code }
    }
}

/// An application: its short name, its vendor, its identifier.
pub struct AppDef {
    pub name: String,
    pub vendor: u32,
    pub id: u32,
}

pub struct AppText {
    pub name: Seq<char>,
    pub vendor: u32,
    pub id: u32,
}

impl View for AppDef {
    type V = AppText;

    open spec fn view(&self) -> AppText {
        AppText { name: self.name@, vendor: self.vendor, id: self.id }
    }
}

/// The vocabulary.
pub struct Dictionary {
    pub avps: Vec<AvpDef>,
    pub commands: Vec<CommandDef>,
    pub applications: Vec<AppDef>,
}

pub struct DictText {
    pub avps: Seq<DefText>,
    pub commands: Seq<CommandText>,
    pub applications: Seq<AppText>,
}

impl View for Dictionary {
    type V = DictText;

    open spec fn view(&self) -> DictText {
        DictText {
            avps: Seq::new(self.avps@.len(), |i: int| self.avps@[i]@),
            commands: Seq::new(self.commands@.len(), |i: int| self.commands@[i]@),
            applications: Seq::new(self.applications@.len(), |i: int| self.applications@[i]@),
        }
    }
}

/// An AVP name in snake case.
pub open spec fn snake(name: Seq<char>) -> Seq<char> {
    Seq::new(
        name.len(),
        |i: int|
            if name[i] == '-' {
                '_'
            } else {
                ascii_lower(name[i])
            },
    )
}

/// The first entry with a code and a vendor.
pub open spec fn def_by_code(avps: Seq<DefText>, code: u32, vendor: u32) -> Option<DefText>
    decreases avps.len(),
{
    if avps.len() == 0 {
        None
    } else if avps[0].code == code && avps[0].vendor_id == vendor {
        Some(avps[0])
    } else {
        def_by_code(avps.skip(1), code, vendor)
    }
}

/// The first entry with a name.
pub open spec fn def_by_name(avps: Seq<DefText>, name: Seq<char>) -> Option<DefText>
    decreases avps.len(),
{
    if avps.len() == 0 {
        None
    } else if avps[0].name == name {
        Some(avps[0])
    } else {
        def_by_name(avps.skip(1), name)
    }
}

/// The first entry whose name in snake case is `key`.
pub open spec fn def_by_key(avps: Seq<DefText>, key: Seq<char>) -> Option<DefText>
    decreases avps.len(),
{
    if avps.len() == 0 {
        None
    } else if snake(avps[0].name) == key {
        Some(avps[0])
    } else {
        def_by_key(avps.skip(1), key)
    }
}

/// A command answers to its long name with and without the suffix and to its
/// acronym, without regard to case.
pub open spec fn command_answers_to(c: CommandText, name: Seq<char>) -> bool {
    lower(name) == lower(c.name) || lower(name) == lower(c.name + "-Request"@) || lower(name)
        == lower(c.acronym)
}

pub open spec fn command_code(commands: Seq<CommandText>, name: Seq<char>) -> Option<u32>
    decreases commands.len(),
{
    if commands.len() == 0 {
        None
    } else if command_answers_to(commands[0], name) {
        Some(commands[0].code)
    } else {
        command_code(commands.skip(1), name)
    }
}

/// The vendor and the identifier of an application, without regard to case.
pub open spec fn app_id(apps: Seq<AppText>, name: Seq<char>) -> Option<(u32, u32)>
    decreases apps.len(),
{
    if apps.len() == 0 {
        None
    } else if lower(apps[0].name) == lower(name) {
        Some((apps[0].vendor, apps[0].id))
    } else {
        app_id(apps.skip(1), name)
    }
}

pub open spec fn app_name(apps: Seq<AppText>, id: u32) -> Option<Seq<char>>
    decreases apps.len(),
{
    if apps.len() == 0 {
        None
    } else if apps[0].id == id {
        Some(apps[0].name)
    } else {
        app_name(apps.skip(1), id)
    }
}

/// An AVP name in snake case.
pub fn avp_name_to_snake(name: &str) -> (r: String)
    ensures
        r@ == snake(name@),
{
    let chars = chars_of(name);
    let mut out = String::new();
    let mut i: usize = 0;
    while i < chars.len()
        invariant
            i <= chars@.len(),
            chars@ == name@,
            out@ == snake(name@).take(i as int),
        decreases chars@.len() - i,
    {
        if chars[i] == '-' {
            out.push('_');
        } else {
            out.push(char_lower(chars[i]));
        }
        i += 1;
    }
    assert(snake(name@).take(name@.len() as int) =~= snake(name@));
    out
}

/// The long name of the first command with a code.
pub open spec fn command_of(commands: Seq<CommandText>, code: u32) -> Option<Seq<char>>
    decreases commands.len(),
{
    if commands.len() == 0 {
        None
    } else if commands[0].code == code {
        Some(commands[0].name)
    } else {
        command_of(commands.skip(1), code)
    }
}

/// The name of a command with the suffix of a request or an answer.
pub open spec fn command_title(commands: Seq<CommandText>, code: u32, request: bool) -> Seq<char> {
    match command_of(commands, code) {
        Some(name) => if request {
            name + "-Request"@
        } else {
            name + "-Answer"@
        },
        None => "Unknown"@,
    }
}

impl Dictionary {
    /// The name of a command with the suffix of a request or an answer;
    /// "Unknown" where the dictionary has no such command.
    pub fn command_name(&self, code: u32, request: bool) -> (r: String)
        ensures
            r@ == command_title(self@.commands, code, request),
    {
        let ghost all = self@.commands;
        let mut i: usize = 0;
        assert(all.skip(0) =~= all);
        while i < self.commands.len()
            invariant
                i <= self.commands@.len(),
                all == self@.commands,
                command_of(all, code) == command_of(all.skip(i as int), code),
            decreases self.commands@.len() - i,
        {
            if self.commands[i].code == code {
                let suffix = if request {
                    "-Request"
                } else {
                    "-Answer"
                };
                return self.commands[i].name.clone().concat(suffix);
            }
            assert(all.skip(i as int).skip(1) =~= all.skip(i + 1));
            i += 1;
        }
        "Unknown".to_owned()
    }

    pub fn lookup_avp(&self, code: u32, vendor: u32) -> (r: Option<&AvpDef>)
        ensures
            match r {
                Some(def) => def_by_code(self@.avps, code, vendor) == Some(def@),
                None => def_by_code(self@.avps, code, vendor) is None,
            },
    {
        let ghost all = self@.avps;
        let mut i: usize = 0;
        assert(all.skip(0) =~= all);
        while i < self.avps.len()
            invariant
                i <= self.avps@.len(),
                all == self@.avps,
                def_by_code(all, code, vendor) == def_by_code(all.skip(i as int), code, vendor),
            decreases self.avps@.len() - i,
        {
            if self.avps[i].code == code && self.avps[i].vendor_id == vendor {
                return Some(&self.avps[i]);
            }
            assert(all.skip(i as int).skip(1) =~= all.skip(i + 1));
            i += 1;
        }
        None
    }

    pub fn lookup_by_name(&self, name: &str) -> (r: Option<&AvpDef>)
        ensures
            match r {
                Some(def) => def_by_name(self@.avps, name@) == Some(def@),
                None => def_by_name(self@.avps, name@) is None,
            },
    {
        let ghost all = self@.avps;
        let mut i: usize = 0;
        assert(all.skip(0) =~= all);
        while i < self.avps.len()
            invariant
                i <= self.avps@.len(),
                all == self@.avps,
                def_by_name(all, name@) == def_by_name(all.skip(i as int), name@),
            decreases self.avps@.len() - i,
        {
            if same_text(&self.avps[i].name, name) {
                return Some(&self.avps[i]);
            }
            assert(all.skip(i as int).skip(1) =~= all.skip(i + 1));
            i += 1;
        }
        None
    }

    pub fn lookup_avp_by_python_name(&self, key: &str) -> (r: Option<&AvpDef>)
        ensures
            match r {
                Some(def) => def_by_key(self@.avps, key@) == Some(def@),
                None => def_by_key(self@.avps, key@) is None,
            },
    {
        let ghost all = self@.avps;
        let mut i: usize = 0;
        assert(all.skip(0) =~= all);
        while i < self.avps.len()
            invariant
                i <= self.avps@.len(),
                all == self@.avps,
                def_by_key(all, key@) == def_by_key(all.skip(i as int), key@),
            decreases self.avps@.len() - i,
        {
            if same_text(&avp_name_to_snake(&self.avps[i].name), key) {
                return Some(&self.avps[i]);
            }
            assert(all.skip(i as int).skip(1) =~= all.skip(i + 1));
            i += 1;
        }
        None
    }

    pub fn command_code_by_name(&self, name: &str) -> (r: Option<u32>)
        ensures
            r == command_code(self@.commands, name@),
    {
        let ghost all = self@.commands;
        let mut i: usize = 0;
        assert(all.skip(0) =~= all);
        while i < self.commands.len()
            invariant
                i <= self.commands@.len(),
                all == self@.commands,
                command_code(all, name@) == command_code(all.skip(i as int), name@),
            decreases self.commands@.len() - i,
        {
            let c = &self.commands[i];
            if same_ignoring_case(name, &c.name) || same_ignoring_case(
                name,
                &c.name.clone().concat("-Request"),
            ) || same_ignoring_case(name, &c.acronym) {
                return Some(c.code);
            }
            assert(all.skip(i as int).skip(1) =~= all.skip(i + 1));
            i += 1;
        }
        None
    }

    pub fn app_id_by_name(&self, name: &str) -> (r: Option<(u32, u32)>)
        ensures
            r == app_id(self@.applications, name@),
    {
        let ghost all = self@.applications;
        let mut i: usize = 0;
        assert(all.skip(0) =~= all);
        while i < self.applications.len()
            invariant
                i <= self.applications@.len(),
                all == self@.applications,
                app_id(all, name@) == app_id(all.skip(i as int), name@),
            decreases self.applications@.len() - i,
        {
            if same_ignoring_case(&self.applications[i].name, name) {
                return Some((self.applications[i].vendor, self.applications[i].id));
            }
            assert(all.skip(i as int).skip(1) =~= all.skip(i + 1));
            i += 1;
        }
        None
    }

    pub fn app_name_by_id(&self, id: u32) -> (r: Option<String>)
        ensures
            crate::text::opt_text(r) == app_name(self@.applications, id),
    {
        let ghost all = self@.applications;
        let mut i: usize = 0;
        assert(all.skip(0) =~= all);
        while i < self.applications.len()
            invariant
                i <= self.applications@.len(),
                all == self@.applications,
                app_name(all, id) == app_name(all.skip(i as int), id),
            decreases self.applications@.len() - i,
        {
            if self.applications[i].id == id {
                return Some(self.applications[i].name.clone());
            }
            assert(all.skip(i as int).skip(1) =~= all.skip(i + 1));
            i += 1;
        }
        None
    }
}

/// The first non-empty command of a filter that the dictionary does not know.
pub open spec fn unknown_command(commands: Seq<CommandText>, parts: Seq<Seq<char>>) -> Option<Seq<char>>
    decreases parts.len(),
{
    if parts.len() == 0 {
        None
    } else {
        let command = trim(parts[0]);
        if command.len() > 0 && command_code(commands, command) is None {
            Some(command)
        } else {
            unknown_command(commands, parts.skip(1))
        }
    }
}

/// Whether a filter names a command at all.
pub open spec fn names_command(parts: Seq<Seq<char>>) -> bool {
    exists|i: int| 0 <= i < parts.len() && trim(#[trigger] parts[i]).len() > 0
}

/// The application part and the command part of a filter.
pub open spec fn filter_parts(filter: Seq<char>) -> (Option<Seq<char>>, Seq<char>) {
    let at = find_char(filter, ':', 0);
    if at < filter.len() {
        (Some(trim(filter.take(at))), filter.skip(at + 1))
    } else {
        (None, filter)
    }
}

/// What is wrong with a filter.
pub open spec fn filter_error(dict: DictText, filter: Seq<char>) -> Option<ErrorText> {
    let (app, commands) = filter_parts(filter);
    let parts = split(commands, '|');
    if app is Some && app_id(dict.applications, app->0) is None {
        Some(
            value_error(
                "unknown Diameter application in on_request filter: "@ + debug_quoted(app->0),
            ),
        )
    } else {
        match unknown_command(dict.commands, parts) {
            Some(command) => Some(
                value_error(
                    "unknown Diameter command in on_request filter: "@ + debug_quoted(command),
                ),
            ),
            None => if names_command(parts) {
                None
            } else {
                Some(value_error("empty on_request filter"@))
            },
        }
    }
}

/// Checks a filter (`"App:CMD[|CMD...]"` or `"CMD[|CMD...]"`) against the
/// dictionary, so that a typo is an error and not a handler that never fires.
pub fn validate_request_filter(dict: &Dictionary, filter: &str) -> (r: Result<(), ScriptError>)
    ensures
        match r {
            Ok(_) => filter_error(dict@, filter@) is None,
            Err(e) => filter_error(dict@, filter@) == Some(e@),
        },
{
    let chars = chars_of(filter);
    let at = find_char_in(&chars, ':', 0);
    let commands = if at < chars.len() {
        let raw = string_between(&chars, 0, at);
        assert(raw@ =~= filter@.take(at as int));
        let app = trim_text(&raw);
        if dict.app_id_by_name(&app).is_none() {
            return Err(
                ScriptError::value(
                    "unknown Diameter application in on_request filter: ".to_owned().concat(
                        &quote_debug(&app),
                    ),
                ),
            );
        }
        let rest = string_between(&chars, at + 1, chars.len());
        assert(rest@ =~= filter@.skip(at + 1));
        rest
    } else {
        filter.to_owned()
    };
    let parts = split_text(&commands, '|');
    let ghost all = texts(parts@);
    let mut saw_command = false;
    let mut i: usize = 0;
    assert(all.skip(0) =~= all);
    while i < parts.len()
        invariant
            i <= parts@.len(),
            all == texts(parts@),
            unknown_command(dict@.commands, all) == unknown_command(
                dict@.commands,
                all.skip(i as int),
            ),
            saw_command == exists|k: int| 0 <= k < i && trim(#[trigger] all[k]).len() > 0,
            all == split(filter_parts(filter@).1, '|'),
            filter_parts(filter@).0 is Some ==> app_id(
                dict@.applications,
                filter_parts(filter@).0->0,
            ) is Some,
        decreases parts@.len() - i,
    {
        let command = trim_text(&parts[i]);
        assert(all[i as int] == parts@[i as int]@);
        assert(all.skip(i as int).skip(1) =~= all.skip(i + 1));
        if !command.as_str().is_empty() {
            saw_command = true;
            if dict.command_code_by_name(&command).is_none() {
                return Err(
                    ScriptError::value(
                        "unknown Diameter command in on_request filter: ".to_owned().concat(
                            &quote_debug(&command),
                        ),
                    ),
                );
            }
        }
        i += 1;
    }
    if !saw_command {
        return Err(ScriptError::value("empty on_request filter".to_owned()));
    }
    Ok(())
}

/// A filter is accepted exactly where its application, if it names one, is
/// known, it names at least one command, and every command it names is known.
pub proof fn accepted_filter_names_known_commands(dict: DictText, filter: Seq<char>)
    ensures
        filter_error(dict, filter) is None <==> {
            let (app, commands) = filter_parts(filter);
            let parts = split(commands, '|');
            &&& app matches Some(name) ==> app_id(dict.applications, name) is Some
            &&& names_command(parts)
            &&& forall|i: int|
                0 <= i < parts.len() && trim(#[trigger] parts[i]).len() > 0 ==> command_code(
                    dict.commands,
                    trim(parts[i]),
                ) is Some
        },
{
    lemma_unknown_command(dict.commands, split(filter_parts(filter).1, '|'));
}

proof fn lemma_unknown_command(commands: Seq<CommandText>, parts: Seq<Seq<char>>)
    ensures
        unknown_command(commands, parts) is None <==> forall|i: int|
            0 <= i < parts.len() && trim(#[trigger] parts[i]).len() > 0 ==> command_code(
                commands,
                trim(parts[i]),
            ) is Some,
    decreases parts.len(),
{
    if parts.len() > 0 {
        let rest = parts.skip(1);
        lemma_unknown_command(commands, rest);
        if unknown_command(commands, parts) is None {
            assert forall|i: int| 0 <= i < parts.len() && trim(#[trigger] parts[i]).len() > 0 implies command_code(
                commands,
                trim(parts[i]),
            ) is Some by {
                if i > 0 {
                    assert(parts[i] == rest[i - 1]);
                }
            }
        } else if command_code(commands, trim(parts[0])) is Some || trim(parts[0]).len() == 0 {
            let j = choose|j: int|
                0 <= j < rest.len() && trim(#[trigger] rest[j]).len() > 0 && command_code(
                    commands,
                    trim(rest[j]),
                ) is None;
            assert(parts[j + 1] == rest[j]);
        } else {
            assert(trim(parts[0]).len() > 0);
        }
    }
}

} // verus!
