//! Laws of the Diameter dictionary.

use crate::diameter::dictionary::{
    app_id, app_name, avp_name_to_snake, command_answers_to, command_code, command_of, def_by_code,
    def_by_key, def_by_name, snake, AppText, AvpDef, CommandText, DefText, Dictionary,
};
use crate::diameter::generic::{json_to_py, JsonValue};
use crate::diameter::server::resolve_code;
use crate::pyvalue::{PyText, PyValue};
use crate::text::{lower, opt_text};
use vstd::prelude::*;
use vstd::string::*;

verus! {

proof fn lemma_by_code(avps: Seq<DefText>, code: u32, vendor: u32, i: int)
    requires
        0 <= i < avps.len(),
        avps[i].code == code && avps[i].vendor_id == vendor,
        forall|j: int|
            0 <= j < i ==> !((#[trigger] avps[j]).code == code && avps[j].vendor_id == vendor),
    ensures
        def_by_code(avps, code, vendor) == Some(avps[i]),
    decreases avps.len(),
{
    if i > 0 {
        let rest = avps.skip(1);
        assert(!(avps[0].code == code && avps[0].vendor_id == vendor));
        assert forall|j: int| 0 <= j < i - 1 implies !((#[trigger] rest[j]).code == code
            && rest[j].vendor_id == vendor) by {
            assert(rest[j] == avps[j + 1]);
        }
        lemma_by_code(rest, code, vendor, i - 1);
    }
}

proof fn lemma_by_name(avps: Seq<DefText>, name: Seq<char>, i: int)
    requires
        0 <= i < avps.len(),
        avps[i].name == name,
        forall|j: int| 0 <= j < i ==> (#[trigger] avps[j]).name != name,
    ensures
        def_by_name(avps, name) == Some(avps[i]),
    decreases avps.len(),
{
    if i > 0 {
        let rest = avps.skip(1);
        assert(avps[0].name != name);
        assert forall|j: int| 0 <= j < i - 1 implies (#[trigger] rest[j]).name != name by {
            assert(rest[j] == avps[j + 1]);
        }
        lemma_by_name(rest, name, i - 1);
    }
}

proof fn lemma_by_key(avps: Seq<DefText>, key: Seq<char>, i: int)
    requires
        0 <= i < avps.len(),
        snake(avps[i].name) == key,
        forall|j: int| 0 <= j < i ==> snake((#[trigger] avps[j]).name) != key,
    ensures
        def_by_key(avps, key) == Some(avps[i]),
    decreases avps.len(),
{
    if i > 0 {
        let rest = avps.skip(1);
        assert(snake(avps[0].name) != key);
        assert forall|j: int| 0 <= j < i - 1 implies snake((#[trigger] rest[j]).name) != key by {
            assert(rest[j] == avps[j + 1]);
        }
        lemma_by_key(rest, key, i - 1);
    }
}

/// A definition is found by its code and its vendor together: the first that has
/// both.
pub proof fn definition_is_found_by_code_and_vendor(
    dict: Dictionary,
    i: int,
    found: Option<&AvpDef>,
)
    requires
        0 <= i < dict.avps@.len(),
        forall|j: int|
            0 <= j < i ==> !((#[trigger] dict.avps@[j]).code == dict.avps@[i].code
                && dict.avps@[j].vendor_id == dict.avps@[i].vendor_id),
        call_ensures(
            Dictionary::lookup_avp,
            (&dict, dict.avps@[i].code, dict.avps@[i].vendor_id),
            found,
        ),
    ensures
        found matches Some(def) && def@ == dict.avps@[i]@,
{
    let avps = dict@.avps;
    assert(avps[i] == dict.avps@[i]@);
    assert forall|j: int| 0 <= j < i implies !((#[trigger] avps[j]).code == dict.avps@[i].code
        && avps[j].vendor_id == dict.avps@[i].vendor_id) by {
        assert(avps[j] == dict.avps@[j]@);
    }
    lemma_by_code(avps, dict.avps@[i].code, dict.avps@[i].vendor_id, i);
}

/// A definition is found by its name, and by the name's form as a keyword: the
/// first that has it.
pub proof fn definition_is_found_by_name(
    dict: Dictionary,
    i: int,
    name: &str,
    key: &str,
    named: Option<&AvpDef>,
    keyed: Option<&AvpDef>,
)
    requires
        0 <= i < dict.avps@.len(),
        name@ == dict.avps@[i].name@,
        forall|j: int| 0 <= j < i ==> (#[trigger] dict.avps@[j]).name@ != name@,
        key@ == snake(name@),
        forall|j: int| 0 <= j < i ==> snake((#[trigger] dict.avps@[j]).name@) != key@,
        call_ensures(Dictionary::lookup_by_name, (&dict, name), named),
        call_ensures(Dictionary::lookup_avp_by_python_name, (&dict, key), keyed),
    ensures
        named matches Some(def) && def@ == dict.avps@[i]@,
        keyed matches Some(def) && def@ == dict.avps@[i]@,
{
    let avps = dict@.avps;
    assert(avps[i] == dict.avps@[i]@);
    assert forall|j: int| 0 <= j < i implies (#[trigger] avps[j]).name != name@ by {
        assert(avps[j] == dict.avps@[j]@);
    }
    assert forall|j: int| 0 <= j < i implies snake((#[trigger] avps[j]).name) != key@ by {
        assert(avps[j] == dict.avps@[j]@);
    }
    lemma_by_name(avps, name@, i);
    lemma_by_key(avps, key@, i);
}

/// A name is written as a keyword letter by letter: a hyphen as an underscore, a
/// capital as its small letter, anything else as it is.
pub proof fn keyword_is_the_name_letter_by_letter(name: &str, key: String)
    requires
        call_ensures(avp_name_to_snake, (name,), key),
    ensures
        key@.len() == name@.len(),
        forall|i: int|
            0 <= i < name@.len() ==> (#[trigger] key@[i]) == if name@[i] == '-' {
                '_'
            } else {
                lower(name@)[i]
            },
{
}

proof fn lemma_command_code(commands: Seq<CommandText>, name: Seq<char>, i: int)
    requires
        0 <= i < commands.len(),
        command_answers_to(commands[i], name),
        forall|j: int| 0 <= j < i ==> !command_answers_to(#[trigger] commands[j], name),
    ensures
        command_code(commands, name) == Some(commands[i].code),
    decreases commands.len(),
{
    if i > 0 {
        let rest = commands.skip(1);
        assert(!command_answers_to(commands[0], name));
        assert forall|j: int| 0 <= j < i - 1 implies !command_answers_to(
            #[trigger] rest[j],
            name,
        ) by {
            assert(rest[j] == commands[j + 1]);
        }
        lemma_command_code(rest, name, i - 1);
    }
}

proof fn lemma_command_of(commands: Seq<CommandText>, code: u32, i: int)
    requires
        0 <= i < commands.len(),
        commands[i].code == code,
        forall|j: int| 0 <= j < i ==> (#[trigger] commands[j]).code != code,
    ensures
        command_of(commands, code) == Some(commands[i].name),
    decreases commands.len(),
{
    if i > 0 {
        let rest = commands.skip(1);
        assert(commands[0].code != code);
        assert forall|j: int| 0 <= j < i - 1 implies (#[trigger] rest[j]).code != code by {
            assert(rest[j] == commands[j + 1]);
        }
        lemma_command_of(rest, code, i - 1);
    }
}

/// A command is found by its name, by its name as a request or by its acronym, in
/// any case, and is shown as a request or as an answer by its name and that word.
pub proof fn command_is_found_by_its_names(
    dict: Dictionary,
    i: int,
    name: &str,
    code: Option<u32>,
    request: String,
    answer: String,
)
    requires
        0 <= i < dict.commands@.len(),
        lower(name@) == lower(dict.commands@[i].name@) || lower(name@) == lower(
            dict.commands@[i].name@ + "-Request"@,
        ) || lower(name@) == lower(dict.commands@[i].acronym@),
        forall|j: int|
            0 <= j < i ==> !command_answers_to((#[trigger] dict.commands@[j])@, name@)
                && dict.commands@[j].code != dict.commands@[i].code,
        call_ensures(Dictionary::command_code_by_name, (&dict, name), code),
        call_ensures(Dictionary::command_name, (&dict, dict.commands@[i].code, true), request),
        call_ensures(Dictionary::command_name, (&dict, dict.commands@[i].code, false), answer),
    ensures
        code == Some(dict.commands@[i].code),
        request@ == dict.commands@[i].name@ + "-Request"@,
        answer@ == dict.commands@[i].name@ + "-Answer"@,
{
    let commands = dict@.commands;
    assert(commands[i] == dict.commands@[i]@);
    assert forall|j: int| 0 <= j < i implies !command_answers_to(#[trigger] commands[j], name@) by {
        assert(commands[j] == dict.commands@[j]@);
    }
    assert forall|j: int| 0 <= j < i implies (#[trigger] commands[j]).code
        != dict.commands@[i].code by {
        assert(commands[j] == dict.commands@[j]@);
    }
    lemma_command_code(commands, name@, i);
    lemma_command_of(commands, dict.commands@[i].code, i);
}

proof fn lemma_app_id(apps: Seq<AppText>, name: Seq<char>, i: int)
    requires
        0 <= i < apps.len(),
        lower(apps[i].name) == lower(name),
        forall|j: int| 0 <= j < i ==> lower((#[trigger] apps[j]).name) != lower(name),
    ensures
        app_id(apps, name) == Some((apps[i].vendor, apps[i].id)),
    decreases apps.len(),
{
    if i > 0 {
        let rest = apps.skip(1);
        assert(lower(apps[0].name) != lower(name));
        assert forall|j: int| 0 <= j < i - 1 implies lower((#[trigger] rest[j]).name) != lower(
            name,
        ) by {
            assert(rest[j] == apps[j + 1]);
        }
        lemma_app_id(rest, name, i - 1);
    }
}

proof fn lemma_app_name(apps: Seq<AppText>, id: u32, i: int)
    requires
        0 <= i < apps.len(),
        apps[i].id == id,
        forall|j: int| 0 <= j < i ==> (#[trigger] apps[j]).id != id,
    ensures
        app_name(apps, id) == Some(apps[i].name),
    decreases apps.len(),
{
    if i > 0 {
        let rest = apps.skip(1);
        assert(apps[0].id != id);
        assert forall|j: int| 0 <= j < i - 1 implies (#[trigger] rest[j]).id != id by {
            assert(rest[j] == apps[j + 1]);
        }
        lemma_app_name(rest, id, i - 1);
    }
}

/// An application is found by its name, in any case, as its vendor and its
/// number; by its number it is found as its name.
pub proof fn application_is_found_by_name_and_number(
    dict: Dictionary,
    i: int,
    name: &str,
    id: Option<(u32, u32)>,
    shown: Option<String>,
)
    requires
        0 <= i < dict.applications@.len(),
        lower(name@) == lower(dict.applications@[i].name@),
        forall|j: int|
            0 <= j < i ==> lower((#[trigger] dict.applications@[j]).name@) != lower(name@)
                && dict.applications@[j].id != dict.applications@[i].id,
        call_ensures(Dictionary::app_id_by_name, (&dict, name), id),
        call_ensures(Dictionary::app_name_by_id, (&dict, dict.applications@[i].id), shown),
    ensures
        id == Some((dict.applications@[i].vendor, dict.applications@[i].id)),
        opt_text(shown) == Some(dict.applications@[i].name@),
{
    let apps = dict@.applications;
    assert(apps[i] == dict.applications@[i]@);
    assert forall|j: int| 0 <= j < i implies lower((#[trigger] apps[j]).name) != lower(name@) by {
        assert(apps[j] == dict.applications@[j]@);
    }
    assert forall|j: int| 0 <= j < i implies (#[trigger] apps[j]).id != dict.applications@[i].id by {
        assert(apps[j] == dict.applications@[j]@);
    }
    lemma_app_id(apps, name@, i);
    lemma_app_name(apps, dict.applications@[i].id, i);
}

/// An AVP that a script names by its number is that code of the base protocol;
/// one that it names by its name is the code and the vendor of the definition.
pub proof fn avp_is_named_by_number_or_name(
    dict: Dictionary,
    arg: PyValue,
    name: &str,
    def: Option<&AvpDef>,
    found: (u32, u32),
)
    requires
        call_ensures(resolve_code, (&dict, &arg), Ok(found)),
        arg@ matches PyText::Text(text) ==> text == name@,
        call_ensures(Dictionary::lookup_by_name, (&dict, name), def),
    ensures
        match arg@ {
            PyText::Int(n) => found.0 == n && found.1 == 0,
            PyText::Text(_) => def matches Some(d) && found.0 == d.code && found.1 == d.vendor_id,
            _ => true,
        },
{
}

proof fn lemma_json_list(v: Vec<JsonValue>, n: nat)
    requires
        n <= v@.len(),
    ensures
        crate::diameter::generic::json_list(v, n).len() == n,
        forall|i: int|
            0 <= i < n ==> #[trigger] crate::diameter::generic::json_list(v, n)[i]
                == crate::diameter::generic::json_py(v[i]),
    decreases n,
{
    if n > 0 {
        lemma_json_list(v, (n - 1) as nat);
    }
}

/// A decoded answer is told value by value: what is plain as itself, a list item
/// by item in its order.
pub proof fn decoded_value_is_told_item_by_item(
    value: JsonValue,
    told: PyValue,
    i: int,
    item: PyValue,
)
    requires
        call_ensures(json_to_py, (&value,), told),
        value matches JsonValue::Array(v) ==> 0 <= i < v@.len() && call_ensures(
            json_to_py,
            (&v@[i],),
            item,
        ),
    ensures
        match value {
            JsonValue::Null => told@ == PyText::Nothing,
            JsonValue::Bool(b) => told@ == PyText::Bool(b),
            JsonValue::Unsigned(n) => told@ == PyText::Int(n as int),
            JsonValue::Signed(n) => told@ == PyText::Int(n as int),
            JsonValue::Text(s) => told@ == PyText::Text(s@),
            JsonValue::Array(v) => told@ matches PyText::List(items) && items.len() == v@.len()
                && items[i] == item@,
            _ => true,
        },
{
    if let JsonValue::Array(v) = value {
        lemma_json_list(v, v@.len());
        assert(crate::diameter::generic::json_list(v, v@.len())[i]
            == crate::diameter::generic::json_py(v[i]));
    }
}

} // verus!
