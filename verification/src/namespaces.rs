//! The namespaces that scripts import: those of the server, and those that a
//! host adds.

use crate::error::{runtime_error, ErrorText, ScriptError};
use crate::text::same_text;
use vstd::prelude::*;
use vstd::string::*;

verus! {

/// A name that a namespace of the server has.
pub open spec fn built_in(name: Seq<char>) -> bool {
    ||| name == "proxy"@
    ||| name == "registrar"@
    ||| name == "auth"@
    ||| name == "log"@
    ||| name == "cache"@
    ||| name == "metrics"@
    ||| name == "sdp"@
    ||| name == "timer"@
    ||| name == "isc"@
    ||| name == "b2bua"@
    ||| name == "rtpengine"@
    ||| name == "gateway"@
    ||| name == "cdr"@
    ||| name == "registration"@
    ||| name == "li"@
    ||| name == "diameter"@
    ||| name == "presence"@
    ||| name == "sbi"@
    ||| name == "srs"@
    ||| name == "subscribe_state"@
    ||| name == "ipsec"@
    ||| name == "qos"@
    ||| name == "stir"@
}

/// Whether a namespace of the server has that name.
pub fn is_built_in(name: &str) -> (r: bool)
    ensures
        r == built_in(name@),
{
    same_text(name, "proxy") || same_text(name, "registrar") || same_text(name, "auth")
        || same_text(name, "log") || same_text(name, "cache") || same_text(name, "metrics")
        || same_text(name, "sdp") || same_text(name, "timer") || same_text(name, "isc")
        || same_text(name, "b2bua") || same_text(name, "rtpengine") || same_text(name, "gateway")
        || same_text(name, "cdr") || same_text(name, "registration") || same_text(name, "li")
        || same_text(name, "diameter") || same_text(name, "presence") || same_text(name, "sbi")
        || same_text(name, "srs") || same_text(name, "subscribe_state") || same_text(name, "ipsec")
        || same_text(name, "qos") || same_text(name, "stir")
}

/// The namespaces that a host added, in their order, each with the number of
/// its object.
pub struct UserNamespaces {
    entries: Vec<(String, u64)>,
}

/// Names and objects as mathematical data.
pub open spec fn named_objects(v: Seq<(String, u64)>) -> Seq<(Seq<char>, u64)> {
    Seq::new(v.len(), |i: int| (v[i].0@, v[i].1))
}

impl View for UserNamespaces {
    type V = Seq<(Seq<char>, u64)>;

    closed spec fn view(&self) -> Seq<(Seq<char>, u64)> {
        named_objects(self.entries@)
    }
}

pub open spec fn registered(entries: Seq<(Seq<char>, u64)>, name: Seq<char>) -> bool {
    exists|i: int| 0 <= i < entries.len() && (#[trigger] entries[i]).0 == name
}

/// No namespace of a host has a name of the server or of another host
/// namespace.
pub open spec fn no_collision(entries: Seq<(Seq<char>, u64)>) -> bool {
    &&& forall|i: int| 0 <= i < entries.len() ==> !built_in((#[trigger] entries[i]).0)
    &&& forall|i: int, j: int|
        0 <= i < j < entries.len() ==> (#[trigger] entries[i]).0 != (#[trigger] entries[j]).0
}

/// Why a namespace cannot be added, if it cannot.
pub open spec fn collision(entries: Seq<(Seq<char>, u64)>, name: Seq<char>) -> Option<ErrorText> {
    if built_in(name) {
        Some(
            runtime_error(
                "user namespace '"@ + name + "' collides with a built-in siphon namespace"@,
            ),
        )
    } else if registered(entries, name) {
        Some(runtime_error("user namespace '"@ + name + "' is already registered"@))
    } else {
        None
    }
}

impl UserNamespaces {
    pub open spec fn wf(&self) -> bool {
        no_collision(self@)
    }

    pub fn new() -> (r: Self)
        ensures
            r@.len() == 0,
            r.wf(),
    {
        UserNamespaces { entries: Vec::new() }
    }

    fn is_registered(&self, name: &str) -> (r: bool)
        ensures
            r == registered(self@, name@),
    {
        let mut i: usize = 0;
        while i < self.entries.len()
            invariant
                i <= self.entries@.len(),
                self@ == named_objects(self.entries@),
                forall|k: int| 0 <= k < i ==> (#[trigger] self@[k]).0 != name@,
            decreases self.entries@.len() - i,
        {
            assert(self@[i as int].0 == self.entries@[i as int].0@);
            if same_text(&self.entries[i].0, name) {
                return true;
            }
            i += 1;
        }
        false
    }

    /// Adds a namespace of a host under a name that is free.
    pub fn set_user_namespace(&mut self, name: &str, object: u64) -> (r: Result<(), ScriptError>)
        requires
            old(self).wf(),
        ensures
            final(self).wf(),
            match r {
                Ok(()) => collision(old(self)@, name@) is None && final(self)@ == old(self)@.push(
                    (name@, object),
                ),
                Err(e) => collision(old(self)@, name@) == Some(e@) && final(self)@ == old(self)@,
            },
    {
        if is_built_in(name) {
            return Err(
                ScriptError::runtime(
                    "user namespace '".to_owned().concat(name).concat(
                        "' collides with a built-in siphon namespace",
                    ),
                ),
            );
        }
        if self.is_registered(name) {
            return Err(
                ScriptError::runtime(
                    "user namespace '".to_owned().concat(name).concat("' is already registered"),
                ),
            );
        }
        self.entries.push((name.to_owned(), object));
        proof {
            assert(self@ =~= old(self)@.push((name@, object)));
            let after = self@;
            assert forall|i: int| 0 <= i < after.len() implies !built_in((#[trigger] after[i]).0) by {
                if i < old(self)@.len() {
                    assert(after[i] == old(self)@[i]);
                }
            }
            assert forall|i: int, j: int| 0 <= i < j < after.len() implies (#[trigger] after[i]).0
                != (#[trigger] after[j]).0 by {
                assert(after[i] == old(self)@[i]);
                if j < old(self)@.len() {
                    assert(after[j] == old(self)@[j]);
                } else {
                    assert(old(self)@[i].0 != name@);
                }
            }
        }
        Ok(())
    }

    /// Removes all the namespaces of hosts.
    pub fn clear_user_namespaces(&mut self)
        ensures
            final(self)@.len() == 0,
            final(self).wf(),
    {
        self.entries = Vec::new();
    }

    /// How many namespaces hosts added.
    pub fn len(&self) -> (r: usize)
        ensures
            r == self@.len(),
    {
        self.entries.len()
    }

    /// The namespace at a position: its name and the number of its object.
    pub fn get(&self, i: usize) -> (r: Option<(String, u64)>)
        ensures
            match r {
                Some((name, object)) => i < self@.len() && self@[i as int] == (name@, object),
                None => i >= self@.len(),
            },
    {
        if i < self.entries.len() {
            Some((self.entries[i].0.clone(), self.entries[i].1))
        } else {
            None
        }
    }
}

/// A name that is taken stays taken: it cannot be added a second time.
pub proof fn name_is_taken_once(entries: Seq<(Seq<char>, u64)>, name: Seq<char>, object: u64)
    requires
        collision(entries, name) is None,
    ensures
        collision(entries.push((name, object)), name) is Some,
{
    let after = entries.push((name, object));
    assert(after[entries.len() as int].0 == name);
}

/// The objects that the server puts in place. Two of them are attributes of
/// the `proxy` namespace, the others of the module.
#[derive(Clone, Copy, Debug, PartialEq, Eq, Structural)]
pub enum Slot {
    Auth,
    Registrar,
    Log,
    Cache,
    ProxyUtils,
    SubscribeState,
    RtpEngine,
    Gateway,
    Cdr,
    Registration,
    Li,
    Diameter,
    Presence,
    Metrics,
    Sdp,
    Qos,
    Timer,
    Isc,
    Sbi,
    Ipsec,
    Stir,
}

/// The name of an object where scripts see it.
pub open spec fn slot_name(slot: Slot) -> Seq<char> {
    match slot {
        Slot::Auth => "auth"@,
        Slot::Registrar => "registrar"@,
        Slot::Log => "log"@,
        Slot::Cache => "cache"@,
        Slot::ProxyUtils => "_utils"@,
        Slot::SubscribeState => "subscribe_state"@,
        Slot::RtpEngine => "rtpengine"@,
        Slot::Gateway => "gateway"@,
        Slot::Cdr => "cdr"@,
        Slot::Registration => "registration"@,
        Slot::Li => "li"@,
        Slot::Diameter => "diameter"@,
        Slot::Presence => "presence"@,
        Slot::Metrics => "metrics"@,
        Slot::Sdp => "sdp"@,
        Slot::Qos => "qos"@,
        Slot::Timer => "timer"@,
        Slot::Isc => "isc"@,
        Slot::Sbi => "sbi"@,
        Slot::Ipsec => "ipsec"@,
        Slot::Stir => "stir"@,
    }
}

pub open spec fn on_proxy(slot: Slot) -> bool {
    slot == Slot::ProxyUtils || slot == Slot::SubscribeState
}

impl Slot {
    pub fn name(&self) -> (r: &'static str)
        ensures
            r@ == slot_name(*self),
    {
        match self {
            Slot::Auth => "auth",
            Slot::Registrar => "registrar",
            Slot::Log => "log",
            Slot::Cache => "cache",
            Slot::ProxyUtils => "_utils",
            Slot::SubscribeState => "subscribe_state",
            Slot::RtpEngine => "rtpengine",
            Slot::Gateway => "gateway",
            Slot::Cdr => "cdr",
            Slot::Registration => "registration",
            Slot::Li => "li",
            Slot::Diameter => "diameter",
            Slot::Presence => "presence",
            Slot::Metrics => "metrics",
            Slot::Sdp => "sdp",
            Slot::Qos => "qos",
            Slot::Timer => "timer",
            Slot::Isc => "isc",
            Slot::Sbi => "sbi",
            Slot::Ipsec => "ipsec",
            Slot::Stir => "stir",
        }
    }

    /// Whether the object is an attribute of the `proxy` namespace.
    pub fn is_on_proxy(&self) -> (r: bool)
        ensures
            r == on_proxy(*self),
    {
        match self {
            Slot::ProxyUtils | Slot::SubscribeState => true,
            _ => false,
        }
    }
}

/// An attribute that a script sees: where, under which name, and the number of
/// the object.
#[derive(Debug, PartialEq)]
pub struct Attribute {
    pub on_proxy: bool,
    pub name: String,
    pub object: u64,
}

/// The same as mathematical data.
pub struct AttributeText {
    pub on_proxy: bool,
    pub name: Seq<char>,
    pub object: u64,
}

impl View for Attribute {
    type V = AttributeText;

    open spec fn view(&self) -> AttributeText {
        AttributeText { on_proxy: self.on_proxy, name: self.name@, object: self.object }
    }
}

pub open spec fn attributes_text(v: Seq<Attribute>) -> Seq<AttributeText> {
    Seq::new(v.len(), |i: int| v[i]@)
}

/// The objects in place, in the order in which they came.
pub struct Singletons {
    entries: Vec<(Slot, u64)>,
}

impl View for Singletons {
    type V = Seq<(Slot, u64)>;

    closed spec fn view(&self) -> Seq<(Slot, u64)> {
        self.entries@
    }
}

pub open spec fn occupied(entries: Seq<(Slot, u64)>, slot: Slot) -> bool {
    exists|i: int| 0 <= i < entries.len() && (#[trigger] entries[i]).0 == slot
}

/// No slot holds two objects.
pub open spec fn one_per_slot(entries: Seq<(Slot, u64)>) -> bool {
    forall|i: int, j: int|
        0 <= i < j < entries.len() ==> (#[trigger] entries[i]).0 != (#[trigger] entries[j]).0
}

/// The objects after one is put in place: the first in a slot stays.
pub open spec fn after_set(entries: Seq<(Slot, u64)>, slot: Slot, object: u64) -> Seq<(Slot, u64)> {
    if occupied(entries, slot) {
        entries
    } else {
        entries.push((slot, object))
    }
}

pub open spec fn slot_attribute(entry: (Slot, u64)) -> AttributeText {
    AttributeText { on_proxy: on_proxy(entry.0), name: slot_name(entry.0), object: entry.1 }
}

pub open spec fn user_attribute(entry: (Seq<char>, u64)) -> AttributeText {
    AttributeText { on_proxy: false, name: entry.0, object: entry.1 }
}

/// What scripts see: the objects of the server, then the namespaces of hosts.
pub open spec fn visible(slots: Seq<(Slot, u64)>, users: Seq<(Seq<char>, u64)>) -> Seq<AttributeText> {
    Seq::new(slots.len(), |i: int| slot_attribute(slots[i])) + Seq::new(
        users.len(),
        |i: int| user_attribute(users[i]),
    )
}

impl Singletons {
    pub open spec fn wf(&self) -> bool {
        one_per_slot(self@)
    }

    pub fn new() -> (r: Self)
        ensures
            r@.len() == 0,
            r.wf(),
    {
        Singletons { entries: Vec::new() }
    }

    pub fn is_set(&self, slot: Slot) -> (r: bool)
        ensures
            r == occupied(self@, slot),
    {
        let mut i: usize = 0;
        while i < self.entries.len()
            invariant
                i <= self.entries@.len(),
                forall|k: int| 0 <= k < i ==> (#[trigger] self.entries@[k]).0 != slot,
            decreases self.entries@.len() - i,
        {
            if self.entries[i].0 == slot {
                return true;
            }
            i += 1;
        }
        false
    }

    /// Puts an object in place; where there is one already, that one stays.
    pub fn set_singleton(&mut self, slot: Slot, object: u64)
        requires
            old(self).wf(),
        ensures
            final(self).wf(),
            final(self)@ == after_set(old(self)@, slot, object),
    {
        if !self.is_set(slot) {
            self.entries.push((slot, object));
            proof {
                let before = old(self)@;
                assert(self@ == before.push((slot, object)));
                assert forall|i: int, j: int| 0 <= i < j < self@.len() implies (#[trigger] self@[i]).0
                    != (#[trigger] self@[j]).0 by {
                    assert(self@[i] == before[i]);
                    if j < before.len() {
                        assert(self@[j] == before[j]);
                    }
                }
            }
        }
    }

    /// The attributes to set when the module is installed.
    pub fn attributes(&self, users: &UserNamespaces) -> (r: Vec<Attribute>)
        ensures
            attributes_text(r@) == visible(self@, users@),
    {
        let ghost want = visible(self@, users@);
        let mut out: Vec<Attribute> = Vec::new();
        let mut i: usize = 0;
        while i < self.entries.len()
            invariant
                i <= self.entries@.len(),
                want == visible(self@, users@),
                attributes_text(out@) == want.take(i as int),
            decreases self.entries@.len() - i,
        {
            let ghost before = out@;
            let (slot, object) = self.entries[i];
            let attribute = Attribute {
                on_proxy: slot.is_on_proxy(),
                name: slot.name().to_owned(),
                object,
            };
            out.push(attribute);
            assert(attributes_text(out@) =~= attributes_text(before).push(attribute@));
            assert(attributes_text(out@) =~= want.take(i + 1));
            i += 1;
        }
        let mut k: usize = 0;
        while k < users.len()
            invariant
                k <= users@.len(),
                want == visible(self@, users@),
                attributes_text(out@) == want.take(self@.len() + k),
            decreases users@.len() - k,
        {
            let ghost before = out@;
            match users.get(k) {
                Some((name, object)) => {
                    let attribute = Attribute { on_proxy: false, name, object };
                    out.push(attribute);
                    assert(attributes_text(out@) =~= attributes_text(before).push(attribute@));
                    assert(attributes_text(out@) =~= want.take(self@.len() + k + 1));
                },
                None => {},
            }
            k += 1;
        }
        assert(want.take(want.len() as int) =~= want);
        out
    }
}

proof fn lemma_slot_names(a: Slot, b: Slot)
    requires
        a != b,
    ensures
        slot_name(a) != slot_name(b),
        on_proxy(a) || built_in(slot_name(a)),
{
    reveal_strlit("auth");
    reveal_strlit("registrar");
    reveal_strlit("log");
    reveal_strlit("cache");
    reveal_strlit("_utils");
    reveal_strlit("subscribe_state");
    reveal_strlit("rtpengine");
    reveal_strlit("gateway");
    reveal_strlit("cdr");
    reveal_strlit("registration");
    reveal_strlit("li");
    reveal_strlit("diameter");
    reveal_strlit("presence");
    reveal_strlit("metrics");
    reveal_strlit("sdp");
    reveal_strlit("qos");
    reveal_strlit("timer");
    reveal_strlit("isc");
    reveal_strlit("sbi");
    reveal_strlit("ipsec");
    reveal_strlit("stir");
    let n = slot_name(a);
    let m = slot_name(b);
    assert(n.len() != m.len() || n[0] != m[0] || n[1] != m[1]);
}

/// No attribute hides another: what scripts see has one object under each name,
/// and no namespace of a host stands where the server's own belongs.
pub proof fn attributes_hide_nothing(slots: Seq<(Slot, u64)>, users: Seq<(Seq<char>, u64)>, i: int, j: int)
    requires
        one_per_slot(slots),
        no_collision(users),
        0 <= i < j < visible(slots, users).len(),
    ensures
        visible(slots, users)[i].on_proxy != visible(slots, users)[j].on_proxy || visible(
            slots,
            users,
        )[i].name != visible(slots, users)[j].name,
{
    let all = visible(slots, users);
    let n = slots.len() as int;
    if j < n {
        assert(slots[i].0 != slots[j].0);
        lemma_slot_names(slots[i].0, slots[j].0);
    } else {
        assert(all[j] == user_attribute(users[j - n]));
        assert(!built_in(users[j - n].0));
        if i < n {
            assert(all[i] == slot_attribute(slots[i]));
            let other = if slots[i].0 == Slot::Log {
                Slot::Auth
            } else {
                Slot::Log
            };
            lemma_slot_names(slots[i].0, other);
        } else {
            assert(all[i] == user_attribute(users[i - n]));
            assert(users[i - n].0 != users[j - n].0);
        }
    }
}

/// The first object in a slot stays, whatever is put there later.
pub proof fn first_object_stays(entries: Seq<(Slot, u64)>, slot: Slot, first: u64, later: u64)
    ensures
        after_set(after_set(entries, slot, first), slot, later) == after_set(entries, slot, first),
{
    let once = after_set(entries, slot, first);
    if !occupied(entries, slot) {
        assert(once[entries.len() as int].0 == slot);
    }
}

} // verus!
