//! Number policies: in which shape the telephone numbers of a message's
//! identity headers are written.
//!
//! Which policy applies is decided here. Reading and reshaping a single number
//! is the work of the numbering engine; what it made of a message is handed in.

use crate::error::{value_error, ErrorText, ScriptError};
use crate::sip::{
    HeaderText, Headers, MessageText, SipMessage, SipUri, StartLine, StartText, UriText,
};
use crate::text::{
    debug_quoted, opt_str, opt_text, quote_debug, same_text, starts_with, strip_prefix, texts, trim,
    trim_text, to_lower, lower,
};
use vstd::prelude::*;
use vstd::string::*;

verus! {

/// A shape of a telephone number.
#[derive(Clone, Copy, Debug, PartialEq, Eq, Structural)]
pub enum NumberFormat {
    E164,
    Plain,
    International,
    National,
}

/// A place of a message that carries an identity.
#[derive(Clone, Copy, Debug, PartialEq, Eq, Structural)]
pub enum IdentityHeader {
    RequestUri,
    From,
    To,
    PAssertedIdentity,
    PPreferredIdentity,
}

/// The home numbering plan.
#[derive(Debug, PartialEq)]
pub struct NumberLocale {
    pub country_code: String,
    pub international_prefix: String,
    pub national_prefix: String,
}

/// A numbering plan as its texts.
pub struct LocaleText {
    pub country_code: Seq<char>,
    pub international_prefix: Seq<char>,
    pub national_prefix: Seq<char>,
}

impl View for NumberLocale {
    type V = LocaleText;

    open spec fn view(&self) -> LocaleText {
        LocaleText {
            country_code: self.country_code@,
            international_prefix: self.international_prefix@,
            national_prefix: self.national_prefix@,
        }
    }
}

impl NumberLocale {
    pub fn copy(&self) -> (r: Self)
        ensures
            r@ == self@,
    {
        NumberLocale {
            country_code: self.country_code.clone(),
            international_prefix: self.international_prefix.clone(),
            national_prefix: self.national_prefix.clone(),
        }
    }
}

/// Which headers are walked, and the shape of the numbers in each.
#[derive(Debug, PartialEq)]
pub struct NumberPolicy {
    pub locale: NumberLocale,
    pub default_format: NumberFormat,
    pub overrides: Vec<(IdentityHeader, NumberFormat)>,
    pub headers: Vec<IdentityHeader>,
}

/// A policy as mathematical data.
pub struct PolicyText {
    pub locale: LocaleText,
    pub default_format: NumberFormat,
    pub overrides: Seq<(IdentityHeader, NumberFormat)>,
    pub headers: Seq<IdentityHeader>,
}

impl View for NumberPolicy {
    type V = PolicyText;

    open spec fn view(&self) -> PolicyText {
        PolicyText {
            locale: self.locale@,
            default_format: self.default_format,
            overrides: self.overrides@,
            headers: self.headers@,
        }
    }
}

/// The shape that a policy asks for in one header.
pub open spec fn format_in(p: PolicyText, header: IdentityHeader) -> NumberFormat
    decreases p.overrides.len(),
{
    if p.overrides.len() == 0 {
        p.default_format
    } else {
        let (place, format) = p.overrides.last();
        if place == header {
            format
        } else {
            format_in(PolicyText { overrides: p.overrides.drop_last(), ..p }, header)
        }
    }
}

impl NumberPolicy {
    /// One shape for all the walked headers.
    pub fn uniform(locale: NumberLocale, format: NumberFormat, headers: Vec<IdentityHeader>) -> (r: Self)
        ensures
            r@ == (PolicyText {
                locale: locale@,
                default_format: format,
                overrides: Seq::empty(),
                headers: headers@,
            }),
    {
        NumberPolicy { locale, default_format: format, overrides: Vec::new(), headers }
    }

    /// The shape that the policy asks for in one header.
    pub fn format_for(&self, header: IdentityHeader) -> (r: NumberFormat)
        ensures
            r == format_in(self@, header),
    {
        let mut i: usize = self.overrides.len();
        let ghost all = self@;
        assert(self.overrides@.take(self.overrides@.len() as int) =~= self.overrides@);
        while i > 0
            invariant
                i <= self.overrides@.len(),
                all == self@,
                format_in(all, header) == format_in(
                    (PolicyText { overrides: self.overrides@.take(i as int), ..all }),
                    header,
                ),
            decreases i,
        {
            assert(self.overrides@.take(i as int).drop_last() =~= self.overrides@.take(i - 1));
            let (place, format) = self.overrides[i - 1];
            if place == header {
                return format;
            }
            i -= 1;
        }
        self.default_format
    }

    pub fn copy(&self) -> (r: Self)
        ensures
            r@ == self@,
    {
        let mut overrides: Vec<(IdentityHeader, NumberFormat)> = Vec::new();
        let mut i: usize = 0;
        while i < self.overrides.len()
            invariant
                i <= self.overrides@.len(),
                overrides@ == self.overrides@.take(i as int),
            decreases self.overrides@.len() - i,
        {
            overrides.push(self.overrides[i]);
            assert(overrides@ =~= self.overrides@.take(i + 1));
            i += 1;
        }
        let mut headers: Vec<IdentityHeader> = Vec::new();
        let mut k: usize = 0;
        while k < self.headers.len()
            invariant
                k <= self.headers@.len(),
                headers@ == self.headers@.take(k as int),
            decreases self.headers@.len() - k,
        {
            headers.push(self.headers[k]);
            assert(headers@ =~= self.headers@.take(k + 1));
            k += 1;
        }
        assert(overrides@ =~= self.overrides@);
        assert(headers@ =~= self.headers@);
        NumberPolicy {
            locale: self.locale.copy(),
            default_format: self.default_format,
            overrides,
            headers,
        }
    }
}

/// The policies of a configuration, by name.
#[derive(Debug, PartialEq)]
pub struct NumberRegistry {
    pub default_locale: NumberLocale,
    pub policies: Vec<(String, NumberPolicy)>,
}

/// Named policies as mathematical data.
pub open spec fn policies_text(v: Seq<(String, NumberPolicy)>) -> Seq<(Seq<char>, PolicyText)> {
    Seq::new(v.len(), |i: int| (v[i].0@, v[i].1@))
}

/// The first policy of that name.
pub open spec fn policy_named(policies: Seq<(Seq<char>, PolicyText)>, name: Seq<char>) -> Option<
    PolicyText,
>
    decreases policies.len(),
{
    if policies.len() == 0 {
        None
    } else if policies[0].0 == name {
        Some(policies[0].1)
    } else {
        policy_named(policies.skip(1), name)
    }
}

/// An optional policy as mathematical data.
pub open spec fn opt_policy(p: Option<NumberPolicy>) -> Option<PolicyText> {
    match p {
        Some(policy) => Some(policy@),
        None => None,
    }
}

impl NumberRegistry {
    /// A copy of the policy of that name.
    pub fn get(&self, name: &str) -> (r: Option<NumberPolicy>)
        ensures
            opt_policy(r) == policy_named(policies_text(self.policies@), name@),
    {
        let ghost all = policies_text(self.policies@);
        let mut i: usize = 0;
        assert(all.skip(0) =~= all);
        while i < self.policies.len()
            invariant
                i <= self.policies@.len(),
                all == policies_text(self.policies@),
                policy_named(all, name@) == policy_named(all.skip(i as int), name@),
            decreases self.policies@.len() - i,
        {
            if same_text(&self.policies[i].0, name) {
                return Some(self.policies[i].1.copy());
            }
            assert(all.skip(i as int).skip(1) =~= all.skip(i + 1));
            i += 1;
        }
        None
    }
}

/// The number policies that a process works with.
#[derive(Debug, PartialEq)]
pub struct NumberRuntime {
    pub registry: NumberRegistry,
    /// The policy of calls that name none.
    pub default_b2bua_policy: Option<NumberPolicy>,
}

/// What a process works with, as mathematical data.
pub struct RuntimeText {
    pub locale: LocaleText,
    pub policies: Seq<(Seq<char>, PolicyText)>,
    pub default_policy: Option<PolicyText>,
}

impl View for NumberRuntime {
    type V = RuntimeText;

    open spec fn view(&self) -> RuntimeText {
        RuntimeText {
            locale: self.registry.default_locale@,
            policies: policies_text(self.registry.policies@),
            default_policy: opt_policy(self.default_b2bua_policy),
        }
    }
}

/// No policies, and a blank home numbering plan.
pub open spec fn blank_runtime() -> RuntimeText {
    RuntimeText {
        locale: LocaleText {
            country_code: ""@,
            international_prefix: ""@,
            national_prefix: ""@,
        },
        policies: Seq::empty(),
        default_policy: None,
    }
}

impl NumberRuntime {
    /// No policies, and a blank home numbering plan.
    pub fn blank() -> (r: Self)
        ensures
            r@ == blank_runtime(),
    {
        let r = NumberRuntime {
            registry: NumberRegistry {
                default_locale: NumberLocale {
                    country_code: "".to_owned(),
                    international_prefix: "".to_owned(),
                    national_prefix: "".to_owned(),
                },
                policies: Vec::new(),
            },
            default_b2bua_policy: None,
        };
        assert(r@.policies =~= Seq::<(Seq<char>, PolicyText)>::empty());
        r
    }
}

/// The place where a process keeps its number policies.
pub struct RuntimeSlot {
    installed: Option<NumberRuntime>,
}

impl View for RuntimeSlot {
    type V = Option<RuntimeText>;

    closed spec fn view(&self) -> Option<RuntimeText> {
        match self.installed {
            Some(runtime) => Some(runtime@),
            None => None,
        }
    }
}

/// A slot after an installation: the first one wins.
pub open spec fn after_install(slot: Option<RuntimeText>, runtime: RuntimeText) -> Option<RuntimeText> {
    match slot {
        Some(first) => Some(first),
        None => Some(runtime),
    }
}

/// What a slot gives: what was installed, else a blank runtime.
pub open spec fn runtime_in(slot: Option<RuntimeText>) -> RuntimeText {
    match slot {
        Some(runtime) => runtime,
        None => blank_runtime(),
    }
}

impl RuntimeSlot {
    pub fn new() -> (r: Self)
        ensures
            r@ is None,
    {
        RuntimeSlot { installed: None }
    }

    /// Installs the policies; a later installation changes nothing.
    pub fn set_number_runtime(&mut self, runtime: NumberRuntime)
        ensures
            final(self)@ == after_install(old(self)@, runtime@),
    {
        if self.installed.is_none() {
            self.installed = Some(runtime);
        }
    }

    /// What was installed; a blank runtime where nothing was.
    pub fn number_runtime(&self) -> (r: NumberRuntime)
        ensures
            r@ == runtime_in(self@),
    {
        match &self.installed {
            Some(runtime) => copy_runtime(runtime),
            None => NumberRuntime::blank(),
        }
    }

    /// The policy of calls that name none.
    pub fn default_b2bua_policy(&self) -> (r: Option<NumberPolicy>)
        ensures
            opt_policy(r) == runtime_in(self@).default_policy,
    {
        self.number_runtime().default_b2bua_policy
    }
}

fn copy_runtime(runtime: &NumberRuntime) -> (r: NumberRuntime)
    ensures
        r@ == runtime@,
{
    let mut policies: Vec<(String, NumberPolicy)> = Vec::new();
    let mut i: usize = 0;
    let ghost all = policies_text(runtime.registry.policies@);
    while i < runtime.registry.policies.len()
        invariant
            i <= runtime.registry.policies@.len(),
            all == policies_text(runtime.registry.policies@),
            policies_text(policies@) == all.take(i as int),
        decreases runtime.registry.policies@.len() - i,
    {
        let ghost before = policies@;
        policies.push(
            (runtime.registry.policies[i].0.clone(), runtime.registry.policies[i].1.copy()),
        );
        assert(policies_text(policies@) =~= policies_text(before).push(all[i as int]));
        assert(all.take(i + 1) =~= all.take(i as int).push(all[i as int]));
        i += 1;
    }
    assert(policies_text(policies@) =~= all);
    let default_b2bua_policy = match &runtime.default_b2bua_policy {
        Some(policy) => Some(policy.copy()),
        None => None,
    };
    NumberRuntime {
        registry: NumberRegistry {
            default_locale: runtime.registry.default_locale.copy(),
            policies,
        },
        default_b2bua_policy,
    }
}

/// The shape that a name stands for.
pub open spec fn format_named(name: Seq<char>) -> Option<NumberFormat> {
    if name == "e164"@ {
        Some(NumberFormat::E164)
    } else if name == "plain"@ {
        Some(NumberFormat::Plain)
    } else if name == "international"@ {
        Some(NumberFormat::International)
    } else if name == "national"@ {
        Some(NumberFormat::National)
    } else {
        None
    }
}

pub open spec fn unknown_format(name: Seq<char>) -> ErrorText {
    value_error("unknown number format "@ + debug_quoted(name))
}

/// The shape that a name stands for.
pub fn parse_format(name: &str) -> (r: Result<NumberFormat, ScriptError>)
    ensures
        match r {
            Ok(format) => format_named(name@) == Some(format),
            Err(e) => format_named(name@) is None && e@ == unknown_format(name@),
        },
{
    if same_text(name, "e164") {
        Ok(NumberFormat::E164)
    } else if same_text(name, "plain") {
        Ok(NumberFormat::Plain)
    } else if same_text(name, "international") {
        Ok(NumberFormat::International)
    } else if same_text(name, "national") {
        Ok(NumberFormat::National)
    } else {
        Err(ScriptError::value("unknown number format ".to_owned().concat(&quote_debug(name))))
    }
}

/// The header that a token names, without regard to case.
pub open spec fn header_named(token: Seq<char>) -> Option<IdentityHeader> {
    let name = lower(token);
    if name == "from"@ {
        Some(IdentityHeader::From)
    } else if name == "to"@ {
        Some(IdentityHeader::To)
    } else if name == "p-asserted-identity"@ {
        Some(IdentityHeader::PAssertedIdentity)
    } else if name == "p-preferred-identity"@ {
        Some(IdentityHeader::PPreferredIdentity)
    } else if name == "ruri"@ {
        Some(IdentityHeader::RequestUri)
    } else {
        None
    }
}

impl IdentityHeader {
    /// The header that a token names, without regard to case.
    pub fn from_token(token: &str) -> (r: Option<Self>)
        ensures
            r == header_named(token@),
    {
        let name = to_lower(token);
        if same_text(&name, "from") {
            Some(IdentityHeader::From)
        } else if same_text(&name, "to") {
            Some(IdentityHeader::To)
        } else if same_text(&name, "p-asserted-identity") {
            Some(IdentityHeader::PAssertedIdentity)
        } else if same_text(&name, "p-preferred-identity") {
            Some(IdentityHeader::PPreferredIdentity)
        } else if same_text(&name, "ruri") {
            Some(IdentityHeader::RequestUri)
        } else {
            None
        }
    }
}

/// The headers that are walked where a script lists none.
pub open spec fn default_walk() -> Seq<IdentityHeader> {
    seq![
        IdentityHeader::From,
        IdentityHeader::To,
        IdentityHeader::PAssertedIdentity,
        IdentityHeader::PPreferredIdentity,
    ]
}

/// The headers that are walked where a script lists none.
pub fn default_identity_headers() -> (r: Vec<IdentityHeader>)
    ensures
        r@ == default_walk(),
{
    vec![
        IdentityHeader::From,
        IdentityHeader::To,
        IdentityHeader::PAssertedIdentity,
        IdentityHeader::PPreferredIdentity,
    ]
}

/// The headers that tokens name, each once and where it came first; the error
/// of the first token that names none.
pub open spec fn walk_of(tokens: Seq<Seq<char>>) -> Result<Seq<IdentityHeader>, ErrorText>
    decreases tokens.len(),
{
    if tokens.len() == 0 {
        Ok(Seq::empty())
    } else {
        match walk_of(tokens.drop_last()) {
            Err(e) => Err(e),
            Ok(walk) => match header_named(tokens.last()) {
                None => Err(
                    value_error("unknown identity header "@ + debug_quoted(tokens.last())),
                ),
                Some(header) => Ok(
                    if walk.contains(header) {
                        walk
                    } else {
                        walk.push(header)
                    },
                ),
            },
        }
    }
}

proof fn lemma_walk_error(tokens: Seq<Seq<char>>, n: int)
    requires
        0 <= n <= tokens.len(),
        walk_of(tokens.take(n)) is Err,
    ensures
        walk_of(tokens) == walk_of(tokens.take(n)),
    decreases tokens.len() - n,
{
    if n == tokens.len() {
        assert(tokens.take(n) =~= tokens);
    } else {
        assert(tokens.take(n + 1).drop_last() =~= tokens.take(n));
        lemma_walk_error(tokens, n + 1);
    }
}

fn walk_has(walk: &Vec<IdentityHeader>, header: IdentityHeader) -> (r: bool)
    ensures
        r == walk@.contains(header),
{
    let mut i: usize = 0;
    while i < walk.len()
        invariant
            i <= walk@.len(),
            forall|k: int| 0 <= k < i ==> walk@[k] != header,
        decreases walk@.len() - i,
    {
        if walk[i] == header {
            return true;
        }
        i += 1;
    }
    false
}

fn parse_walk(tokens: &Vec<String>) -> (r: Result<Vec<IdentityHeader>, ScriptError>)
    ensures
        match r {
            Ok(walk) => walk_of(texts(tokens@)) == Ok::<Seq<IdentityHeader>, ErrorText>(walk@),
            Err(e) => walk_of(texts(tokens@)) == Err::<Seq<IdentityHeader>, ErrorText>(e@),
        },
{
    let ghost all = texts(tokens@);
    let mut walk: Vec<IdentityHeader> = Vec::new();
    let mut i: usize = 0;
    while i < tokens.len()
        invariant
            i <= tokens@.len(),
            all == texts(tokens@),
            walk_of(all.take(i as int)) == Ok::<Seq<IdentityHeader>, ErrorText>(walk@),
        decreases tokens@.len() - i,
    {
        assert(all.take(i + 1).drop_last() =~= all.take(i as int));
        assert(all.take(i + 1).last() == tokens@[i as int]@);
        match IdentityHeader::from_token(&tokens[i]) {
            Some(header) => {
                if !walk_has(&walk, header) {
                    walk.push(header);
                }
            },
            None => {
                proof {
                    lemma_walk_error(all, i + 1);
                }
                return Err(
                    ScriptError::value(
                        "unknown identity header ".to_owned().concat(&quote_debug(&tokens[i])),
                    ),
                );
            },
        }
        i += 1;
    }
    assert(all.take(tokens@.len() as int) =~= all);
    Ok(walk)
}

/// A country code without white space around it and without its plus sign.
pub open spec fn home_code(home: Seq<char>) -> Seq<char> {
    let trimmed = trim(home);
    if starts_with(trimmed, "+"@) {
        trimmed.skip(1)
    } else {
        trimmed
    }
}

/// The home numbering plan, with the country code that a script gave.
pub open spec fn locale_for(runtime: RuntimeText, home: Option<Seq<char>>) -> LocaleText {
    match home {
        Some(home) => LocaleText { country_code: home_code(home), ..runtime.locale },
        None => runtime.locale,
    }
}

/// The home numbering plan, with the country code that a script gave.
pub fn home_locale(runtime: &NumberRuntime, home: Option<&str>) -> (r: NumberLocale)
    ensures
        r@ == locale_for(runtime@, opt_str(home)),
{
    let mut locale = runtime.registry.default_locale.copy();
    if let Some(home) = home {
        let trimmed = trim_text(home);
        locale.country_code = match strip_prefix(&trimmed, "+") {
            Some(code) => {
                proof {
                    reveal_strlit("+");
                }
                code
            },
            None => trimmed,
        };
    }
    locale
}

pub open spec fn unknown_policy(name: Seq<char>) -> ErrorText {
    value_error("unknown number policy "@ + debug_quoted(name))
}

/// The policy that the arguments of a rewrite name: one of the configuration,
/// or one shape over a list of headers.
pub open spec fn rewrite_policy(
    runtime: RuntimeText,
    policy: Option<Seq<char>>,
    format: Option<Seq<char>>,
    headers: Option<Seq<Seq<char>>>,
    home: Option<Seq<char>>,
) -> Result<PolicyText, ErrorText> {
    match policy {
        Some(name) => if format is Some || headers is Some {
            Err(value_error("rewrite_identities(): pass either policy= or format=, not both"@))
        } else {
            match policy_named(runtime.policies, name) {
                Some(found) => Ok(found),
                None => Err(unknown_policy(name)),
            }
        },
        None => match format {
            None => Err(
                value_error(
                    "rewrite_identities(): requires policy= (named) or format= (inline)"@,
                ),
            ),
            Some(shape) => match format_named(shape) {
                None => Err(unknown_format(shape)),
                Some(default_format) => {
                    let walk = match headers {
                        Some(tokens) => walk_of(tokens),
                        None => Ok(default_walk()),
                    };
                    match walk {
                        Err(e) => Err(e),
                        Ok(walk) => Ok(
                            PolicyText {
                                locale: locale_for(runtime, home),
                                default_format,
                                overrides: Seq::empty(),
                                headers: walk,
                            },
                        ),
                    }
                },
            },
        },
    }
}

/// The texts of an optional list of strings.
pub open spec fn opt_texts(v: Option<Vec<String>>) -> Option<Seq<Seq<char>>> {
    match v {
        Some(v) => Some(texts(v@)),
        None => None,
    }
}

/// Resolves the arguments of a rewrite into a policy.
pub fn resolve_rewrite_policy(
    runtime: &NumberRuntime,
    policy: Option<&str>,
    format: Option<&str>,
    headers: Option<Vec<String>>,
    home: Option<&str>,
) -> (r: Result<NumberPolicy, ScriptError>)
    ensures
        match r {
            Ok(found) => rewrite_policy(
                runtime@,
                opt_str(policy),
                opt_str(format),
                opt_texts(headers),
                opt_str(home),
            ) == Ok::<PolicyText, ErrorText>(found@),
            Err(e) => rewrite_policy(
                runtime@,
                opt_str(policy),
                opt_str(format),
                opt_texts(headers),
                opt_str(home),
            ) == Err::<PolicyText, ErrorText>(e@),
        },
{
    if let Some(name) = policy {
        if format.is_some() || headers.is_some() {
            return Err(
                ScriptError::value(
                    "rewrite_identities(): pass either policy= or format=, not both".to_owned(),
                ),
            );
        }
        return match runtime.registry.get(name) {
            Some(found) => Ok(found),
            None => Err(
                ScriptError::value("unknown number policy ".to_owned().concat(&quote_debug(name))),
            ),
        };
    }
    let name = match format {
        Some(name) => name,
        None => {
            return Err(
                ScriptError::value(
                    "rewrite_identities(): requires policy= (named) or format= (inline)".to_owned(),
                ),
            );
        },
    };
    let shape = match parse_format(name) {
        Ok(shape) => shape,
        Err(e) => {
            return Err(e);
        },
    };
    let walk = match &headers {
        Some(tokens) => match parse_walk(tokens) {
            Ok(walk) => walk,
            Err(e) => {
                return Err(e);
            },
        },
        None => default_identity_headers(),
    };
    Ok(NumberPolicy::uniform(home_locale(runtime, home), shape, walk))
}

/// The policy of a dialed call: the one that it names, else the default.
pub open spec fn dial_policy(runtime: RuntimeText, name: Option<Seq<char>>) -> Result<
    Option<PolicyText>,
    ErrorText,
> {
    match name {
        Some(name) => match policy_named(runtime.policies, name) {
            Some(found) => Ok(Some(found)),
            None => Err(unknown_policy(name)),
        },
        None => Ok(runtime.default_policy),
    }
}

/// The policy of a dialed call: the one that it names, else the default.
pub fn resolve_dial_policy(runtime: &NumberRuntime, name: Option<&str>) -> (r: Result<
    Option<NumberPolicy>,
    ScriptError,
>)
    ensures
        match r {
            Ok(found) => dial_policy(runtime@, opt_str(name)) == Ok::<Option<PolicyText>, ErrorText>(
                opt_policy(found),
            ),
            Err(e) => dial_policy(runtime@, opt_str(name)) == Err::<Option<PolicyText>, ErrorText>(
                e@,
            ),
        },
{
    match name {
        Some(name) => match runtime.registry.get(name) {
            Some(found) => Ok(Some(found)),
            None => Err(
                ScriptError::value("unknown number policy ".to_owned().concat(&quote_debug(name))),
            ),
        },
        None => match &runtime.default_b2bua_policy {
            Some(policy) => Ok(Some(policy.copy())),
            None => Ok(None),
        },
    }
}

/// A dial target, a format, and what the numbering engine made of the target in
/// that format.
pub struct ShapedTarget {
    pub target: String,
    pub format: NumberFormat,
    pub shaped: String,
}

/// A shaped target as mathematical data.
pub struct ShapedText {
    pub target: Seq<char>,
    pub format: NumberFormat,
    pub shaped: Seq<char>,
}

impl View for ShapedTarget {
    type V = ShapedText;

    open spec fn view(&self) -> ShapedText {
        ShapedText { target: self.target@, format: self.format, shaped: self.shaped@ }
    }
}

pub open spec fn shaped_text(v: Seq<ShapedTarget>) -> Seq<ShapedText> {
    Seq::new(v.len(), |i: int| v[i]@)
}

/// What the numbering engine made of a message and its dial targets under a
/// policy: the headers with reshaped identities, the reshaped request URI where
/// the policy walks it, how many places changed, and the shaped targets.
pub struct Reshaped {
    pub headers: Headers,
    pub request_uri: Option<SipUri>,
    pub changed: usize,
    pub targets: Vec<ShapedTarget>,
}

/// What the numbering engine made of a message, as mathematical data.
pub struct ReshapedText {
    pub headers: Seq<HeaderText>,
    pub request_uri: Option<UriText>,
    pub changed: usize,
    pub targets: Seq<ShapedText>,
}

impl View for Reshaped {
    type V = ReshapedText;

    open spec fn view(&self) -> ReshapedText {
        ReshapedText {
            headers: self.headers@,
            request_uri: match self.request_uri {
                Some(uri) => Some(uri@),
                None => None,
            },
            changed: self.changed,
            targets: shaped_text(self.targets@),
        }
    }
}

/// A message with reshaped identity headers.
pub open spec fn with_identities(m: MessageText, r: ReshapedText) -> MessageText {
    MessageText { headers: r.headers, ..m }
}

/// A message with reshaped identity headers and request URI.
pub open spec fn with_numbers(m: MessageText, r: ReshapedText) -> MessageText {
    MessageText {
        start: match (m.start, r.request_uri) {
            (StartText::Request { method, .. }, Some(request_uri)) => StartText::Request {
                method,
                request_uri,
            },
            _ => m.start,
        },
        headers: r.headers,
        ..m
    }
}

/// The format that dial targets take under a policy: the one that the policy
/// has for the request URI.
pub open spec fn target_format(policy: PolicyText) -> NumberFormat {
    format_in(policy, IdentityHeader::RequestUri)
}

/// The first shaped form of a target in a format; the target itself where the
/// engine gave none.
pub open spec fn shaped_in(v: Seq<ShapedText>, format: NumberFormat, target: Seq<char>) -> Seq<char>
    decreases v.len(),
{
    if v.len() == 0 {
        target
    } else if v[0].target == target && v[0].format == format {
        v[0].shaped
    } else {
        shaped_in(v.skip(1), format, target)
    }
}

/// A target in the format that a policy has for it.
pub open spec fn reshaped_target(r: ReshapedText, policy: PolicyText, target: Seq<char>) -> Seq<char> {
    shaped_in(r.targets, target_format(policy), target)
}

/// Targets in the format that a policy has for them.
pub open spec fn reshaped_targets(r: ReshapedText, policy: PolicyText, targets: Seq<Seq<char>>) -> Seq<
    Seq<char>,
> {
    Seq::new(targets.len(), |i: int| reshaped_target(r, policy, targets[i]))
}

fn reformat_target(v: &Vec<ShapedTarget>, format: NumberFormat, target: &str) -> (r: String)
    ensures
        r@ == shaped_in(shaped_text(v@), format, target@),
{
    let ghost all = shaped_text(v@);
    let mut i: usize = 0;
    assert(all.skip(0) =~= all);
    while i < v.len()
        invariant
            i <= v@.len(),
            all == shaped_text(v@),
            shaped_in(all, format, target@) == shaped_in(all.skip(i as int), format, target@),
        decreases v@.len() - i,
    {
        assert(all.skip(i as int)[0] == v@[i as int]@);
        if v[i].format == format && same_text(&v[i].target, target) {
            return v[i].shaped.clone();
        }
        assert(all.skip(i as int).skip(1) =~= all.skip(i + 1));
        i += 1;
    }
    target.to_owned()
}

/// Puts the reshaped identities and request URI into a message, and says how
/// many places changed.
pub fn apply_to_message(message: &mut SipMessage, reshaped: Reshaped) -> (r: usize)
    ensures
        r == reshaped@.changed,
        final(message)@ == with_numbers(old(message)@, reshaped@),
{
    message.headers = reshaped.headers;
    if let Some(uri) = reshaped.request_uri {
        if let StartLine::Request { method, .. } = &message.start_line {
            message.start_line = StartLine::Request { method: method.clone(), request_uri: uri };
        }
    }
    reshaped.changed
}

/// Puts the reshaped identity headers into a message; its request URI stays.
pub fn apply_identity_headers(message: &mut SipMessage, reshaped: Reshaped)
    ensures
        final(message)@ == with_identities(old(message)@, reshaped@),
{
    message.headers = reshaped.headers;
}

/// Puts the reshaped identities into a message and gives the target in the
/// format that the policy has for the request URI.
pub fn apply_for_dial(
    message: &mut SipMessage,
    policy: &NumberPolicy,
    reshaped: Reshaped,
    target: &str,
) -> (r: String)
    ensures
        r@ == reshaped_target(reshaped@, policy@, target@),
        final(message)@ == with_identities(old(message)@, reshaped@),
{
    message.headers = reshaped.headers;
    let format = policy.format_for(IdentityHeader::RequestUri);
    reformat_target(&reshaped.targets, format, target)
}

/// Puts the reshaped identities into a message and each target into the format
/// that the policy has for the request URI.
pub fn apply_for_fork(
    message: &mut SipMessage,
    policy: &NumberPolicy,
    reshaped: Reshaped,
    targets: &mut Vec<String>,
)
    ensures
        texts(final(targets)@) == reshaped_targets(reshaped@, policy@, texts(old(targets)@)),
        final(message)@ == with_identities(old(message)@, reshaped@),
{
    let ghost all = texts(targets@);
    let ghost want = reshaped_targets(reshaped@, policy@, all);
    let format = policy.format_for(IdentityHeader::RequestUri);
    let mut i: usize = 0;
    assert(texts(targets@) =~= want.take(0) + all.skip(0));
    while i < targets.len()
        invariant
            i <= targets@.len(),
            all.len() == targets@.len(),
            all.len() == want.len(),
            want == reshaped_targets(reshaped@, policy@, all),
            format == target_format(policy@),
            texts(targets@) == want.take(i as int) + all.skip(i as int),
            message@ == old(message)@,
        decreases targets@.len() - i,
    {
        assert(texts(targets@)[i as int] == all[i as int]);
        let ghost before = targets@;
        let target = reformat_target(&reshaped.targets, format, &targets[i]);
        targets.set(i, target);
        assert(targets@[i as int]@ == want[i as int]);
        assert forall|k: int| 0 <= k < all.len() && k != i implies texts(targets@)[k] == texts(
            before,
        )[k] by {
            assert(targets@[k] == before[k]);
        }
        let ghost split = want.take(i as int) + all.skip(i as int);
        assert forall|k: int| 0 <= k < all.len() implies texts(targets@)[k] == (want.take(i + 1)
            + all.skip(i + 1))[k] by {
            assert(k != i ==> texts(targets@)[k] == split[k]);
        }
        assert(texts(targets@) =~= want.take(i + 1) + all.skip(i + 1));
        i += 1;
    }
    assert(texts(targets@) =~= want);
    message.headers = reshaped.headers;
}

/// A telephone number in the shapes that the numbering engine gave it.
#[derive(Debug, PartialEq)]
pub struct Number {
    pub e164: String,
    pub plain: String,
    pub international: String,
    pub national: String,
    pub country_code: Option<String>,
    pub nsn: String,
}

/// A number in one of its shapes.
pub open spec fn number_text(n: Number, format: NumberFormat) -> Seq<char> {
    match format {
        NumberFormat::E164 => n.e164@,
        NumberFormat::Plain => n.plain@,
        NumberFormat::International => n.international@,
        NumberFormat::National => n.national@,
    }
}

impl Number {
    pub fn shape(&self, format: NumberFormat) -> (r: String)
        ensures
            r@ == number_text(*self, format),
    {
        match format {
            NumberFormat::E164 => self.e164.clone(),
            NumberFormat::Plain => self.plain.clone(),
            NumberFormat::International => self.international.clone(),
            NumberFormat::National => self.national.clone(),
        }
    }
}

/// A parsed number, as a script sees it.
pub struct PyNumber {
    inner: Number,
}

impl View for PyNumber {
    type V = Number;

    closed spec fn view(&self) -> Number {
        self.inner
    }
}

impl PyNumber {
    pub fn e164(&self) -> (r: String)
        ensures
            r@ == number_text(self@, NumberFormat::E164),
    {
        self.inner.shape(NumberFormat::E164)
    }

    pub fn plain(&self) -> (r: String)
        ensures
            r@ == number_text(self@, NumberFormat::Plain),
    {
        self.inner.shape(NumberFormat::Plain)
    }

    pub fn international(&self) -> (r: String)
        ensures
            r@ == number_text(self@, NumberFormat::International),
    {
        self.inner.shape(NumberFormat::International)
    }

    pub fn national(&self) -> (r: String)
        ensures
            r@ == number_text(self@, NumberFormat::National),
    {
        self.inner.shape(NumberFormat::National)
    }

    pub fn cc(&self) -> (r: Option<String>)
        ensures
            opt_text(r) == opt_text(self@.country_code),
    {
        crate::sip::copy_opt(&self.inner.country_code)
    }

    pub fn nsn(&self) -> (r: String)
        ensures
            r@ == self@.nsn@,
    {
        self.inner.nsn.clone()
    }

    /// The number in a named shape.
    pub fn format(&self, format: &str) -> (r: Result<String, ScriptError>)
        ensures
            match r {
                Ok(text) => format_named(format@) matches Some(shape) && text@ == number_text(
                    self@,
                    shape,
                ),
                Err(e) => format_named(format@) is None && e@ == unknown_format(format@),
            },
    {
        match parse_format(format) {
            Ok(shape) => Ok(self.inner.shape(shape)),
            Err(e) => Err(e),
        }
    }

    pub fn __str__(&self) -> (r: String)
        ensures
            r@ == number_text(self@, NumberFormat::E164),
    {
        self.inner.shape(NumberFormat::E164)
    }

    pub fn __repr__(&self) -> (r: String)
        ensures
            r@ == "<Number "@ + number_text(self@, NumberFormat::E164) + ">"@,
    {
        "<Number ".to_owned().concat(&self.inner.shape(NumberFormat::E164)).concat(">")
    }
}

/// A text stands before another in the order of their characters.
pub open spec fn text_before(a: Seq<char>, b: Seq<char>) -> bool
    decreases a.len(),
{
    if b.len() == 0 {
        false
    } else if a.len() == 0 {
        true
    } else if a[0] == b[0] {
        text_before(a.skip(1), b.skip(1))
    } else {
        a[0] < b[0]
    }
}

/// No text stands before one that it follows.
pub open spec fn in_order(v: Seq<Seq<char>>) -> bool {
    forall|i: int, j: int| 0 <= i < j < v.len() ==> !text_before(#[trigger] v[j], #[trigger] v[i])
}

/// Of three texts in a row, the last does not stand before the first.
pub proof fn order_is_transitive(a: Seq<char>, b: Seq<char>, c: Seq<char>)
    requires
        !text_before(b, a),
        !text_before(c, b),
    ensures
        !text_before(c, a),
    decreases a.len(),
{
    if a.len() > 0 && c.len() > 0 && b.len() > 0 && a[0] == b[0] && b[0] == c[0] {
        order_is_transitive(a.skip(1), b.skip(1), c.skip(1));
    }
}

/// Of two texts, one does not stand before the other.
pub proof fn order_is_total(a: Seq<char>, b: Seq<char>)
    ensures
        !text_before(a, b) || !text_before(b, a),
    decreases a.len(),
{
    if a.len() > 0 && b.len() > 0 && a[0] == b[0] {
        order_is_total(a.skip(1), b.skip(1));
    }
}

fn comes_before(a: &str, b: &str) -> (r: bool)
    ensures
        r == text_before(a@, b@),
{
    let left = crate::text::chars_of(a);
    let right = crate::text::chars_of(b);
    let mut i: usize = 0;
    assert(left@.skip(0) =~= left@);
    assert(right@.skip(0) =~= right@);
    while i < left.len() && i < right.len()
        invariant
            i <= left@.len(),
            i <= right@.len(),
            left@ == a@,
            right@ == b@,
            text_before(a@, b@) == text_before(left@.skip(i as int), right@.skip(i as int)),
        decreases left@.len() - i,
    {
        if left[i] != right[i] {
            return left[i] < right[i];
        }
        assert(left@.skip(i as int).skip(1) =~= left@.skip(i + 1));
        assert(right@.skip(i as int).skip(1) =~= right@.skip(i + 1));
        i += 1;
    }
    i < right.len()
}

/// Puts a name into an ordered list, after those that do not follow it.
fn insert_name(names: &mut Vec<String>, name: String)
    requires
        in_order(texts(old(names)@)),
    ensures
        in_order(texts(final(names)@)),
        texts(final(names)@).to_multiset() == texts(old(names)@).to_multiset().insert(name@),
{
    let ghost before = texts(names@);
    let mut i: usize = names.len();
    while i > 0 && comes_before(&name, &names[i - 1])
        invariant
            i <= names@.len(),
            names@ == old(names)@,
            before == texts(names@),
            forall|k: int| i <= k < names@.len() ==> text_before(name@, #[trigger] before[k]),
        decreases i,
    {
        assert(before[i - 1] == names@[i - 1]@);
        i -= 1;
    }
    let ghost added = name@;
    names.insert(i, name);
    let ghost after = texts(names@);
    proof {
        assert(after =~= before.insert(i as int, added));
        before.to_multiset_ensures();
        vstd::seq_lib::to_multiset_insert(before, i as int, added);
        assert forall|a: int, b: int| 0 <= a < b < after.len() implies !text_before(
            #[trigger] after[b],
            #[trigger] after[a],
        ) by {
            if b < i {
                assert(after[a] == before[a] && after[b] == before[b]);
            } else if b == i {
                assert(after[a] == before[a]);
                assert(!text_before(added, before[i - 1]));
                if a < i - 1 {
                    assert(!text_before(before[i - 1], before[a]));
                    order_is_transitive(before[a], before[i - 1], added);
                }
            } else if a == i {
                assert(after[b] == before[b - 1]);
                order_is_total(added, before[b - 1]);
            } else if a < i {
                assert(after[a] == before[a] && after[b] == before[b - 1]);
            } else {
                assert(after[a] == before[a - 1] && after[b] == before[b - 1]);
            }
        }
    }
}

/// The names of the policies.
pub open spec fn names_in(policies: Seq<(Seq<char>, PolicyText)>) -> Seq<Seq<char>> {
    Seq::new(policies.len(), |i: int| policies[i].0)
}

/// The `numbers` namespace of scripts.
pub struct PyNumbersNamespace;

impl PyNumbersNamespace {
    pub fn new() -> (r: Self)
        ensures
            r == PyNumbersNamespace,
    {
        PyNumbersNamespace
    }

    /// What a script gets for a number that the numbering engine read under
    /// the plan of `home_locale`.
    pub fn parse(&self, parsed: Result<Number, String>) -> (r: Result<PyNumber, ScriptError>)
        ensures
            match r {
                Ok(number) => parsed matches Ok(n) && number@ == n,
                Err(e) => parsed matches Err(reason) && e@ == value_error(reason@),
            },
    {
        match parsed {
            Ok(number) => Ok(PyNumber { inner: number }),
            Err(reason) => Err(ScriptError::value(reason)),
        }
    }

    /// The names of the configured policies, in order.
    pub fn policy_names(&self, runtime: &NumberRuntime) -> (r: Vec<String>)
        ensures
            in_order(texts(r@)),
            texts(r@).to_multiset() == names_in(runtime@.policies).to_multiset(),
    {
        let ghost all = names_in(runtime@.policies);
        let mut names: Vec<String> = Vec::new();
        let mut i: usize = 0;
        assert(texts(names@) =~= all.take(0));
        while i < runtime.registry.policies.len()
            invariant
                i <= runtime.registry.policies@.len(),
                all == names_in(runtime@.policies),
                all.len() == runtime.registry.policies@.len(),
                in_order(texts(names@)),
                texts(names@).to_multiset() == all.take(i as int).to_multiset(),
            decreases runtime.registry.policies@.len() - i,
        {
            insert_name(&mut names, runtime.registry.policies[i].0.clone());
            proof {
                let prefix = all.take(i as int);
                prefix.to_multiset_ensures();
                assert(all.take(i + 1) =~= prefix.push(all[i as int]));
            }
            i += 1;
        }
        assert(all.take(all.len() as int) =~= all);
        names
    }

    pub fn __repr__(&self) -> (r: String)
        ensures
            r@ == "<siphon.numbers>"@,
    {
        "<siphon.numbers>".to_owned()
    }
}

/// Whatever is installed later, a slot keeps what was installed first.
pub proof fn first_install_wins(slot: Option<RuntimeText>, first: RuntimeText, later: RuntimeText)
    requires
        slot is None,
    ensures
        runtime_in(after_install(after_install(slot, first), later)) == first,
{
}

/// A walked header is listed once, however often tokens name it.
pub proof fn walk_has_no_duplicates(tokens: Seq<Seq<char>>)
    requires
        walk_of(tokens) is Ok,
    ensures
        walk_of(tokens)->Ok_0.no_duplicates(),
    decreases tokens.len(),
{
    if tokens.len() > 0 {
        walk_has_no_duplicates(tokens.drop_last());
    }
}

} // verus!
