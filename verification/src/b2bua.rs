//! Calls that are controlled without a handler: placing, joining and
//! transferring calls by their Call-ID.

use crate::call::action::{
    opt_entries, opt_replaces, opt_replaces_of, parse_replaces_dict, ReferTo, ReplacesText,
};
use crate::error::{value_error, ErrorText, ScriptError};
use crate::pyvalue::PyValue;
use crate::text::{opt_text, pairs_text, same_text, trim, trim_text};
use vstd::prelude::*;
use vstd::string::*;

verus! {

/// Where the media of a placed call comes from: an offer of the script, or an
/// anchor on the media engine.
#[derive(Debug, PartialEq)]
pub enum OriginateMedia {
    Offer(String),
    Anchor { profile: String, ws_uri: Option<String> },
}

/// A media plan as mathematical data.
pub enum MediaPlanText {
    Offer(Seq<char>),
    Anchor { profile: Seq<char>, ws_uri: Option<Seq<char>> },
}

impl View for OriginateMedia {
    type V = MediaPlanText;

    open spec fn view(&self) -> MediaPlanText {
        match *self {
            OriginateMedia::Offer(sdp) => MediaPlanText::Offer(sdp@),
            OriginateMedia::Anchor { profile, ws_uri } => MediaPlanText::Anchor {
                profile: profile@,
                ws_uri: opt_text(ws_uri),
            },
        }
    }
}

/// Whether the caller's identity is shown.
#[derive(Clone, Copy, Debug, PartialEq, Eq, Structural)]
pub enum CallerIdPresentation {
    Allowed,
    Restricted,
}

/// The presentation that a name stands for.
pub open spec fn presentation_named(name: Seq<char>) -> Option<CallerIdPresentation> {
    if name == "allowed"@ {
        Some(CallerIdPresentation::Allowed)
    } else if name == "restricted"@ {
        Some(CallerIdPresentation::Restricted)
    } else {
        None
    }
}

impl CallerIdPresentation {
    /// The presentation that a name stands for.
    pub fn parse(name: &str) -> (r: Option<Self>)
        ensures
            r == presentation_named(name@),
    {
        if same_text(name, "allowed") {
            Some(CallerIdPresentation::Allowed)
        } else if same_text(name, "restricted") {
            Some(CallerIdPresentation::Restricted)
        } else {
            None
        }
    }
}

/// What a script asks for when it places a call.
pub struct OriginateArgs {
    pub to: String,
    pub from_uri: Option<String>,
    pub from_display: Option<String>,
    pub to_display: Option<String>,
    pub next_hop: Option<String>,
    pub p_asserted_identity: Option<String>,
    pub privacy: Option<String>,
    pub headers: Option<Vec<(String, String)>>,
    pub sdp: Option<String>,
    pub media: bool,
    pub profile: Option<String>,
    pub ws_uri: Option<String>,
    pub timeout: u32,
}

/// A call that is to be placed.
#[derive(Debug, PartialEq)]
pub struct OriginateParams {
    pub to: String,
    pub to_display: Option<String>,
    pub from: Option<String>,
    pub from_display: Option<String>,
    pub next_hop: Option<String>,
    pub p_asserted_identity: Option<String>,
    pub privacy: Option<CallerIdPresentation>,
    pub headers: Vec<(String, String)>,
    pub timeout_secs: u32,
    pub media: OriginateMedia,
}

/// A call that is to be placed, as mathematical data.
pub struct OriginateText {
    pub to: Seq<char>,
    pub to_display: Option<Seq<char>>,
    pub from: Option<Seq<char>>,
    pub from_display: Option<Seq<char>>,
    pub next_hop: Option<Seq<char>>,
    pub p_asserted_identity: Option<Seq<char>>,
    pub privacy: Option<CallerIdPresentation>,
    pub headers: Seq<(Seq<char>, Seq<char>)>,
    pub timeout_secs: u32,
    pub media: MediaPlanText,
}

impl View for OriginateParams {
    type V = OriginateText;

    open spec fn view(&self) -> OriginateText {
        OriginateText {
            to: self.to@,
            to_display: opt_text(self.to_display),
            from: opt_text(self.from),
            from_display: opt_text(self.from_display),
            next_hop: opt_text(self.next_hop),
            p_asserted_identity: opt_text(self.p_asserted_identity),
            privacy: self.privacy,
            headers: pairs_text(self.headers@),
            timeout_secs: self.timeout_secs,
            media: self.media@,
        }
    }
}

/// The media plan of a call: exactly one of an offer and an anchor.
pub open spec fn media_plan(
    sdp: Option<Seq<char>>,
    media: bool,
    profile: Option<Seq<char>>,
    ws_uri: Option<Seq<char>>,
) -> Result<MediaPlanText, ErrorText> {
    match (sdp, media) {
        (Some(_), true) => Err(
            value_error(
                "b2bua.originate takes either sdp= (your own offer) or media=True (siphon anchors the leg), not both"@,
            ),
        ),
        (Some(sdp), false) => if trim(sdp).len() == 0 {
            Err(value_error("b2bua.originate sdp= must not be empty"@))
        } else {
            Ok(MediaPlanText::Offer(sdp))
        },
        (None, true) => Ok(
            MediaPlanText::Anchor {
                profile: match profile {
                    Some(profile) => profile,
                    None => "rtp_passthrough"@,
                },
                ws_uri,
            },
        ),
        (None, false) => Err(
            value_error(
                "b2bua.originate needs a media plan: sdp= (your own offer) or media=True (siphon anchors the leg)"@,
            ),
        ),
    }
}

/// The presentation that a script asks for.
pub open spec fn presentation_of(privacy: Option<Seq<char>>) -> Result<
    Option<CallerIdPresentation>,
    ErrorText,
> {
    match privacy {
        None => Ok(None),
        Some(name) => match presentation_named(name) {
            Some(presentation) => Ok(Some(presentation)),
            None => Err(
                value_error(
                    "b2bua.originate privacy= must be \"allowed\" or \"restricted\", got '"@ + name
                        + "'"@,
                ),
            ),
        },
    }
}

/// The call that a script's arguments ask for, or why none is placed.
pub open spec fn originate_params(args: OriginateArgs) -> Result<OriginateText, ErrorText> {
    match media_plan(opt_text(args.sdp), args.media, opt_text(args.profile), opt_text(args.ws_uri)) {
        Err(e) => Err(e),
        Ok(media) => match presentation_of(opt_text(args.privacy)) {
            Err(e) => Err(e),
            Ok(privacy) => Ok(
                OriginateText {
                    to: args.to@,
                    to_display: opt_text(args.to_display),
                    from: opt_text(args.from_uri),
                    from_display: opt_text(args.from_display),
                    next_hop: opt_text(args.next_hop),
                    p_asserted_identity: opt_text(args.p_asserted_identity),
                    privacy,
                    headers: match args.headers {
                        Some(headers) => pairs_text(headers@),
                        None => Seq::empty(),
                    },
                    timeout_secs: args.timeout,
                    media,
                },
            ),
        },
    }
}

/// What happens to a party whose peer leaves a bridge.
#[derive(Clone, Copy, Debug, PartialEq, Eq, Structural)]
pub enum PeerHangupPolicy {
    Hangup,
    Hold,
}

/// The policy that a name stands for.
pub open spec fn hangup_policy_named(name: Seq<char>) -> Option<PeerHangupPolicy> {
    if name == "hangup"@ {
        Some(PeerHangupPolicy::Hangup)
    } else if name == "hold"@ {
        Some(PeerHangupPolicy::Hold)
    } else {
        None
    }
}

impl PeerHangupPolicy {
    /// The policy that a name stands for.
    pub fn parse(name: &str) -> (r: Option<Self>)
        ensures
            r == hangup_policy_named(name@),
    {
        if same_text(name, "hangup") {
            Some(PeerHangupPolicy::Hangup)
        } else if same_text(name, "hold") {
            Some(PeerHangupPolicy::Hold)
        } else {
            None
        }
    }
}

/// Two calls that are to be joined.
#[derive(Debug, PartialEq)]
pub struct BridgeParams {
    pub anchor_sip_call_id: String,
    pub peer_sip_call_id: String,
    pub on_peer_hangup: PeerHangupPolicy,
}

/// Why a bridge could not be made or broken: a stable cause and what happened.
pub struct ControlError {
    pub code: String,
    pub message: String,
}

/// What a script sees of such an error: the cause comes first.
pub open spec fn control_error(e: ControlError) -> ErrorText {
    value_error(e.code@ + ": "@ + e.message@)
}

/// The `b2bua` namespace of scripts.
pub struct PyB2buaControl;

impl PyB2buaControl {
    pub fn new() -> (r: Self)
        ensures
            r == PyB2buaControl,
    {
        PyB2buaControl
    }

    /// Checks what a script asks for when it places a call, and gives the call
    /// that is to be placed.
    pub fn originate(&self, args: OriginateArgs) -> (r: Result<OriginateParams, ScriptError>)
        ensures
            match r {
                Ok(params) => originate_params(args) == Ok::<OriginateText, ErrorText>(params@),
                Err(e) => originate_params(args) == Err::<OriginateText, ErrorText>(e@),
            },
    {
        let media = match (args.sdp, args.media) {
            (Some(_), true) => {
                return Err(
                    ScriptError::value(
                        "b2bua.originate takes either sdp= (your own offer) or media=True (siphon anchors the leg), not both".to_owned(),
                    ),
                );
            },
            (Some(sdp), false) => {
                if trim_text(&sdp).as_str().is_empty() {
                    return Err(
                        ScriptError::value("b2bua.originate sdp= must not be empty".to_owned()),
                    );
                }
                OriginateMedia::Offer(sdp)
            },
            (None, true) => OriginateMedia::Anchor {
                profile: match args.profile {
                    Some(profile) => profile,
                    None => "rtp_passthrough".to_owned(),
                },
                ws_uri: args.ws_uri,
            },
            (None, false) => {
                return Err(
                    ScriptError::value(
                        "b2bua.originate needs a media plan: sdp= (your own offer) or media=True (siphon anchors the leg)".to_owned(),
                    ),
                );
            },
        };
        let privacy = match &args.privacy {
            None => None,
            Some(name) => match CallerIdPresentation::parse(name) {
                Some(presentation) => Some(presentation),
                None => {
                    return Err(
                        ScriptError::value(
                            "b2bua.originate privacy= must be \"allowed\" or \"restricted\", got '".to_owned().concat(
                                name,
                            ).concat("'"),
                        ),
                    );
                },
            },
        };
        let headers = match args.headers {
            Some(headers) => headers,
            None => {
                let none: Vec<(String, String)> = Vec::new();
                assert(pairs_text(none@) =~= Seq::<(Seq<char>, Seq<char>)>::empty());
                none
            },
        };
        Ok(
            OriginateParams {
                to: args.to,
                to_display: args.to_display,
                from: args.from_uri,
                from_display: args.from_display,
                next_hop: args.next_hop,
                p_asserted_identity: args.p_asserted_identity,
                privacy,
                headers,
                timeout_secs: args.timeout,
                media,
            },
        )
    }

    /// What a script gets for a call that was placed: its Call-ID, or the
    /// reason why it was not.
    pub fn originated(&self, placed: Result<String, String>) -> (r: Result<String, ScriptError>)
        ensures
            match placed {
                Ok(call_id) => r matches Ok(id) && id@ == call_id@,
                Err(reason) => r matches Err(e) && e@ == value_error(reason@),
            },
    {
        match placed {
            Ok(call_id) => Ok(call_id),
            Err(reason) => Err(ScriptError::value(reason)),
        }
    }

    /// Checks a request to join two calls.
    pub fn bridge(&self, call_id: &str, with_call_id: &str, on_peer_hangup: &str) -> (r: Result<
        BridgeParams,
        ScriptError,
    >)
        ensures
            match r {
                Ok(params) => hangup_policy_named(on_peer_hangup@) == Some(params.on_peer_hangup)
                    && params.anchor_sip_call_id@ == call_id@ && params.peer_sip_call_id@
                    == with_call_id@,
                Err(e) => hangup_policy_named(on_peer_hangup@) is None && e@ == value_error(
                    "b2bua.bridge(on_peer_hangup=…) must be 'hangup' or 'hold' (got '"@
                        + on_peer_hangup@ + "')"@,
                ),
            },
    {
        match PeerHangupPolicy::parse(on_peer_hangup) {
            Some(policy) => Ok(
                BridgeParams {
                    anchor_sip_call_id: call_id.to_owned(),
                    peer_sip_call_id: with_call_id.to_owned(),
                    on_peer_hangup: policy,
                },
            ),
            None => Err(
                ScriptError::value(
                    "b2bua.bridge(on_peer_hangup=…) must be 'hangup' or 'hold' (got '".to_owned().concat(
                        on_peer_hangup,
                    ).concat("')"),
                ),
            ),
        }
    }

    /// What a script gets for a bridge that was made or broken.
    pub fn controlled(&self, done: Result<(), ControlError>) -> (r: Result<bool, ScriptError>)
        ensures
            match done {
                Ok(()) => r matches Ok(true),
                Err(error) => r matches Err(e) && e@ == control_error(error),
            },
    {
        match done {
            Ok(()) => Ok(true),
            Err(error) => Err(
                ScriptError::value(error.code.concat(": ").concat(&error.message)),
            ),
        }
    }

    /// The transfer that a script asks for.
    pub fn refer(&self, target: &str, replaces: Option<&Vec<(String, PyValue)>>) -> (r: Result<
        ReferTo,
        ScriptError,
    >)
        ensures
            match r {
                Ok(refer_to) => refer_to.uri@ == target@ && opt_replaces_of(opt_entries(replaces))
                    == Ok::<Option<ReplacesText>, ErrorText>(opt_replaces(refer_to.replaces)),
                Err(e) => opt_replaces_of(opt_entries(replaces)) == Err::<
                    Option<ReplacesText>,
                    ErrorText,
                >(e@),
            },
    {
        match parse_replaces_dict(replaces) {
            Ok(replaces) => Ok(ReferTo { uri: target.to_owned(), replaces }),
            Err(e) => Err(e),
        }
    }
}

/// A call is placed only with exactly one source of media: an offer that is not
/// blank, or an anchor.
pub proof fn placed_call_has_one_media_plan(args: OriginateArgs)
    requires
        originate_params(args) is Ok,
    ensures
        args.sdp is Some <==> !args.media,
        match originate_params(args)->Ok_0.media {
            MediaPlanText::Offer(sdp) => opt_text(args.sdp) == Some(sdp) && trim(sdp).len() > 0,
            MediaPlanText::Anchor { .. } => args.media,
        },
{
}

} // verus!
