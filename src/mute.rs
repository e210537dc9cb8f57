use vstd::prelude::*;

verus! {

/// Which destinations a fader's mute action targets.
#[derive(Debug, Copy, Clone, Eq, PartialEq, Hash, Structural)]
pub enum MuteFunction {
    All,
    ToStream,
    ToVoiceChat,
    ToPhones,
    ToLineOut,
}

/// Whether a fader is muted, and towards what.
#[derive(Debug, Copy, Clone, Eq, PartialEq, Hash, Structural)]
pub enum MuteState {
    Unmuted,
    MutedToX,
    MutedToAll,
}

/// A channel is silent on the stream when it is muted to everything, or muted
/// to its target set and that set includes the stream.
pub open spec fn is_muted(function: MuteFunction, state: MuteState) -> bool {
    state == MuteState::MutedToAll || (state == MuteState::MutedToX && (function
        == MuteFunction::ToStream || function == MuteFunction::All))
}

pub fn resolve_muted(function: MuteFunction, state: MuteState) -> (r: bool)
    ensures
        r == is_muted(function, state),
{
    match state {
        MuteState::MutedToAll => true,
        MuteState::MutedToX => match function {
            MuteFunction::ToStream | MuteFunction::All => true,
            _ => false,
        },
        MuteState::Unmuted => false,
    }
}

impl MuteFunction {
    /// The value that the status tree spells `s`, if any.
    pub open spec fn named(s: Seq<char>) -> Option<MuteFunction> {
        if s == "All"@ {
            Some(MuteFunction::All)
        } else if s == "ToStream"@ {
            Some(MuteFunction::ToStream)
        } else if s == "ToVoiceChat"@ {
            Some(MuteFunction::ToVoiceChat)
        } else if s == "ToPhones"@ {
            Some(MuteFunction::ToPhones)
        } else if s == "ToLineOut"@ {
            Some(MuteFunction::ToLineOut)
        } else {
            None
        }
    }

    pub fn from_name(s: &str) -> (r: Option<MuteFunction>)
        ensures
            r == MuteFunction::named(s@),
    {
        if crate::channels::text_eq(s, "All") {
            Some(MuteFunction::All)
        } else if crate::channels::text_eq(s, "ToStream") {
            Some(MuteFunction::ToStream)
        } else if crate::channels::text_eq(s, "ToVoiceChat") {
            Some(MuteFunction::ToVoiceChat)
        } else if crate::channels::text_eq(s, "ToPhones") {
            Some(MuteFunction::ToPhones)
        } else if crate::channels::text_eq(s, "ToLineOut") {
            Some(MuteFunction::ToLineOut)
        } else {
            None
        }
    }
}

impl MuteState {
    /// The value that the status tree spells `s`, if any.
    pub open spec fn named(s: Seq<char>) -> Option<MuteState> {
        if s == "Unmuted"@ {
            Some(MuteState::Unmuted)
        } else if s == "MutedToX"@ {
            Some(MuteState::MutedToX)
        } else if s == "MutedToAll"@ {
            Some(MuteState::MutedToAll)
        } else {
            None
        }
    }

    pub fn from_name(s: &str) -> (r: Option<MuteState>)
        ensures
            r == MuteState::named(s@),
    {
        if crate::channels::text_eq(s, "Unmuted") {
            Some(MuteState::Unmuted)
        } else if crate::channels::text_eq(s, "MutedToX") {
            Some(MuteState::MutedToX)
        } else if crate::channels::text_eq(s, "MutedToAll") {
            Some(MuteState::MutedToAll)
        } else {
            None
        }
    }
}

} // verus!
