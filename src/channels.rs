use vstd::prelude::*;
use vstd::string::*;

verus! {

/// Number of mixer channels that the device exposes.
pub const CHANNEL_COUNT: usize = 11;

/// Number of faders (routing slots) on the device.
pub const FADER_COUNT: usize = 4;

/// The canonical identity of a mixer channel on the source device.
#[derive(Debug, Copy, Clone, Eq, PartialEq, Hash, Structural)]
pub enum Channels {
    Mic,
    LineIn,
    Console,
    System,
    Game,
    Chat,
    Sample,
    Music,
    Headphones,
    MicMonitor,
    LineOut,
}

/// A fader (routing slot) of the device, in the device's slot order.
#[derive(Debug, Copy, Clone, Eq, PartialEq, Hash, Structural)]
pub enum FaderName {
    A,
    B,
    C,
    D,
}

impl Channels {
    /// Position of the channel in the device's channel order.
    pub open spec fn idx(self) -> nat {
        match self {
            Channels::Mic => 0,
            Channels::LineIn => 1,
            Channels::Console => 2,
            Channels::System => 3,
            Channels::Game => 4,
            Channels::Chat => 5,
            Channels::Sample => 6,
            Channels::Music => 7,
            Channels::Headphones => 8,
            Channels::MicMonitor => 9,
            Channels::LineOut => 10,
        }
    }

    /// The channel that the status tree spells `s`, if any.
    pub open spec fn named(s: Seq<char>) -> Option<Channels> {
        if s == "Mic"@ {
            Some(Channels::Mic)
        } else if s == "LineIn"@ {
            Some(Channels::LineIn)
        } else if s == "Console"@ {
            Some(Channels::Console)
        } else if s == "System"@ {
            Some(Channels::System)
        } else if s == "Game"@ {
            Some(Channels::Game)
        } else if s == "Chat"@ {
            Some(Channels::Chat)
        } else if s == "Sample"@ {
            Some(Channels::Sample)
        } else if s == "Music"@ {
            Some(Channels::Music)
        } else if s == "Headphones"@ {
            Some(Channels::Headphones)
        } else if s == "MicMonitor"@ {
            Some(Channels::MicMonitor)
        } else if s == "LineOut"@ {
            Some(Channels::LineOut)
        } else {
            None
        }
    }

    pub fn index(&self) -> (r: usize)
        ensures
            r == self.idx(),
            r < CHANNEL_COUNT,
    {
        match self {
            Channels::Mic => 0,
            Channels::LineIn => 1,
            Channels::Console => 2,
            Channels::System => 3,
            Channels::Game => 4,
            Channels::Chat => 5,
            Channels::Sample => 6,
            Channels::Music => 7,
            Channels::Headphones => 8,
            Channels::MicMonitor => 9,
            Channels::LineOut => 10,
        }
    }

    /// Reads a channel from the name the status tree uses for it.
    pub fn from_name(s: &str) -> (r: Option<Channels>)
        ensures
            r == Channels::named(s@),
    {
        if text_eq(s, "Mic") {
            Some(Channels::Mic)
        } else if text_eq(s, "LineIn") {
            Some(Channels::LineIn)
        } else if text_eq(s, "Console") {
            Some(Channels::Console)
        } else if text_eq(s, "System") {
            Some(Channels::System)
        } else if text_eq(s, "Game") {
            Some(Channels::Game)
        } else if text_eq(s, "Chat") {
            Some(Channels::Chat)
        } else if text_eq(s, "Sample") {
            Some(Channels::Sample)
        } else if text_eq(s, "Music") {
            Some(Channels::Music)
        } else if text_eq(s, "Headphones") {
            Some(Channels::Headphones)
        } else if text_eq(s, "MicMonitor") {
            Some(Channels::MicMonitor)
        } else if text_eq(s, "LineOut") {
            Some(Channels::LineOut)
        } else {
            None
        }
    }
}

impl FaderName {
    /// Position of the fader among the device's slots.
    pub open spec fn idx(self) -> nat {
        match self {
            FaderName::A => 0,
            FaderName::B => 1,
            FaderName::C => 2,
            FaderName::D => 3,
        }
    }

    /// The fader that the status tree spells `s`, if any.
    pub open spec fn named(s: Seq<char>) -> Option<FaderName> {
        if s == "A"@ {
            Some(FaderName::A)
        } else if s == "B"@ {
            Some(FaderName::B)
        } else if s == "C"@ {
            Some(FaderName::C)
        } else if s == "D"@ {
            Some(FaderName::D)
        } else {
            None
        }
    }

    pub fn index(&self) -> (r: usize)
        ensures
            r == self.idx(),
            r < FADER_COUNT,
    {
        match self {
            FaderName::A => 0,
            FaderName::B => 1,
            FaderName::C => 2,
            FaderName::D => 3,
        }
    }

    /// Reads a fader from the name the status tree uses for it.
    pub fn from_name(s: &str) -> (r: Option<FaderName>)
        ensures
            r == FaderName::named(s@),
    {
        if text_eq(s, "A") {
            Some(FaderName::A)
        } else if text_eq(s, "B") {
            Some(FaderName::B)
        } else if text_eq(s, "C") {
            Some(FaderName::C)
        } else if text_eq(s, "D") {
            Some(FaderName::D)
        } else {
            None
        }
    }
}

/// Compares two strings character by character.
pub fn text_eq(a: &str, b: &str) -> (r: bool)
    ensures
        r == (a@ == b@),
{
    let n = a.unicode_len();
    if n != b.unicode_len() {
        return false;
    }
    let mut i: usize = 0;
    while i < n
        invariant
            n == a@.len(),
            n == b@.len(),
            i <= n,
            a@.subrange(0, i as int) == b@.subrange(0, i as int),
        decreases n - i,
    {
        if a.get_char(i) != b.get_char(i) {
            return false;
        }
        assert(a@.subrange(0, i + 1) == a@.subrange(0, i as int).push(a@[i as int]));
        assert(b@.subrange(0, i + 1) == b@.subrange(0, i as int).push(b@[i as int]));
        i = i + 1;
    }
    assert(a@ == a@.subrange(0, n as int));
    assert(b@ == b@.subrange(0, n as int));
    true
}

} // verus!
