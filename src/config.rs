use vstd::prelude::*;
use crate::channels::Channels;

verus! {

/// A device channel and the name of the sink channel it drives.
#[derive(Debug)]
pub struct ChannelMapping {
    pub source: Channels,
    pub sink: String,
}

/// Why the static configuration or the discovered endpoint is unusable.
#[derive(Debug, Copy, Clone, PartialEq, Eq, Structural)]
pub enum ConfigError {
    /// Two mappings name the same device channel.
    DuplicateChannel,
    /// The device's websocket interface is switched off.
    WebsocketDisabled,
}

/// No channel occurs twice.
pub open spec fn distinct(sources: Seq<Channels>) -> bool {
    forall|i: int, j: int| 0 <= i < j < sources.len() ==> sources[i] != sources[j]
}

/// The static table from device channels to sink channels; each device
/// channel occurs at most once.
#[derive(Debug)]
pub struct ChannelMap {
    entries: Vec<ChannelMapping>,
}

impl ChannelMap {
    #[verifier::type_invariant]
    spec fn unique(&self) -> bool {
        distinct(self.sources())
    }

    /// No device channel occurs twice in the table.
    pub(crate) fn check_distinct(&self)
        ensures
            distinct(self.sources()),
    {
        proof {
            use_type_invariant(self);
        }
    }

    /// The device channels, in table order.
    pub closed spec fn sources(&self) -> Seq<Channels> {
        self.entries@.map_values(|e: ChannelMapping| e.source)
    }

    /// The sink channel names, in table order.
    pub closed spec fn sinks(&self) -> Seq<Seq<char>> {
        self.entries@.map_values(|e: ChannelMapping| e.sink@)
    }

    pub fn new(entries: Vec<ChannelMapping>) -> (r: Result<ChannelMap, ConfigError>)
        ensures
            r is Ok <==> distinct(entries@.map_values(|e: ChannelMapping| e.source)),
            r matches Ok(m) ==> m.sources() == entries@.map_values(|e: ChannelMapping| e.source)
                && m.sinks() == entries@.map_values(|e: ChannelMapping| e.sink@),
            r matches Err(e) ==> e == ConfigError::DuplicateChannel,
    {
        let ghost sources = entries@.map_values(|e: ChannelMapping| e.source);
        let mut i: usize = 0;
        while i < entries.len()
            invariant
                i <= entries@.len(),
                sources == entries@.map_values(|e: ChannelMapping| e.source),
                forall|a: int, b: int| 0 <= a < b < sources.len() && a < i ==> sources[a] != sources[b],
            decreases entries@.len() - i,
        {
            let mut j: usize = i + 1;
            while j < entries.len()
                invariant
                    i < entries@.len(),
                    i < j <= entries@.len(),
                    sources == entries@.map_values(|e: ChannelMapping| e.source),
                    forall|a: int, b: int|
                        0 <= a < b < sources.len() && a < i ==> sources[a] != sources[b],
                    forall|b: int| i < b < j ==> sources[i as int] != sources[b],
                decreases entries@.len() - j,
            {
                assert(sources[j as int] == entries@[j as int].source);
                assert(sources[i as int] == entries@[i as int].source);
                if entries[i].source == entries[j].source {
                    assert(sources[i as int] == sources[j as int]);
                    return Err(ConfigError::DuplicateChannel);
                }
                j = j + 1;
            }
            i = i + 1;
        }
        Ok(ChannelMap { entries })
    }

    pub fn len(&self) -> (r: usize)
        ensures
            r == self.sources().len(),
            r == self.sinks().len(),
    {
        self.entries.len()
    }

    pub fn source(&self, i: usize) -> (r: Channels)
        requires
            i < self.sources().len(),
        ensures
            r == self.sources()[i as int],
    {
        self.entries[i].source
    }

    /// The sink channel that device channel `c` drives, if it is mapped.
    pub fn sink_for(&self, c: Channels) -> (r: Option<&String>)
        ensures
            r matches Some(name) ==> exists|i: int|
                0 <= i < self.sources().len() && self.sources()[i] == c && self.sinks()[i]
                    == name@,
            r is None ==> !self.sources().contains(c),
    {
        let mut i: usize = 0;
        while i < self.entries.len()
            invariant
                i <= self.entries@.len(),
                forall|k: int| 0 <= k < i ==> self.sources()[k] != c,
            decreases self.entries@.len() - i,
        {
            assert(self.sources()[i as int] == self.entries@[i as int].source);
            if self.entries[i].source == c {
                assert(self.sources()[i as int] == c && self.sinks()[i as int] == self.entries@[i as int].sink@);
                return Some(&self.entries[i].sink);
            }
            i = i + 1;
        }
        None
    }
}

} // verus!
