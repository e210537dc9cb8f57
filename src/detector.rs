use vstd::prelude::*;
use crate::channels::Channels;
use crate::config::{distinct, ChannelMap};
use crate::curve::{amplitude_of, to_amplitude};
use crate::snapshot::{Snapshot, SnapshotView};

verus! {

/// An update that the sink must apply to stay in step with the device.
#[derive(Debug, Copy, Clone, PartialEq, Eq, Structural)]
pub enum ChangeEvent {
    VolumeChanged { channel: Channels, amplitude: i32 },
    MuteChanged { channel: Channels, muted: bool },
}

impl ChangeEvent {
    pub open spec fn channel_of(self) -> Channels {
        match self {
            ChangeEvent::VolumeChanged { channel, .. } => channel,
            ChangeEvent::MuteChanged { channel, .. } => channel,
        }
    }

    pub fn channel(&self) -> (r: Channels)
        ensures
            r == self.channel_of(),
    {
        match self {
            ChangeEvent::VolumeChanged { channel, .. } => *channel,
            ChangeEvent::MuteChanged { channel, .. } => *channel,
        }
    }
}

/// What was last handed to the sink for one channel; `None` until the first
/// hand-off, so that the first observation always goes out.
#[derive(Debug, Copy, Clone, PartialEq, Eq, Structural)]
pub struct ChannelState {
    pub volume: Option<i32>,
    pub muted: Option<bool>,
}

pub open spec fn unknown() -> ChannelState {
    ChannelState { volume: None, muted: None }
}

/// The state the sink should hold for channel `c` of snapshot `s`.
pub open spec fn target_state(c: Channels, s: SnapshotView) -> ChannelState {
    ChannelState { volume: Some(amplitude_of(s.volume(c)) as i32), muted: Some(s.muted(c)) }
}

/// The events for one channel: a volume event where the amplitude differs
/// from what was handed off, then a mute event where the mute differs.
pub open spec fn channel_events(c: Channels, d: ChannelState, s: SnapshotView) -> Seq<ChangeEvent> {
    let t = target_state(c, s);
    let v = if d.volume == t.volume {
        Seq::empty()
    } else {
        seq![ChangeEvent::VolumeChanged { channel: c, amplitude: t.volume.unwrap() }]
    };
    let m = if d.muted == t.muted {
        Seq::empty()
    } else {
        seq![ChangeEvent::MuteChanged { channel: c, muted: s.muted(c) }]
    };
    v + m
}

/// The events for the first `n` mapped channels, in table order.
pub open spec fn events_upto(
    sources: Seq<Channels>,
    states: Seq<ChannelState>,
    s: SnapshotView,
    n: nat,
) -> Seq<ChangeEvent>
    decreases n,
{
    if n == 0 {
        Seq::empty()
    } else {
        events_upto(sources, states, s, (n - 1) as nat) + channel_events(
            sources[n - 1],
            states[n - 1],
            s,
        )
    }
}

/// The events for every mapped channel.
pub open spec fn events(sources: Seq<Channels>, states: Seq<ChannelState>, s: SnapshotView) -> Seq<
    ChangeEvent,
> {
    events_upto(sources, states, s, sources.len())
}

/// The state of a channel once event `e` about it has been handed off.
pub open spec fn after_event(d: ChannelState, e: ChangeEvent) -> ChannelState {
    match e {
        ChangeEvent::VolumeChanged { amplitude, .. } => ChannelState { volume: Some(amplitude), ..d },
        ChangeEvent::MuteChanged { muted, .. } => ChannelState { muted: Some(muted), ..d },
    }
}

/// The states once `e` has been handed off: only the entry of its channel
/// changes, and nothing does for a channel that is not mapped.
pub open spec fn record_event(sources: Seq<Channels>, states: Seq<ChannelState>, e: ChangeEvent) -> Seq<
    ChannelState,
> {
    if exists|i: int| 0 <= i < sources.len() && sources[i] == e.channel_of() {
        let i = choose|i: int| 0 <= i < sources.len() && sources[i] == e.channel_of();
        states.update(i, after_event(states[i], e))
    } else {
        states
    }
}

/// The states once every event of `es` has been handed off, in order.
pub open spec fn record_events(
    sources: Seq<Channels>,
    states: Seq<ChannelState>,
    es: Seq<ChangeEvent>,
) -> Seq<ChannelState>
    decreases es.len(),
{
    if es.len() == 0 {
        states
    } else {
        record_event(sources, record_events(sources, states, es.drop_last()), es.last())
    }
}

proof fn lemma_record_at(sources: Seq<Channels>, states: Seq<ChannelState>, e: ChangeEvent, i: int)
    requires
        distinct(sources),
        0 <= i < sources.len(),
        sources[i] == e.channel_of(),
    ensures
        record_event(sources, states, e) == states.update(i, after_event(states[i], e)),
{
    let j = choose|j: int| 0 <= j < sources.len() && sources[j] == e.channel_of();
    assert(j == i);
}

proof fn lemma_record_concat(
    sources: Seq<Channels>,
    states: Seq<ChannelState>,
    a: Seq<ChangeEvent>,
    b: Seq<ChangeEvent>,
)
    ensures
        record_events(sources, states, a + b) == record_events(
            sources,
            record_events(sources, states, a),
            b,
        ),
    decreases b.len(),
{
    if b.len() == 0 {
        assert(a + b =~= a);
    } else {
        assert((a + b).drop_last() =~= a + b.drop_last());
        lemma_record_concat(sources, states, a, b.drop_last());
    }
}

/// Handing off one channel's events brings its entry to the target state.
proof fn lemma_record_channel(
    sources: Seq<Channels>,
    states: Seq<ChannelState>,
    s: SnapshotView,
    i: int,
)
    requires
        distinct(sources),
        0 <= i < sources.len(),
        states.len() == sources.len(),
    ensures
        record_events(sources, states, channel_events(sources[i], states[i], s)) == states.update(
            i,
            target_state(sources[i], s),
        ),
{
    let c = sources[i];
    let d = states[i];
    let t = target_state(c, s);
    let es = channel_events(c, d, s);
    let ve = ChangeEvent::VolumeChanged { channel: c, amplitude: t.volume.unwrap() };
    let me = ChangeEvent::MuteChanged { channel: c, muted: s.muted(c) };
    if d.volume == t.volume && d.muted == t.muted {
        assert(es =~= Seq::<ChangeEvent>::empty());
        assert(states.update(i, t) =~= states);
    } else if d.volume == t.volume {
        assert(es =~= seq![me]);
        assert(es.drop_last() =~= Seq::<ChangeEvent>::empty());
        assert(record_events(sources, states, es.drop_last()) == states);
        lemma_record_at(sources, states, me, i);
        assert(states.update(i, after_event(d, me)) =~= states.update(i, t));
    } else if d.muted == t.muted {
        assert(es =~= seq![ve]);
        assert(es.drop_last() =~= Seq::<ChangeEvent>::empty());
        assert(record_events(sources, states, es.drop_last()) == states);
        lemma_record_at(sources, states, ve, i);
        assert(states.update(i, after_event(d, ve)) =~= states.update(i, t));
    } else {
        assert(es =~= seq![ve, me]);
        assert(es.drop_last() =~= seq![ve]);
        assert(es.drop_last().drop_last() =~= Seq::<ChangeEvent>::empty());
        assert(record_events(sources, states, es.drop_last().drop_last()) == states);
        lemma_record_at(sources, states, ve, i);
        let mid = states.update(i, after_event(d, ve));
        assert(record_events(sources, states, es.drop_last()) == mid);
        lemma_record_at(sources, mid, me, i);
        assert(mid.update(i, after_event(mid[i], me)) =~= states.update(i, t));
    }
}

/// Handing off the events of the first `n` channels brings exactly those
/// entries to their target states.
proof fn lemma_record_upto(
    sources: Seq<Channels>,
    states: Seq<ChannelState>,
    s: SnapshotView,
    n: nat,
)
    requires
        distinct(sources),
        states.len() == sources.len(),
        n <= sources.len(),
    ensures
        ({
            let after = record_events(sources, states, events_upto(sources, states, s, n));
            &&& after.len() == states.len()
            &&& forall|k: int| 0 <= k < n ==> after[k] == target_state(sources[k], s)
            &&& forall|k: int| n <= k < states.len() ==> after[k] == states[k]
        }),
    decreases n,
{
    if n > 0 {
        let m = (n - 1) as nat;
        lemma_record_upto(sources, states, s, m);
        let prev = record_events(sources, states, events_upto(sources, states, s, m));
        lemma_record_concat(
            sources,
            states,
            events_upto(sources, states, s, m),
            channel_events(sources[m as int], states[m as int], s),
        );
        lemma_record_channel(sources, prev, s, m as int);
    }
}

/// Where every entry already holds its target state, no channel has events.
proof fn lemma_synced_is_silent(
    sources: Seq<Channels>,
    states: Seq<ChannelState>,
    s: SnapshotView,
    n: nat,
)
    requires
        n <= sources.len(),
        n <= states.len(),
        forall|k: int| 0 <= k < n ==> states[k] == target_state(sources[k], s),
    ensures
        events_upto(sources, states, s, n) == Seq::<ChangeEvent>::empty(),
    decreases n,
{
    if n > 0 {
        lemma_synced_is_silent(sources, states, s, (n - 1) as nat);
        let k = n - 1;
        assert(channel_events(sources[k], states[k], s) =~= Seq::<ChangeEvent>::empty());
        assert(events_upto(sources, states, s, n) =~= Seq::<ChangeEvent>::empty());
    }
}

/// Once the events of a snapshot have been handed off, detecting again on
/// the same snapshot yields nothing: repeated full snapshots and empty
/// patches are silent.
pub proof fn lemma_resync_is_silent(
    sources: Seq<Channels>,
    states: Seq<ChannelState>,
    s: SnapshotView,
)
    requires
        distinct(sources),
        states.len() == sources.len(),
    ensures
        events(sources, record_events(sources, states, events(sources, states, s)), s)
            == Seq::<ChangeEvent>::empty(),
        record_events(sources, states, events(sources, states, s)).len() == sources.len(),
{
    lemma_record_upto(sources, states, s, sources.len());
    let after = record_events(sources, states, events(sources, states, s));
    lemma_synced_is_silent(sources, after, s, sources.len());
}

/// From the unknown state, every mapped channel gets exactly one volume event
/// followed by exactly one mute event, in table order.
pub proof fn lemma_first_sync_emits_all(
    sources: Seq<Channels>,
    states: Seq<ChannelState>,
    s: SnapshotView,
    n: nat,
)
    requires
        n <= sources.len(),
        n <= states.len(),
        forall|k: int| 0 <= k < n ==> states[k] == unknown(),
    ensures
        events_upto(sources, states, s, n).len() == 2 * n,
        forall|k: int|
            0 <= k < n ==> events_upto(sources, states, s, n)[2 * k]
                == (ChangeEvent::VolumeChanged {
                channel: sources[k],
                amplitude: amplitude_of(s.volume(sources[k])) as i32,
            }) && events_upto(sources, states, s, n)[2 * k + 1] == (ChangeEvent::MuteChanged {
                channel: sources[k],
                muted: s.muted(sources[k]),
            }),
    decreases n,
{
    if n > 0 {
        let m = (n - 1) as nat;
        lemma_first_sync_emits_all(sources, states, s, m);
        let c = sources[m as int];
        let es = channel_events(c, states[m as int], s);
        assert(es =~= seq![
            ChangeEvent::VolumeChanged { channel: c, amplitude: amplitude_of(s.volume(c)) as i32 },
            ChangeEvent::MuteChanged { channel: c, muted: s.muted(c) },
        ]);
    }
}

/// A channel that no fader drives is never muted, and its level changes
/// still go out.
pub proof fn lemma_unbound_channel(c: Channels, d: ChannelState, s: SnapshotView)
    requires
        forall|j: int| 0 <= j < s.faders.len() ==> s.faders[j].channel != c,
    ensures
        s.muted(c) == false,
        d.volume != Some(amplitude_of(s.volume(c)) as i32) ==> channel_events(c, d, s)[0]
            == (ChangeEvent::VolumeChanged { channel: c, amplitude: amplitude_of(s.volume(c)) as i32 }),
{
    crate::snapshot::lemma_last_bound(s.faders, c);
    if s.faders.len() > 0 {
        assert(s.faders.last().channel != c);
    }
}

/// Compares each mapped channel of a snapshot with what was last handed to
/// the sink.
#[derive(Debug)]
pub struct ChangeDetector {
    map: ChannelMap,
    states: Vec<ChannelState>,
}

impl ChangeDetector {
    pub closed spec fn sources(&self) -> Seq<Channels> {
        self.map.sources()
    }

    pub closed spec fn sinks(&self) -> Seq<Seq<char>> {
        self.map.sinks()
    }

    pub closed spec fn states(&self) -> Seq<ChannelState> {
        self.states@
    }

    /// One state per mapped channel.
    pub closed spec fn wf(&self) -> bool {
        self.states@.len() == self.map.sources().len()
    }

    /// A detector for which nothing has been handed off yet.
    pub fn new(map: ChannelMap) -> (r: ChangeDetector)
        ensures
            r.wf(),
            r.sources() == map.sources(),
            r.sinks() == map.sinks(),
            r.states().len() == map.sources().len(),
            forall|k: int| 0 <= k < r.states().len() ==> r.states()[k] == unknown(),
    {
        let n = map.len();
        let mut states: Vec<ChannelState> = Vec::new();
        let mut i: usize = 0;
        while i < n
            invariant
                i <= n,
                states@.len() == i,
                forall|k: int| 0 <= k < i ==> states@[k] == unknown(),
            decreases n - i,
        {
            states.push(ChannelState { volume: None, muted: None });
            i = i + 1;
        }
        ChangeDetector { map, states }
    }

    pub fn map(&self) -> (r: &ChannelMap)
        ensures
            r.sources() == self.sources(),
            r.sinks() == self.sinks(),
    {
        &self.map
    }

    /// Forgets what was handed off, so that the next snapshot goes out whole.
    pub fn reset(&mut self)
        requires
            old(self).wf(),
        ensures
            final(self).wf(),
            final(self).sources() == old(self).sources(),
            final(self).sinks() == old(self).sinks(),
            final(self).states().len() == old(self).states().len(),
            forall|k: int| 0 <= k < final(self).states().len() ==> final(self).states()[k] == unknown(),
    {
        let n = self.states.len();
        let mut i: usize = 0;
        while i < n
            invariant
                i <= n,
                n == self.states@.len(),
                self.wf(),
                self.sources() == old(self).sources(),
                self.sinks() == old(self).sinks(),
                forall|k: int| 0 <= k < i ==> self.states@[k] == unknown(),
            decreases n - i,
        {
            self.states.set(i, ChannelState { volume: None, muted: None });
            i = i + 1;
        }
    }

    /// The events that bring the sink in step with snapshot `s`.
    pub fn detect(&self, s: &Snapshot) -> (r: Vec<ChangeEvent>)
        requires
            self.wf(),
        ensures
            r@ == events(self.sources(), self.states(), s@),
    {
        let n = self.map.len();
        let mut out: Vec<ChangeEvent> = Vec::new();
        let mut i: usize = 0;
        while i < n
            invariant
                i <= n,
                n == self.sources().len(),
                self.wf(),
                out@ == events_upto(self.sources(), self.states(), s@, i as nat),
            decreases n - i,
        {
            let c = self.map.source(i);
            let d = self.states[i];
            let amplitude = to_amplitude(s.volume(c));
            let muted = s.muted(c);
            let ghost before = out@;
            if d.volume != Some(amplitude) {
                out.push(ChangeEvent::VolumeChanged { channel: c, amplitude });
            }
            if d.muted != Some(muted) {
                out.push(ChangeEvent::MuteChanged { channel: c, muted });
            }
            assert(out@ =~= before + channel_events(c, d, s@));
            i = i + 1;
        }
        out
    }

    /// Notes that event `e` has been handed to the sink.
    pub fn record(&mut self, e: ChangeEvent)
        requires
            old(self).wf(),
        ensures
            final(self).wf(),
            final(self).sources() == old(self).sources(),
            final(self).sinks() == old(self).sinks(),
            final(self).states() == record_event(old(self).sources(), old(self).states(), e),
    {
        self.map.check_distinct();
        let c = e.channel();
        let n = self.map.len();
        let mut i: usize = 0;
        while i < n
            invariant
                i <= n,
                n == self.sources().len(),
                self.wf(),
                self.sources() == old(self).sources(),
                self.sinks() == old(self).sinks(),
                self.states() == old(self).states(),
                distinct(self.sources()),
                c == e.channel_of(),
                forall|k: int| 0 <= k < i ==> self.sources()[k] != c,
            decreases n - i,
        {
            let si = self.map.source(i);
            if si == c {
                proof {
                    lemma_record_at(self.sources(), self.states(), e, i as int);
                }
                let d = self.states[i];
                let nd = match e {
                    ChangeEvent::VolumeChanged { amplitude, .. } => ChannelState {
                        volume: Some(amplitude),
                        ..d
                    },
                    ChangeEvent::MuteChanged { muted, .. } => ChannelState { muted: Some(muted), ..d },
                };
                self.states.set(i, nd);
                return;
            }
            i = i + 1;
        }
    }
}

} // verus!
