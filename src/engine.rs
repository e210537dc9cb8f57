use vstd::prelude::*;
use crate::channels::Channels;
use crate::config::{distinct, ChannelMap};
use crate::detector::{events, record_events, unknown, ChangeDetector, ChangeEvent, ChannelState};
use crate::mirror::StatusMirror;
use crate::patch::{merge, PatchOp};
use crate::pointer::{ops_of, parse_patch, RawOp};
use crate::snapshot::{ProtocolError, Snapshot, SnapshotView};

verus! {

/// Keeps the sink in step with the device: takes each status or patch that
/// arrives, mirrors it, and says which events the sink needs. Each event is
/// noted as handed off only once the caller has delivered it.
#[derive(Debug)]
pub struct SyncEngine {
    mirror: StatusMirror,
    detector: ChangeDetector,
}

impl SyncEngine {
    /// The mirrored status.
    pub closed spec fn status(&self) -> Option<SnapshotView> {
        self.mirror@
    }

    /// The mapped device channels, in table order.
    pub closed spec fn sources(&self) -> Seq<Channels> {
        self.detector.sources()
    }

    /// The sink channel names, in table order.
    pub closed spec fn sinks(&self) -> Seq<Seq<char>> {
        self.detector.sinks()
    }

    /// What was last handed off for each mapped channel.
    pub closed spec fn states(&self) -> Seq<ChannelState> {
        self.detector.states()
    }

    pub closed spec fn wf(&self) -> bool {
        self.detector.wf()
    }

    pub fn new(map: ChannelMap) -> (r: SyncEngine)
        ensures
            r.wf(),
            r.status() is None,
            r.sources() == map.sources(),
            r.sinks() == map.sinks(),
            r.states().len() == map.sources().len(),
            forall|k: int| 0 <= k < r.states().len() ==> r.states()[k] == unknown(),
    {
        SyncEngine { mirror: StatusMirror::new(), detector: ChangeDetector::new(map) }
    }

    /// Takes a full status: it replaces the mirror, and every mapped channel
    /// whose volume or mute differs from what was handed off gets an event.
    pub fn on_status(&mut self, snapshot: Snapshot) -> (r: Vec<ChangeEvent>)
        requires
            old(self).wf(),
        ensures
            final(self).wf(),
            final(self).status() == Some(snapshot@),
            final(self).sources() == old(self).sources(),
            final(self).sinks() == old(self).sinks(),
            final(self).states() == old(self).states(),
            r@ == events(old(self).sources(), old(self).states(), snapshot@),
    {
        self.mirror.apply_full(snapshot);
        match self.mirror.current() {
            Some(s) => self.detector.detect(s),
            None => Vec::new(),
        }
    }

    /// Takes a patch: it is read against the mirrored device and merged
    /// into the mirror, and the events of the merged status are returned.
    /// On failure the mirror is left exactly as it was and there are no
    /// events.
    pub fn on_patch(&mut self, patch: Vec<RawOp>) -> (r: Result<Vec<ChangeEvent>, ProtocolError>)
        requires
            old(self).wf(),
        ensures
            final(self).wf(),
            final(self).sources() == old(self).sources(),
            final(self).sinks() == old(self).sinks(),
            final(self).states() == old(self).states(),
            old(self).status() is None ==> r == Err::<Vec<ChangeEvent>, _>(
                ProtocolError::NoSnapshot,
            ),
            old(self).status() matches Some(s) ==> match ops_of(patch@, s.serial) {
                Err(e) => r == Err::<Vec<ChangeEvent>, _>(e),
                Ok(ops) => match merge(s, ops) {
                    None => r == Err::<Vec<ChangeEvent>, _>(ProtocolError::TypeMismatch),
                    Some(t) => final(self).status() == Some(t) && (r matches Ok(es) && es@
                        == events(old(self).sources(), old(self).states(), t)),
                },
            },
            r is Err ==> final(self).status() == old(self).status(),
    {
        let ops = match self.mirror.current() {
            None => {
                return Err(ProtocolError::NoSnapshot);
            },
            Some(s) => parse_patch(patch, s.serial()),
        };
        let ops: Vec<PatchOp> = match ops {
            Ok(ops) => ops,
            Err(e) => {
                return Err(e);
            },
        };
        match self.mirror.apply_patch(&ops) {
            Err(e) => Err(e),
            Ok(()) => match self.mirror.current() {
                Some(s) => Ok(self.detector.detect(s)),
                None => Err(ProtocolError::NoSnapshot),
            },
        }
    }

    /// Notes that event `e` has been delivered to the sink.
    pub fn delivered(&mut self, e: ChangeEvent)
        requires
            old(self).wf(),
        ensures
            final(self).wf(),
            final(self).status() == old(self).status(),
            final(self).sources() == old(self).sources(),
            final(self).sinks() == old(self).sinks(),
            final(self).states() == crate::detector::record_event(
                old(self).sources(),
                old(self).states(),
                e,
            ),
    {
        self.detector.record(e);
    }

    /// Starts over after the connection to the device is made again: the
    /// mirror is emptied and the next status goes out whole.
    pub fn reconnect(&mut self)
        requires
            old(self).wf(),
        ensures
            final(self).wf(),
            final(self).status() is None,
            final(self).sources() == old(self).sources(),
            final(self).sinks() == old(self).sinks(),
            final(self).states().len() == old(self).states().len(),
            forall|k: int| 0 <= k < final(self).states().len() ==> final(self).states()[k] == unknown(),
    {
        self.mirror = StatusMirror::new();
        self.detector.reset();
    }

    /// The sink channel that device channel `c` drives, if it is mapped.
    pub fn sink_for(&self, c: Channels) -> (r: Option<&String>)
        ensures
            r matches Some(name) ==> exists|i: int|
                0 <= i < self.sources().len() && self.sources()[i] == c && self.sinks()[i]
                    == name@,
            r is None ==> !self.sources().contains(c),
    {
        let map = self.detector.map();
        let r = map.sink_for(c);
        proof {
            if let Some(name) = r {
                let i = choose|i: int|
                    0 <= i < map.sources().len() && map.sources()[i] == c && map.sinks()[i]
                        == name@;
                assert(self.sources()[i] == c && self.sinks()[i] == name@);
            }
        }
        r
    }
}

/// Once the events for a status have been delivered, the same status again,
/// or a patch with no operations, yields no events.
pub proof fn lemma_repeat_is_silent(
    sources: Seq<Channels>,
    states: Seq<ChannelState>,
    s: SnapshotView,
    serial: Seq<char>,
)
    requires
        distinct(sources),
        states.len() == sources.len(),
    ensures
        ({
            let synced = record_events(sources, states, events(sources, states, s));
            &&& events(sources, synced, s) == Seq::<ChangeEvent>::empty()
            &&& ops_of(Seq::<RawOp>::empty(), serial) == Ok::<_, ProtocolError>(
                Seq::<PatchOp>::empty(),
            )
            &&& merge(s, Seq::<PatchOp>::empty()) == Some(s)
        }),
{
    crate::detector::lemma_resync_is_silent(sources, states, s);
}

} // verus!
