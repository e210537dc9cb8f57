use vstd::prelude::*;
use crate::channels::{Channels, FaderName, CHANNEL_COUNT, FADER_COUNT};
use crate::mute::{is_muted, resolve_muted, MuteFunction, MuteState};

verus! {

/// What a fader (routing slot) currently drives, and how its mute is set up.
#[derive(Debug, Copy, Clone, PartialEq, Eq, Structural)]
pub struct FaderBinding {
    pub channel: Channels,
    pub function: MuteFunction,
    pub state: MuteState,
}

/// The mirrored state of one device: its serial, a raw level per channel (in
/// channel order) and its faders (in slot order).
#[derive(Debug)]
pub struct Snapshot {
    serial: String,
    volumes: Vec<u8>,
    faders: Vec<FaderBinding>,
}

pub struct SnapshotView {
    pub serial: Seq<char>,
    pub volumes: Seq<u8>,
    pub faders: Seq<FaderBinding>,
}

impl SnapshotView {
    /// One level per channel and one binding per fader.
    pub open spec fn wf(self) -> bool {
        &&& self.volumes.len() == CHANNEL_COUNT
        &&& self.faders.len() == FADER_COUNT
    }

    pub open spec fn volume(self, c: Channels) -> u8 {
        self.volumes[c.idx() as int]
    }

    /// The slot that governs channel `c`: the last one bound to it.
    pub open spec fn bound_slot(self, c: Channels) -> Option<nat> {
        last_bound(self.faders, c)
    }

    /// Whether channel `c` is silent on the stream; an unbound channel never is.
    pub open spec fn muted(self, c: Channels) -> bool {
        match self.bound_slot(c) {
            Some(i) => is_muted(self.faders[i as int].function, self.faders[i as int].state),
            None => false,
        }
    }
}

/// The position of the last binding in `faders` that drives channel `c`.
pub open spec fn last_bound(faders: Seq<FaderBinding>, c: Channels) -> Option<nat>
    decreases faders.len(),
{
    if faders.len() == 0 {
        None
    } else if faders.last().channel == c {
        Some((faders.len() - 1) as nat)
    } else {
        last_bound(faders.drop_last(), c)
    }
}

pub proof fn lemma_last_bound(faders: Seq<FaderBinding>, c: Channels)
    ensures
        last_bound(faders, c) matches Some(i) ==> i < faders.len() && faders[i as int].channel
            == c && forall|j: int| i < j < faders.len() ==> faders[j].channel != c,
        last_bound(faders, c) is None ==> forall|j: int|
            0 <= j < faders.len() ==> faders[j].channel != c,
    decreases faders.len(),
{
    if faders.len() > 0 && faders.last().channel != c {
        let rest = faders.drop_last();
        lemma_last_bound(rest, c);
        assert forall|j: int| 0 <= j < rest.len() implies rest[j] == faders[j] by {}
    }
}

impl View for Snapshot {
    type V = SnapshotView;

    closed spec fn view(&self) -> SnapshotView {
        SnapshotView { serial: self.serial@, volumes: self.volumes@, faders: self.faders@ }
    }
}

/// Why a snapshot or patch cannot be taken into the mirror.
#[derive(Debug, Copy, Clone, PartialEq, Eq, Structural)]
pub enum ProtocolError {
    /// A patch arrived before any full snapshot.
    NoSnapshot,
    /// A patch addresses a path that the status tree does not have.
    MalformedPath,
    /// A value does not fit the field it is written to, or a required field
    /// is removed.
    TypeMismatch,
    /// An operation whose effect on a mirrored field cannot be followed
    /// (a move or copy onto it).
    Unsupported,
}

impl Snapshot {
    #[verifier::type_invariant]
    spec fn shaped(&self) -> bool {
        self@.wf()
    }

    /// Builds a snapshot; the levels must cover every channel and the
    /// bindings every fader.
    pub fn new(serial: String, volumes: Vec<u8>, faders: Vec<FaderBinding>) -> (r: Result<
        Snapshot,
        ProtocolError,
    >)
        ensures
            r is Ok <==> volumes@.len() == CHANNEL_COUNT && faders@.len() == FADER_COUNT,
            r matches Ok(s) ==> s@ == (SnapshotView {
                serial: serial@,
                volumes: volumes@,
                faders: faders@,
            }),
            r matches Err(e) ==> e == ProtocolError::TypeMismatch,
    {
        if volumes.len() == CHANNEL_COUNT && faders.len() == FADER_COUNT {
            Ok(Snapshot { serial, volumes, faders })
        } else {
            Err(ProtocolError::TypeMismatch)
        }
    }

    pub fn serial(&self) -> (r: &String)
        ensures
            r@ == self@.serial,
    {
        &self.serial
    }

    pub fn volume(&self, c: Channels) -> (r: u8)
        ensures
            r == self@.volume(c),
            self@.wf(),
    {
        proof {
            use_type_invariant(self);
        }
        self.volumes[c.index()]
    }

    pub fn fader(&self, f: FaderName) -> (r: FaderBinding)
        ensures
            r == self@.faders[f.idx() as int],
            self@.wf(),
    {
        proof {
            use_type_invariant(self);
        }
        self.faders[f.index()]
    }

    /// The slot that governs channel `c`, scanning all slots; the last one
    /// bound to `c` wins.
    pub fn bound_slot(&self, c: Channels) -> (r: Option<usize>)
        ensures
            r matches Some(i) ==> self@.bound_slot(c) == Some(i as nat),
            r is None ==> self@.bound_slot(c) is None,
    {
        let mut found: Option<usize> = None;
        let mut i: usize = 0;
        while i < self.faders.len()
            invariant
                i <= self.faders@.len(),
                found matches Some(k) ==> last_bound(self.faders@.subrange(0, i as int), c) == Some(
                    k as nat,
                ),
                found is None ==> last_bound(self.faders@.subrange(0, i as int), c) is None,
            decreases self.faders@.len() - i,
        {
            let prefix = Ghost(self.faders@.subrange(0, i as int));
            assert(self.faders@.subrange(0, i + 1).drop_last() =~= prefix@);
            if self.faders[i].channel == c {
                found = Some(i);
            }
            i = i + 1;
        }
        assert(self.faders@.subrange(0, self.faders@.len() as int) =~= self.faders@);
        found
    }

    /// Whether channel `c` is silent on the stream.
    pub fn muted(&self, c: Channels) -> (r: bool)
        ensures
            r == self@.muted(c),
    {
        match self.bound_slot(c) {
            Some(i) => {
                proof {
                    lemma_last_bound(self@.faders, c);
                }
                resolve_muted(self.faders[i].function, self.faders[i].state)
            },
            None => false,
        }
    }

    /// This snapshot with the level of channel `c` replaced.
    pub(crate) fn with_volume(self, c: Channels, level: u8) -> (r: Snapshot)
        ensures
            r@ == (SnapshotView { volumes: self@.volumes.update(c.idx() as int, level), ..self@ }),
    {
        proof {
            use_type_invariant(&self);
        }
        let Snapshot { serial, mut volumes, faders } = self;
        volumes.set(c.index(), level);
        Snapshot { serial, volumes, faders }
    }

    /// This snapshot with the binding of fader `f` replaced.
    pub(crate) fn with_fader(self, f: FaderName, b: FaderBinding) -> (r: Snapshot)
        ensures
            r@ == (SnapshotView { faders: self@.faders.update(f.idx() as int, b), ..self@ }),
    {
        proof {
            use_type_invariant(&self);
        }
        let Snapshot { serial, volumes, mut faders } = self;
        faders.set(f.index(), b);
        Snapshot { serial, volumes, faders }
    }
}

} // verus!
