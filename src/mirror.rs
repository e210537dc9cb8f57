use vstd::prelude::*;
use crate::patch::{apply_all, decode_patch, merge, PatchOp};
use crate::snapshot::{ProtocolError, Snapshot, SnapshotView};

verus! {

/// Holds the device's current status: one full snapshot followed by the
/// patches merged into it, in arrival order.
#[derive(Debug)]
pub struct StatusMirror {
    current: Option<Snapshot>,
}

impl View for StatusMirror {
    type V = Option<SnapshotView>;

    closed spec fn view(&self) -> Option<SnapshotView> {
        match self.current {
            Some(s) => Some(s@),
            None => None,
        }
    }
}

impl StatusMirror {
    /// A mirror that has not seen a snapshot yet.
    pub fn new() -> (r: StatusMirror)
        ensures
            r@ is None,
    {
        StatusMirror { current: None }
    }

    /// Replaces the mirrored status with a full snapshot.
    pub fn apply_full(&mut self, snapshot: Snapshot)
        ensures
            final(self)@ == Some(snapshot@),
    {
        self.current = Some(snapshot);
    }

    /// Merges a patch into the mirrored status. On failure the status is left
    /// exactly as it was.
    pub fn apply_patch(&mut self, patch: &Vec<PatchOp>) -> (r: Result<(), ProtocolError>)
        ensures
            old(self)@ is None ==> r == Err::<(), _>(ProtocolError::NoSnapshot),
            old(self)@ matches Some(s) ==> match merge(s, patch@) {
                Some(t) => r is Ok && final(self)@ == Some(t),
                None => r == Err::<(), _>(ProtocolError::TypeMismatch),
            },
            r is Err ==> final(self)@ == old(self)@,
    {
        if self.current.is_none() {
            return Err(ProtocolError::NoSnapshot);
        }
        let writes = match decode_patch(patch) {
            Ok(ws) => ws,
            Err(e) => {
                return Err(e);
            },
        };
        match self.current.take() {
            Some(snapshot) => {
                self.current = Some(apply_all(snapshot, &writes));
                Ok(())
            },
            None => Err(ProtocolError::NoSnapshot),
        }
    }

    /// The mirrored status, once a full snapshot has arrived.
    pub fn current(&self) -> (r: Option<&Snapshot>)
        ensures
            r matches Some(s) ==> self@ == Some(s@),
            r is None <==> self@ is None,
    {
        match &self.current {
            Some(s) => Some(s),
            None => None,
        }
    }
}

} // verus!
