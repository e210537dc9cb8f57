use vstd::prelude::*;
use crate::channels::{Channels, FaderName};
use crate::mute::{MuteFunction, MuteState};
use crate::snapshot::{FaderBinding, ProtocolError, Snapshot, SnapshotView};

verus! {

/// A mirrored field of the status tree.
#[derive(Debug, Copy, Clone, PartialEq, Eq, Structural)]
pub enum Field {
    /// The raw level of a channel.
    Volume(Channels),
    /// The channel a fader drives.
    FaderChannel(FaderName),
    /// The mute function of a fader.
    FaderFunction(FaderName),
    /// The mute state of a fader.
    FaderState(FaderName),
}

/// A leaf value carried by a patch operation.
#[derive(Debug, Clone)]
pub enum PatchValue {
    Number(u64),
    Text(String),
    /// Any other shape (an object, an array, a negative number, null).
    Other,
}

/// One partial-update operation on a mirrored field.
#[derive(Debug, Clone)]
pub enum PatchOp {
    Assign(Field, PatchValue),
    Remove(Field),
}

/// A well-typed assignment to one mirrored field.
#[derive(Debug, Copy, Clone, PartialEq, Eq, Structural)]
pub enum Write {
    Volume(Channels, u8),
    FaderChannel(FaderName, Channels),
    FaderFunction(FaderName, MuteFunction),
    FaderState(FaderName, MuteState),
}

/// The assignment an operation stands for, or `None` where its value does
/// not fit the field; every mirrored field is required, so removal never fits.
pub open spec fn decode(op: PatchOp) -> Option<Write> {
    match op {
        PatchOp::Remove(_) => None,
        PatchOp::Assign(field, value) => match field {
            Field::Volume(c) => match value {
                PatchValue::Number(n) => if n <= 255 {
                    Some(Write::Volume(c, n as u8))
                } else {
                    None
                },
                _ => None,
            },
            Field::FaderChannel(f) => match value {
                PatchValue::Text(t) => match Channels::named(t@) {
                    Some(c) => Some(Write::FaderChannel(f, c)),
                    None => None,
                },
                _ => None,
            },
            Field::FaderFunction(f) => match value {
                PatchValue::Text(t) => match MuteFunction::named(t@) {
                    Some(m) => Some(Write::FaderFunction(f, m)),
                    None => None,
                },
                _ => None,
            },
            Field::FaderState(f) => match value {
                PatchValue::Text(t) => match MuteState::named(t@) {
                    Some(m) => Some(Write::FaderState(f, m)),
                    None => None,
                },
                _ => None,
            },
        },
    }
}

/// The assignments of a whole patch, in order, if every operation fits.
pub open spec fn decode_all(ops: Seq<PatchOp>) -> Option<Seq<Write>>
    decreases ops.len(),
{
    if ops.len() == 0 {
        Some(Seq::empty())
    } else {
        match (decode_all(ops.drop_last()), decode(ops.last())) {
            (Some(ws), Some(w)) => Some(ws.push(w)),
            _ => None,
        }
    }
}

/// Which field an assignment targets.
pub open spec fn target(w: Write) -> Field {
    match w {
        Write::Volume(c, _) => Field::Volume(c),
        Write::FaderChannel(f, _) => Field::FaderChannel(f),
        Write::FaderFunction(f, _) => Field::FaderFunction(f),
        Write::FaderState(f, _) => Field::FaderState(f),
    }
}

/// The fader an assignment to a fader field targets.
pub open spec fn fader_of(w: Write) -> FaderName {
    match w {
        Write::FaderChannel(f, _) => f,
        Write::FaderFunction(f, _) => f,
        Write::FaderState(f, _) => f,
        Write::Volume(_, _) => FaderName::A,
    }
}

/// A binding with the field that a fader assignment targets replaced.
pub open spec fn rebind(b: FaderBinding, w: Write) -> FaderBinding {
    match w {
        Write::FaderChannel(_, c) => FaderBinding { channel: c, ..b },
        Write::FaderFunction(_, m) => FaderBinding { function: m, ..b },
        Write::FaderState(_, m) => FaderBinding { state: m, ..b },
        Write::Volume(_, _) => b,
    }
}

pub open spec fn write_to(s: SnapshotView, w: Write) -> SnapshotView {
    match w {
        Write::Volume(c, v) => SnapshotView { volumes: s.volumes.update(c.idx() as int, v), ..s },
        _ => {
            let i = fader_of(w).idx() as int;
            SnapshotView { faders: s.faders.update(i, rebind(s.faders[i], w)), ..s }
        },
    }
}

pub open spec fn apply_writes(s: SnapshotView, ws: Seq<Write>) -> SnapshotView
    decreases ws.len(),
{
    if ws.len() == 0 {
        s
    } else {
        write_to(apply_writes(s, ws.drop_last()), ws.last())
    }
}

/// The snapshot that results from merging a patch, or `None` where some
/// operation does not fit its field.
pub open spec fn merge(s: SnapshotView, ops: Seq<PatchOp>) -> Option<SnapshotView> {
    match decode_all(ops) {
        Some(ws) => Some(apply_writes(s, ws)),
        None => None,
    }
}

proof fn lemma_write_wf(s: SnapshotView, w: Write)
    requires
        s.wf(),
    ensures
        write_to(s, w).wf(),
        write_to(s, w).serial == s.serial,
{
}

proof fn lemma_apply_writes_wf(s: SnapshotView, ws: Seq<Write>)
    requires
        s.wf(),
    ensures
        apply_writes(s, ws).wf(),
        apply_writes(s, ws).serial == s.serial,
    decreases ws.len(),
{
    if ws.len() > 0 {
        lemma_apply_writes_wf(s, ws.drop_last());
        lemma_write_wf(apply_writes(s, ws.drop_last()), ws.last());
    }
}

/// A later assignment to the same field hides an earlier one.
proof fn lemma_write_override(s: SnapshotView, v: Write, w: Write)
    requires
        s.wf(),
        target(v) == target(w),
    ensures
        write_to(write_to(s, v), w) == write_to(s, w),
{
    let l = write_to(write_to(s, v), w);
    let r = write_to(s, w);
    assert(l.volumes =~= r.volumes);
    assert(l.faders =~= r.faders);
}

/// Assignments to different fields commute.
proof fn lemma_write_commute(s: SnapshotView, v: Write, w: Write)
    requires
        s.wf(),
        target(v) != target(w),
    ensures
        write_to(write_to(s, v), w) == write_to(write_to(s, w), v),
{
    let l = write_to(write_to(s, v), w);
    let r = write_to(write_to(s, w), v);
    if v is Volume && w is Volume {
        assert(l.volumes =~= r.volumes);
    } else if !(v is Volume) && !(w is Volume) {
        if fader_of(v) == fader_of(w) {
            let b = s.faders[fader_of(v).idx() as int];
            assert(rebind(rebind(b, v), w) == rebind(rebind(b, w), v));
        }
        assert(l.faders =~= r.faders);
    }
}

/// Assigning `w` before a run of assignments that ends in `w` again changes
/// nothing.
proof fn lemma_write_absorbed(y: SnapshotView, w: Write, ws: Seq<Write>)
    requires
        y.wf(),
    ensures
        write_to(apply_writes(write_to(y, w), ws), w) == write_to(apply_writes(y, ws), w),
    decreases ws.len(),
{
    lemma_write_wf(y, w);
    if ws.len() == 0 {
        lemma_write_override(y, w, w);
    } else {
        let rest = ws.drop_last();
        let v = ws.last();
        let a = apply_writes(write_to(y, w), rest);
        let b = apply_writes(y, rest);
        lemma_apply_writes_wf(write_to(y, w), rest);
        lemma_apply_writes_wf(y, rest);
        lemma_write_absorbed(y, w, rest);
        if target(v) == target(w) {
            lemma_write_override(a, v, w);
            lemma_write_override(b, v, w);
        } else {
            lemma_write_commute(a, v, w);
            lemma_write_commute(b, v, w);
            lemma_write_wf(a, w);
            lemma_write_wf(b, w);
        }
    }
}

proof fn lemma_apply_writes_twice(x: SnapshotView, ws: Seq<Write>)
    requires
        x.wf(),
    ensures
        apply_writes(apply_writes(x, ws), ws) == apply_writes(x, ws),
    decreases ws.len(),
{
    if ws.len() > 0 {
        let rest = ws.drop_last();
        let w = ws.last();
        let a = apply_writes(x, rest);
        lemma_apply_writes_wf(x, rest);
        lemma_write_absorbed(a, w, rest);
        lemma_apply_writes_twice(x, rest);
    }
}

/// Merging a patch into the result of merging that same patch gives that
/// result again: a retried patch does not accumulate.
pub proof fn lemma_merge_idempotent(s: SnapshotView, ops: Seq<PatchOp>)
    requires
        s.wf(),
        merge(s, ops) is Some,
    ensures
        merge(merge(s, ops).unwrap(), ops) == merge(s, ops),
{
    lemma_apply_writes_twice(s, decode_all(ops).unwrap());
}

proof fn lemma_decode_all_some(ops: Seq<PatchOp>, ws: Seq<Write>)
    requires
        ops.len() == ws.len(),
        forall|j: int| 0 <= j < ops.len() ==> decode(#[trigger] ops[j]) == Some(ws[j]),
    ensures
        decode_all(ops) == Some(ws),
    decreases ops.len(),
{
    if ops.len() > 0 {
        lemma_decode_all_some(ops.drop_last(), ws.drop_last());
        assert(ws.drop_last().push(ws.last()) =~= ws);
    }
}

proof fn lemma_decode_all_none(ops: Seq<PatchOp>, i: int)
    requires
        0 <= i < ops.len(),
        decode(ops[i]) is None,
    ensures
        decode_all(ops) is None,
    decreases ops.len(),
{
    if i < ops.len() - 1 {
        lemma_decode_all_none(ops.drop_last(), i);
    }
}

pub fn decode_op(op: &PatchOp) -> (r: Option<Write>)
    ensures
        r == decode(*op),
{
    match op {
        PatchOp::Remove(_) => None,
        PatchOp::Assign(field, value) => match field {
            Field::Volume(c) => match value {
                PatchValue::Number(n) => if *n <= 255 {
                    Some(Write::Volume(*c, *n as u8))
                } else {
                    None
                },
                _ => None,
            },
            Field::FaderChannel(f) => match value {
                PatchValue::Text(t) => match Channels::from_name(t.as_str()) {
                    Some(c) => Some(Write::FaderChannel(*f, c)),
                    None => None,
                },
                _ => None,
            },
            Field::FaderFunction(f) => match value {
                PatchValue::Text(t) => match MuteFunction::from_name(t.as_str()) {
                    Some(m) => Some(Write::FaderFunction(*f, m)),
                    None => None,
                },
                _ => None,
            },
            Field::FaderState(f) => match value {
                PatchValue::Text(t) => match MuteState::from_name(t.as_str()) {
                    Some(m) => Some(Write::FaderState(*f, m)),
                    None => None,
                },
                _ => None,
            },
        },
    }
}

/// Decodes every operation of a patch, failing on the first that does not fit.
pub fn decode_patch(ops: &Vec<PatchOp>) -> (r: Result<Vec<Write>, ProtocolError>)
    ensures
        r matches Ok(ws) ==> decode_all(ops@) == Some(ws@),
        r matches Err(e) ==> decode_all(ops@) is None && e == ProtocolError::TypeMismatch,
{
    let mut out: Vec<Write> = Vec::new();
    let mut i: usize = 0;
    while i < ops.len()
        invariant
            i <= ops@.len(),
            out@.len() == i,
            forall|j: int| 0 <= j < i ==> decode(#[trigger] ops@[j]) == Some(out@[j]),
        decreases ops@.len() - i,
    {
        match decode_op(&ops[i]) {
            Some(w) => out.push(w),
            None => {
                proof {
                    lemma_decode_all_none(ops@, i as int);
                }
                return Err(ProtocolError::TypeMismatch);
            },
        }
        i = i + 1;
    }
    proof {
        lemma_decode_all_some(ops@, out@);
    }
    Ok(out)
}

pub fn apply_write(s: Snapshot, w: Write) -> (r: Snapshot)
    ensures
        r@ == write_to(s@, w),
{
    match w {
        Write::Volume(c, v) => s.with_volume(c, v),
        Write::FaderChannel(f, c) => {
            let b = s.fader(f);
            s.with_fader(f, FaderBinding { channel: c, ..b })
        },
        Write::FaderFunction(f, m) => {
            let b = s.fader(f);
            s.with_fader(f, FaderBinding { function: m, ..b })
        },
        Write::FaderState(f, m) => {
            let b = s.fader(f);
            s.with_fader(f, FaderBinding { state: m, ..b })
        },
    }
}

/// Applies decoded assignments in order; on a snapshot they cannot fail.
pub fn apply_all(s: Snapshot, ws: &Vec<Write>) -> (r: Snapshot)
    ensures
        r@ == apply_writes(s@, ws@),
{
    let ghost start = s@;
    let mut cur = s;
    let mut i: usize = 0;
    while i < ws.len()
        invariant
            i <= ws@.len(),
            cur@ == apply_writes(start, ws@.subrange(0, i as int)),
        decreases ws@.len() - i,
    {
        proof {
            assert(ws@.subrange(0, i + 1).drop_last() =~= ws@.subrange(0, i as int));
        }
        cur = apply_write(cur, ws[i]);
        i = i + 1;
    }
    assert(ws@.subrange(0, ws@.len() as int) =~= ws@);
    cur
}

} // verus!
