use vstd::prelude::*;
use crate::channels::{text_eq, Channels, FaderName};
use crate::patch::{Field, PatchOp, PatchValue};
use crate::snapshot::ProtocolError;

verus! {

/// The kind of a patch operation, as the patch document names it.
#[derive(Debug, Copy, Clone, PartialEq, Eq, Structural)]
pub enum OpKind {
    Add,
    Replace,
    Remove,
    Move,
    Copy,
    Test,
}

/// A patch operation as it arrives: its kind, its target path (a JSON
/// pointer), and its value.
#[derive(Debug)]
pub struct RawOp {
    pub kind: OpKind,
    pub path: String,
    pub value: PatchValue,
}

/// The pieces of `s` between slashes, in order; there is always one more
/// piece than there are slashes.
pub open spec fn split_slash(s: Seq<char>) -> Seq<Seq<char>>
    decreases s.len(),
{
    if s.len() == 0 {
        seq![Seq::empty()]
    } else {
        let prev = split_slash(s.drop_last());
        if s.last() == '/' {
            prev.push(Seq::empty())
        } else {
            prev.update(prev.len() - 1, prev.last().push(s.last()))
        }
    }
}

proof fn lemma_split_slash_len(s: Seq<char>)
    ensures
        split_slash(s).len() >= 1,
    decreases s.len(),
{
    if s.len() > 0 {
        lemma_split_slash_len(s.drop_last());
    }
}

/// A pointer token with its escapes read: `~1` stands for a slash and `~0`
/// for a tilde.
pub open spec fn unescape(t: Seq<char>) -> Seq<char>
    decreases t.len(),
{
    if t.len() == 0 {
        Seq::empty()
    } else if t.len() >= 2 && t[0] == '~' && t[1] == '1' {
        seq!['/'] + unescape(t.subrange(2, t.len() as int))
    } else if t.len() >= 2 && t[0] == '~' && t[1] == '0' {
        seq!['~'] + unescape(t.subrange(2, t.len() as int))
    } else {
        seq![t[0]] + unescape(t.subrange(1, t.len() as int))
    }
}

/// The reference tokens of a JSON pointer; the empty pointer has none, and
/// any other must start with a slash.
pub open spec fn pointer_tokens(p: Seq<char>) -> Option<Seq<Seq<char>>> {
    if p.len() == 0 {
        Some(Seq::empty())
    } else if p[0] != '/' {
        None
    } else {
        Some(split_slash(p.subrange(1, p.len() as int)).map_values(|t: Seq<char>| unescape(t)))
    }
}

/// The part of a fader's status a token names, if it is mirrored.
pub open spec fn fader_part(f: FaderName, t: Seq<char>) -> Option<Field> {
    if t == "channel"@ {
        Some(Field::FaderChannel(f))
    } else if t == "mute_type"@ {
        Some(Field::FaderFunction(f))
    } else if t == "mute_state"@ {
        Some(Field::FaderState(f))
    } else {
        None
    }
}

/// The mirrored field that path `t` addresses in the status tree of the
/// device `serial`: `Ok(None)` for a path outside the mirrored fields, an
/// error for a path that names a channel or fader the device lacks, that
/// goes below a mirrored leaf, or that replaces a whole subtree holding
/// mirrored fields.
pub open spec fn field_of_path(t: Seq<Seq<char>>, serial: Seq<char>) -> Result<
    Option<Field>,
    ProtocolError,
> {
    if t.len() == 0 || t[0] != "mixers"@ {
        Ok(None)
    } else if t.len() == 1 {
        Err(ProtocolError::MalformedPath)
    } else if t[1] != serial {
        Ok(None)
    } else if t.len() == 2 {
        Err(ProtocolError::MalformedPath)
    } else if t[2] == "levels"@ {
        if t.len() == 3 {
            Err(ProtocolError::MalformedPath)
        } else if t[3] != "volumes"@ {
            Ok(None)
        } else if t.len() != 5 {
            Err(ProtocolError::MalformedPath)
        } else {
            match Channels::named(t[4]) {
                Some(c) => Ok(Some(Field::Volume(c))),
                None => Err(ProtocolError::MalformedPath),
            }
        }
    } else if t[2] == "fader_status"@ {
        if t.len() <= 4 {
            Err(ProtocolError::MalformedPath)
        } else {
            match FaderName::named(t[3]) {
                None => Err(ProtocolError::MalformedPath),
                Some(f) => match fader_part(f, t[4]) {
                    None => Ok(None),
                    Some(field) => if t.len() == 5 {
                        Ok(Some(field))
                    } else {
                        Err(ProtocolError::MalformedPath)
                    },
                },
            }
        }
    } else {
        Ok(None)
    }
}

/// The operation on a mirrored field that a raw operation stands for, if any.
pub open spec fn op_of(kind: OpKind, p: Seq<char>, value: PatchValue, serial: Seq<char>) -> Result<
    Option<PatchOp>,
    ProtocolError,
> {
    match pointer_tokens(p) {
        None => Err(ProtocolError::MalformedPath),
        Some(t) => op_on_field(kind, t, value, serial),
    }
}

pub open spec fn op_on_field(kind: OpKind, t: Seq<Seq<char>>, value: PatchValue, serial: Seq<char>) -> Result<
    Option<PatchOp>,
    ProtocolError,
> {
    match field_of_path(t, serial) {
        Err(e) => Err(e),
        Ok(None) => Ok(None),
        Ok(Some(f)) => match kind {
            OpKind::Add | OpKind::Replace => Ok(Some(PatchOp::Assign(f, value))),
            OpKind::Remove => Ok(Some(PatchOp::Remove(f))),
            OpKind::Test => Ok(None),
            OpKind::Move | OpKind::Copy => Err(ProtocolError::Unsupported),
        },
    }
}

/// The tokens of a path, as character sequences.
pub open spec fn tokens(path: Seq<String>) -> Seq<Seq<char>> {
    path.map_values(|s: String| s@)
}

fn fader_part_named(f: FaderName, t: &str) -> (r: Option<Field>)
    ensures
        r == fader_part(f, t@),
{
    if text_eq(t, "channel") {
        Some(Field::FaderChannel(f))
    } else if text_eq(t, "mute_type") {
        Some(Field::FaderFunction(f))
    } else if text_eq(t, "mute_state") {
        Some(Field::FaderState(f))
    } else {
        None
    }
}

/// Reads the escapes of one pointer token.
pub fn unescape_token(t: &str) -> (r: String)
    ensures
        r@ == unescape(t@),
{
    let n = t.unicode_len();
    let mut out = String::new();
    let mut i: usize = 0;
    proof {
        reveal_strlit("/");
        reveal_strlit("~");
        assert(t@.subrange(0, n as int) =~= t@);
    }
    while i < n
        invariant
            n == t@.len(),
            i <= n,
            out@ + unescape(t@.subrange(i as int, n as int)) == unescape(t@),
        decreases n - i,
    {
        let ghost rest = t@.subrange(i as int, n as int);
        let c = t.get_char(i);
        if c == '~' && i + 1 < n && t.get_char(i + 1) == '1' {
            proof {
                reveal_strlit("/");
                assert(rest.subrange(2, rest.len() as int) =~= t@.subrange(i + 2, n as int));
                assert(out@ + seq!['/'] + unescape(t@.subrange(i + 2, n as int)) =~= out@ + unescape(rest));
            }
            out.append("/");
            i = i + 2;
        } else if c == '~' && i + 1 < n && t.get_char(i + 1) == '0' {
            proof {
                reveal_strlit("~");
                assert(rest.subrange(2, rest.len() as int) =~= t@.subrange(i + 2, n as int));
                assert(out@ + seq!['~'] + unescape(t@.subrange(i + 2, n as int)) =~= out@ + unescape(rest));
            }
            out.append("~");
            i = i + 2;
        } else {
            let one = t.substring_char(i, i + 1);
            proof {
                assert(one@ =~= seq![c]);
                assert(rest.subrange(1, rest.len() as int) =~= t@.subrange(i + 1, n as int));
                assert(out@ + one@ + unescape(t@.subrange(i + 1, n as int)) =~= out@ + unescape(rest));
            }
            out.append(one);
            i = i + 1;
        }
    }
    proof {
        assert(t@.subrange(n as int, n as int) =~= Seq::<char>::empty());
        assert(out@ + Seq::<char>::empty() =~= out@);
    }
    out
}

/// Splits a JSON pointer into its reference tokens, escapes read; `None`
/// for a non-empty pointer that does not start with a slash.
pub fn split_pointer(p: &str) -> (r: Option<Vec<String>>)
    ensures
        r matches Some(ts) ==> pointer_tokens(p@) == Some(tokens(ts@)),
        r is None ==> pointer_tokens(p@) is None,
{
    let n = p.unicode_len();
    if n == 0 {
        let empty: Vec<String> = Vec::new();
        assert(tokens(empty@) =~= Seq::<Seq<char>>::empty());
        return Some(empty);
    }
    if p.get_char(0) != '/' {
        return None;
    }
    let ghost body = p@.subrange(1, n as int);
    let mut pieces: Vec<String> = Vec::new();
    let mut current = String::new();
    let mut i: usize = 1;
    proof {
        assert(body.subrange(0, 0) =~= Seq::<char>::empty());
    }
    while i < n
        invariant
            n == p@.len(),
            1 <= i <= n,
            body == p@.subrange(1, n as int),
            tokens(pieces@).push(current@) == split_slash(body.subrange(0, i - 1)),
        decreases n - i,
    {
        let ghost before = body.subrange(0, i - 1);
        let ghost now = body.subrange(0, i as int);
        assert(now.drop_last() =~= before);
        assert(now.last() == p@[i as int]);
        let c = p.get_char(i);
        proof {
            lemma_split_slash_len(before);
        }
        if c == '/' {
            let ghost old_pieces = pieces@;
            let ghost finished = current@;
            pieces.push(current);
            current = String::new();
            assert(tokens(pieces@) =~= tokens(old_pieces).push(finished));
            assert(tokens(pieces@).push(current@) =~= split_slash(now));
        } else {
            let one = p.substring_char(i, i + 1);
            assert(one@ =~= seq![c]);
            let ghost oc = current@;
            let ghost prev = split_slash(before);
            assert(prev == tokens(pieces@).push(oc));
            assert(prev.last() == oc);
            assert(split_slash(now) == prev.update(prev.len() - 1, oc.push(c)));
            current.append(one);
            assert(current@ =~= oc.push(c));
            assert(tokens(pieces@).push(current@) =~= split_slash(now));
        }
        i = i + 1;
    }
    pieces.push(current);
    assert(body.subrange(0, n - 1) =~= body);
    assert(tokens(pieces@) == split_slash(body));
    let ghost raw = tokens(pieces@);
    let mut out: Vec<String> = Vec::new();
    let mut k: usize = 0;
    while k < pieces.len()
        invariant
            k <= pieces@.len(),
            raw == tokens(pieces@),
            out@.len() == k,
            forall|j: int| 0 <= j < k ==> (#[trigger] out@[j])@ == unescape(raw[j]),
        decreases pieces@.len() - k,
    {
        let t = unescape_token(pieces[k].as_str());
        out.push(t);
        k = k + 1;
    }
    assert(tokens(out@) =~= raw.map_values(|t: Seq<char>| unescape(t)));
    Some(out)
}

/// Reads which mirrored field a path addresses.
pub fn field_at(path: &Vec<String>, serial: &String) -> (r: Result<Option<Field>, ProtocolError>)
    ensures
        r == field_of_path(tokens(path@), serial@),
{
    let ghost t = tokens(path@);
    let n = path.len();
    assert(t.len() == n);
    if n == 0 {
        return Ok(None);
    }
    assert(t[0] == path@[0]@);
    if !text_eq(path[0].as_str(), "mixers") {
        return Ok(None);
    }
    if n == 1 {
        return Err(ProtocolError::MalformedPath);
    }
    assert(t[1] == path@[1]@);
    if !text_eq(path[1].as_str(), serial.as_str()) {
        return Ok(None);
    }
    if n == 2 {
        return Err(ProtocolError::MalformedPath);
    }
    assert(t[2] == path@[2]@);
    if text_eq(path[2].as_str(), "levels") {
        if n == 3 {
            return Err(ProtocolError::MalformedPath);
        }
        assert(t[3] == path@[3]@);
        if !text_eq(path[3].as_str(), "volumes") {
            return Ok(None);
        }
        if n != 5 {
            return Err(ProtocolError::MalformedPath);
        }
        assert(t[4] == path@[4]@);
        match Channels::from_name(path[4].as_str()) {
            Some(c) => Ok(Some(Field::Volume(c))),
            None => Err(ProtocolError::MalformedPath),
        }
    } else if text_eq(path[2].as_str(), "fader_status") {
        if n <= 4 {
            return Err(ProtocolError::MalformedPath);
        }
        assert(t[3] == path@[3]@);
        assert(t[4] == path@[4]@);
        match FaderName::from_name(path[3].as_str()) {
            None => Err(ProtocolError::MalformedPath),
            Some(f) => match fader_part_named(f, path[4].as_str()) {
                None => Ok(None),
                Some(field) => if n == 5 {
                    Ok(Some(field))
                } else {
                    Err(ProtocolError::MalformedPath)
                },
            },
        }
    } else {
        Ok(None)
    }
}

/// Reads the operation on a mirrored field that a raw operation stands for;
/// `Ok(None)` where it leaves the mirrored fields alone.
pub fn parse_op(raw: RawOp, serial: &String) -> (r: Result<Option<PatchOp>, ProtocolError>)
    ensures
        r == op_of(raw.kind, raw.path@, raw.value, serial@),
{
    let RawOp { kind, path, value } = raw;
    let path = match split_pointer(path.as_str()) {
        None => {
            return Err(ProtocolError::MalformedPath);
        },
        Some(t) => t,
    };
    match field_at(&path, serial) {
        Err(e) => Err(e),
        Ok(None) => Ok(None),
        Ok(Some(f)) => match kind {
            OpKind::Add | OpKind::Replace => Ok(Some(PatchOp::Assign(f, value))),
            OpKind::Remove => Ok(Some(PatchOp::Remove(f))),
            OpKind::Test => Ok(None),
            OpKind::Move | OpKind::Copy => Err(ProtocolError::Unsupported),
        },
    }
}

/// The operations on mirrored fields that a patch stands for, in order; the
/// error of its first operation that cannot be read.
pub open spec fn ops_of(raws: Seq<RawOp>, serial: Seq<char>) -> Result<Seq<PatchOp>, ProtocolError>
    decreases raws.len(),
{
    if raws.len() == 0 {
        Ok(Seq::empty())
    } else {
        match ops_of(raws.drop_last(), serial) {
            Err(e) => Err(e),
            Ok(ops) => {
                let raw = raws.last();
                match op_of(raw.kind, raw.path@, raw.value, serial) {
                    Err(e) => Err(e),
                    Ok(None) => Ok(ops),
                    Ok(Some(op)) => Ok(ops.push(op)),
                }
            },
        }
    }
}

proof fn lemma_ops_of_err(raws: Seq<RawOp>, serial: Seq<char>, n: int)
    requires
        0 <= n <= raws.len(),
        ops_of(raws.subrange(0, n), serial) is Err,
    ensures
        ops_of(raws, serial) == ops_of(raws.subrange(0, n), serial),
    decreases raws.len() - n,
{
    if n < raws.len() {
        let next = raws.subrange(0, n + 1);
        assert(next.drop_last() =~= raws.subrange(0, n));
        lemma_ops_of_err(raws, serial, n + 1);
    } else {
        assert(raws.subrange(0, n) =~= raws);
    }
}

/// Reads every operation of a patch, failing on the first that cannot be read.
pub fn parse_patch(raws: Vec<RawOp>, serial: &String) -> (r: Result<Vec<PatchOp>, ProtocolError>)
    ensures
        r matches Ok(ops) ==> ops_of(raws@, serial@) == Ok::<_, ProtocolError>(ops@),
        r matches Err(e) ==> ops_of(raws@, serial@) == Err::<Seq<PatchOp>, _>(e),
{
    let ghost all = raws@;
    let mut rest = raws;
    let mut out: Vec<PatchOp> = Vec::new();
    let n = rest.len();
    let mut i: usize = 0;
    while rest.len() > 0
        invariant
            n == all.len(),
            all == raws@,
            i <= all.len(),
            rest@ == all.subrange(i as int, all.len() as int),
            ops_of(all.subrange(0, i as int), serial@) == Ok::<_, ProtocolError>(out@),
        decreases rest@.len(),
    {
        let raw = rest.remove(0);
        proof {
            assert(raw == all[i as int]);
            assert(all.subrange(0, i + 1).drop_last() =~= all.subrange(0, i as int));
            assert(all.subrange(0, i + 1).last() == all[i as int]);
        }
        match parse_op(raw, serial) {
            Err(e) => {
                proof {
                    assert(ops_of(all.subrange(0, i + 1), serial@) == Err::<Seq<PatchOp>, _>(e));
                    lemma_ops_of_err(all, serial@, i + 1);
                }
                return Err(e);
            },
            Ok(None) => {},
            Ok(Some(op)) => out.push(op),
        }
        i = i + 1;
        assert(rest@ =~= all.subrange(i as int, all.len() as int));
    }
    assert(all.subrange(0, i as int) =~= all);
    Ok(out)
}

} // verus!
