//! The wire format of the channel between the ingestion and the notification
//! processes. A query is two frames, its player identifier then its match
//! identifier; a frame is the length of its payload as eight little-endian
//! bytes, then the payload, the UTF-8 bytes of the text. This is the layout
//! that bincode 1.x's default options give a struct of two strings, so
//! either side may be a bincode peer, except that trailing bytes are
//! refused here.
use crate::model::{QueryView, SummonerMatchQuery};
use vstd::prelude::*;
use vstd::utf8::{
    decode_utf8,
    decode_utf8_encode_utf8,
    encode_utf8,
    encode_utf8_decode_utf8,
    encode_utf8_valid_utf8,
    valid_utf8,
};

verus! {

/// Well-known local endpoint that both processes use.
pub const IPC_SUMMONER_MATCH_PATH: &'static str = "ipc:///tmp/int.ipc";

/// Why a received payload could not be turned back into a query.
#[derive(Debug, Clone, Copy, PartialEq, Eq, Structural)]
pub enum IpcError {
    Malformed,
}

/// `256` to the power `k`.
pub open spec fn pow256(k: nat) -> nat
    decreases k,
{
    if k == 0 {
        1
    } else {
        256 * pow256((k - 1) as nat)
    }
}

/// The `k` least significant bytes of `n`, least significant first.
pub open spec fn le_bytes(n: nat, k: nat) -> Seq<u8>
    decreases k,
{
    if k == 0 {
        Seq::empty()
    } else {
        seq![(n % 256) as u8] + le_bytes(n / 256, (k - 1) as nat)
    }
}

/// The number that little-endian bytes stand for.
pub open spec fn le_value(b: Seq<u8>) -> nat
    decreases b.len(),
{
    if b.len() == 0 {
        0
    } else {
        b[0] as nat + 256 * le_value(b.drop_first())
    }
}

/// A payload preceded by its length.
pub open spec fn frame(payload: Seq<u8>) -> Seq<u8> {
    le_bytes(payload.len(), 8) + payload
}

/// The bytes that stand for a query on the wire.
pub open spec fn query_wire(q: QueryView) -> Seq<u8> {
    frame(encode_utf8(q.puuid)) + frame(encode_utf8(q.match_id))
}

/// Whether some query has exactly these bytes on the wire.
pub open spec fn is_query_wire(b: Seq<u8>) -> bool {
    exists|q: QueryView| query_wire(q) == b
}

proof fn lemma_le_bytes_len(n: nat, k: nat)
    ensures
        le_bytes(n, k).len() == k,
    decreases k,
{
    if k > 0 {
        lemma_le_bytes_len(n / 256, (k - 1) as nat);
    }
}

proof fn lemma_le_round_trip(n: nat, k: nat)
    requires
        n < pow256(k),
    ensures
        le_value(le_bytes(n, k)) == n,
    decreases k,
{
    if k > 0 {
        let p = pow256((k - 1) as nat);
        assert(n / 256 < p) by (nonlinear_arith)
            requires
                n < 256 * p,
        ;
        lemma_le_round_trip(n / 256, (k - 1) as nat);
        assert(le_bytes(n, k).drop_first() =~= le_bytes(n / 256, (k - 1) as nat));
        assert(n == (n % 256) + 256 * (n / 256)) by (nonlinear_arith);
    }
}

proof fn lemma_le_value_bound(b: Seq<u8>)
    ensures
        le_value(b) < pow256(b.len()),
    decreases b.len(),
{
    if b.len() > 0 {
        lemma_le_value_bound(b.drop_first());
        let v = le_value(b.drop_first());
        let p = pow256(b.drop_first().len());
        let x = b[0] as nat;
        assert(x + 256 * v < 256 * p) by (nonlinear_arith)
            requires
                v < p,
                x < 256,
        ;
    }
}

proof fn lemma_pow256_8()
    ensures
        pow256(8) == 0x1_0000_0000_0000_0000,
{
    reveal_with_fuel(pow256, 9);
}

/// Appends the eight little-endian bytes of `n`.
fn push_le_u64(out: &mut Vec<u8>, n: u64)
    ensures
        final(out)@ == old(out)@ + le_bytes(n as nat, 8),
{
    let mut v: u64 = n;
    let mut j: usize = 0;
    while j < 8
        invariant
            0 <= j <= 8,
            out@ + le_bytes(v as nat, (8 - j) as nat) == old(out)@ + le_bytes(n as nat, 8),
        decreases 8 - j,
    {
        let ghost before = out@;
        out.push((v % 256) as u8);
        assert(le_bytes(v as nat, (8 - j) as nat) =~= seq![(v % 256) as u8] + le_bytes(
            (v / 256) as nat,
            (8 - j - 1) as nat,
        ));
        assert(out@ + le_bytes((v / 256) as nat, (8 - j - 1) as nat) =~= before + le_bytes(
            v as nat,
            (8 - j) as nat,
        ));
        v = v / 256;
        j = j + 1;
    }
    assert(le_bytes(v as nat, 0) =~= Seq::<u8>::empty());
    assert(out@ =~= out@ + le_bytes(v as nat, 0));
}

/// Appends `bytes`.
fn push_bytes(out: &mut Vec<u8>, bytes: &Vec<u8>)
    ensures
        final(out)@ == old(out)@ + bytes@,
{
    let mut i: usize = 0;
    while i < bytes.len()
        invariant
            0 <= i <= bytes@.len(),
            out@ == old(out)@ + bytes@.take(i as int),
        decreases bytes@.len() - i,
    {
        out.push(bytes[i]);
        assert(bytes@.take(i + 1) =~= bytes@.take(i as int).push(bytes@[i as int]));
        assert(out@ =~= old(out)@ + bytes@.take(i + 1));
        i = i + 1;
    }
    assert(bytes@.take(bytes@.len() as int) =~= bytes@);
}

/// Appends the frame of a text.
fn push_frame(out: &mut Vec<u8>, text: &String)
    ensures
        final(out)@ == old(out)@ + frame(encode_utf8(text@)),
{
    let bytes = text.as_str().as_bytes_vec();
    push_le_u64(out, bytes.len() as u64);
    push_bytes(out, &bytes);
    assert(final(out)@ =~= old(out)@ + frame(encode_utf8(text@)));
}

/// Turns a query into the bytes that are sent across the channel.
pub fn encode_query(q: &SummonerMatchQuery) -> (r: Vec<u8>)
    ensures
        r@ == query_wire(q@),
{
    let mut out: Vec<u8> = Vec::new();
    push_frame(&mut out, &q.puuid);
    push_frame(&mut out, &q.match_id);
    assert(out@ =~= query_wire(q@));
    out
}

/// Relies on `String::from_utf8`: it fails exactly on bytes that are not
/// valid UTF-8, and otherwise holds the text that they encode.
#[verifier::external_body]
fn string_from_utf8(bytes: Vec<u8>) -> (r: Option<String>)
    ensures
        r is Some <==> valid_utf8(bytes@),
        r matches Some(s) ==> s@ == decode_utf8(bytes@),
{
    String::from_utf8(bytes).ok()
}

/// The bytes `b[start..end]`.
fn copy_range(b: &Vec<u8>, start: usize, end: usize) -> (r: Vec<u8>)
    requires
        start <= end <= b@.len(),
    ensures
        r@ == b@.subrange(start as int, end as int),
{
    let mut out: Vec<u8> = Vec::new();
    let mut i: usize = start;
    while i < end
        invariant
            start <= i <= end,
            end <= b@.len(),
            out@ == b@.subrange(start as int, i as int),
        decreases end - i,
    {
        out.push(b[i]);
        assert(out@ =~= b@.subrange(start as int, i + 1));
        i = i + 1;
    }
    out
}

/// Reads the eight little-endian bytes at `pos`.
fn read_le_u64(b: &Vec<u8>, pos: usize) -> (r: u64)
    requires
        pos + 8 <= b@.len(),
    ensures
        r as nat == le_value(b@.subrange(pos as int, pos + 8)),
{
    let total = b.len();
    let mut v: u64 = 0;
    let mut k: usize = 8;
    assert(b@.subrange(pos + 8, pos + 8) =~= Seq::<u8>::empty());
    while k > 0
        invariant
            0 <= k <= 8,
            total == b@.len(),
            pos + 8 <= b@.len(),
            v as nat == le_value(b@.subrange(pos + k, pos + 8)),
            (v as nat) < pow256((8 - k) as nat),
        decreases k,
    {
        let byte = b[pos + k - 1];
        let ghost s = b@.subrange(pos + k - 1, pos + 8);
        assert(s.drop_first() =~= b@.subrange(pos + k, pos + 8));
        assert(s[0] == byte);
        let ghost p = pow256((8 - k) as nat);
        proof {
            lemma_pow256_8();
            assert(p * 256 <= pow256(8)) by {
                lemma_pow256_mono((8 - k) as nat);
            }
            assert(v * 256 + byte < p * 256) by (nonlinear_arith)
                requires
                    v < p,
                    byte < 256,
            ;
        }
        v = v * 256 + byte as u64;
        k = k - 1;
    }
    v
}

proof fn lemma_pow256_mono(k: nat)
    requires
        k < 8,
    ensures
        pow256(k) * 256 <= pow256(8),
    decreases 8 - k,
{
    if k < 7 {
        lemma_pow256_mono(k + 1);
        assert(pow256(k) * 256 == pow256(k + 1));
        assert(pow256(k + 1) <= pow256(k + 1) * 256) by (nonlinear_arith);
    }
}

/// The payload of the frame that starts at `pos`, where one fits in `b`.
pub open spec fn frame_at(b: Seq<u8>, pos: int) -> Option<Seq<u8>> {
    if pos + 8 <= b.len() && pos + 8 + le_value(b.subrange(pos, pos + 8)) <= b.len() {
        Some(b.subrange(pos + 8, pos + 8 + le_value(b.subrange(pos, pos + 8))))
    } else {
        None
    }
}

/// Reads the frame at `pos`: its payload and the position after it.
fn read_frame(b: &Vec<u8>, pos: usize) -> (r: Option<(Vec<u8>, usize)>)
    requires
        pos <= b@.len(),
    ensures
        match frame_at(b@, pos as int) {
            Some(p) => r matches Some(x) && x.0@ == p && x.1 == pos + 8 + p.len(),
            None => r is None,
        },
{
    if b.len() - pos < 8 {
        return None;
    }
    let n = read_le_u64(b, pos);
    let room = b.len() - pos - 8;
    if n > room as u64 {
        return None;
    }
    let len = n as usize;
    let payload = copy_range(b, pos + 8, pos + 8 + len);
    Some((payload, pos + 8 + len))
}

/// Turns received bytes back into a query. It succeeds exactly on the bytes
/// of some query, and then gives a query with those bytes.
pub fn decode_query(b: &Vec<u8>) -> (r: Result<SummonerMatchQuery, IpcError>)
    ensures
        r is Ok <==> is_query_wire(b@),
        r matches Ok(q) ==> query_wire(q@) == b@,
{
    let total = b.len();
    proof {
        assert(total <= usize::MAX);
        lemma_wire_parses(b@);
    }
    let (first, pos) = match read_frame(b, 0) {
        Some(x) => x,
        None => return Err(IpcError::Malformed),
    };
    let (second, end) = match read_frame(b, pos) {
        Some(x) => x,
        None => return Err(IpcError::Malformed),
    };
    if end != b.len() {
        return Err(IpcError::Malformed);
    }
    let ghost fb = first@;
    let ghost sb = second@;
    let puuid = match string_from_utf8(first) {
        Some(s) => s,
        None => return Err(IpcError::Malformed),
    };
    let match_id = match string_from_utf8(second) {
        Some(s) => s,
        None => return Err(IpcError::Malformed),
    };
    let q = SummonerMatchQuery { puuid, match_id };
    proof {
        decode_utf8_encode_utf8(fb);
        decode_utf8_encode_utf8(sb);
        lemma_frame_split(b@, fb, sb);
        assert(query_wire(q@) == b@);
    }
    Ok(q)
}

proof fn lemma_frame_split(b: Seq<u8>, x: Seq<u8>, y: Seq<u8>)
    requires
        frame_at(b, 0) == Some(x),
        frame_at(b, 8 + (x.len() as int)) == Some(y),
        8 + (x.len() as int) + 8 + y.len() == b.len(),
    ensures
        b == frame(x) + frame(y),
{
    let n = le_value(b.subrange(0, 8));
    let m = le_value(b.subrange(8 + (x.len() as int), 16 + (x.len() as int)));
    lemma_le_value_bound(b.subrange(0, 8));
    lemma_le_value_bound(b.subrange(8 + (x.len() as int), 16 + (x.len() as int)));
    lemma_pow256_8();
    lemma_le_bytes_len(x.len(), 8);
    lemma_le_bytes_len(y.len(), 8);
    lemma_le_bytes_of_value(b.subrange(0, 8));
    lemma_le_bytes_of_value(b.subrange(8 + (x.len() as int), 16 + (x.len() as int)));
    assert(b =~= frame(x) + frame(y));
}

proof fn lemma_le_bytes_of_value(b: Seq<u8>)
    ensures
        le_bytes(le_value(b), b.len()) == b,
    decreases b.len(),
{
    if b.len() > 0 {
        let v = le_value(b.drop_first());
        let x = b[0] as nat;
        lemma_le_bytes_of_value(b.drop_first());
        assert((x + 256 * v) % 256 == x && (x + 256 * v) / 256 == v) by (nonlinear_arith)
            requires
                x < 256,
        ;
        assert(le_bytes(le_value(b), b.len()) =~= b);
    }
}

/// The bytes of a query parse back: a frame holding each identifier, and
/// nothing after them.
proof fn lemma_wire_parses(b: Seq<u8>)
    requires
        b.len() < 0x1_0000_0000_0000_0000,
    ensures
        forall|q: QueryView|
            #![trigger query_wire(q)]
            query_wire(q) == b ==> {
                &&& frame_at(b, 0) == Some(encode_utf8(q.puuid))
                &&& frame_at(b, 8 + (encode_utf8(q.puuid).len() as int)) == Some(encode_utf8(q.match_id))
                &&& 16 + encode_utf8(q.puuid).len() + encode_utf8(q.match_id).len() == b.len()
                &&& valid_utf8(encode_utf8(q.puuid))
                &&& valid_utf8(encode_utf8(q.match_id))
                &&& decode_utf8(encode_utf8(q.puuid)) == q.puuid
                &&& decode_utf8(encode_utf8(q.match_id)) == q.match_id
            },
{
    assert forall|q: QueryView| #![trigger query_wire(q)] query_wire(q) == b implies {
        &&& frame_at(b, 0) == Some(encode_utf8(q.puuid))
        &&& frame_at(b, 8 + (encode_utf8(q.puuid).len() as int)) == Some(encode_utf8(q.match_id))
        &&& 16 + encode_utf8(q.puuid).len() + encode_utf8(q.match_id).len() == b.len()
        &&& valid_utf8(encode_utf8(q.puuid))
        &&& valid_utf8(encode_utf8(q.match_id))
        &&& decode_utf8(encode_utf8(q.puuid)) == q.puuid
        &&& decode_utf8(encode_utf8(q.match_id)) == q.match_id
    } by {
        let x = encode_utf8(q.puuid);
        let y = encode_utf8(q.match_id);
        lemma_le_bytes_len(x.len(), 8);
        lemma_le_bytes_len(y.len(), 8);
        lemma_pow256_8();
        lemma_le_round_trip(x.len(), 8);
        lemma_le_round_trip(y.len(), 8);
        assert(b.subrange(0, 8) =~= le_bytes(x.len(), 8));
        assert(b.subrange(8 + (x.len() as int), 16 + (x.len() as int)) =~= le_bytes(y.len(), 8));
        assert(b.subrange(8, 8 + (x.len() as int)) =~= x);
        assert(b.subrange(16 + (x.len() as int), 16 + (x.len() as int) + (y.len() as int)) =~= y);
        encode_utf8_valid_utf8(q.puuid);
        encode_utf8_valid_utf8(q.match_id);
        encode_utf8_decode_utf8(q.puuid);
        encode_utf8_decode_utf8(q.match_id);
    }
}

/// Two queries with the same bytes on the wire are the same query. With the
/// contracts of `encode_query` and `decode_query`, whatever is received from
/// an encoded query is equal to it in player and match identifier.
pub proof fn lemma_query_wire_injective(a: QueryView, b: QueryView)
    requires
        query_wire(a) == query_wire(b),
        query_wire(a).len() < 0x1_0000_0000_0000_0000,
    ensures
        a == b,
{
    lemma_wire_parses(query_wire(a));
    assert(query_wire(b) == query_wire(a));
}

} // verus!
