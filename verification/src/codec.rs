//! Wire codec: a request frame is `method-name bytes ‖ "[%]" ‖ payload bytes`,
//! a response frame is `4-byte big-endian length ‖ payload bytes`.

use vstd::prelude::*;

verus! {

/// The three delimiter bytes `[%]` that separate method name and payload.
pub open spec fn delim() -> Seq<u8> {
    seq![0x5Bu8, 0x25u8, 0x5Du8]
}

/// The delimiter occurs in `s` starting at index `i`.
pub open spec fn delim_at(s: Seq<u8>, i: int) -> bool {
    &&& 0 <= i
    &&& i + 3 <= s.len()
    &&& s[i] == 0x5Bu8
    &&& s[i + 1] == 0x25u8
    &&& s[i + 2] == 0x5Du8
}

/// The delimiter occurs somewhere in `s`.
pub open spec fn has_delim(s: Seq<u8>) -> bool {
    exists|i: int| delim_at(s, i)
}

/// Index of the first delimiter occurrence at or after `i`;
/// `s.len()` serves as the sentinel when there is none.
pub open spec fn first_delim_from(s: Seq<u8>, i: int) -> int
    decreases s.len() - i,
{
    if i < 0 || i + 3 > s.len() {
        s.len() as int
    } else if delim_at(s, i) {
        i
    } else {
        first_delim_from(s, i + 1)
    }
}

/// Index of the first delimiter occurrence in `s` (`s.len()` when none).
pub open spec fn first_delim(s: Seq<u8>) -> int {
    first_delim_from(s, 0)
}

/// `first_delim_from` finds the least delimiter position at or after `i`,
/// and finds one exactly when one exists.
pub proof fn lemma_first_delim_from(s: Seq<u8>, i: int)
    requires
        0 <= i <= s.len(),
    ensures
        i <= first_delim_from(s, i),
        first_delim_from(s, i) <= s.len(),
        first_delim_from(s, i) + 3 <= s.len() || first_delim_from(s, i) == s.len(),
        first_delim_from(s, i) + 3 <= s.len() ==> delim_at(s, first_delim_from(s, i)),
        forall|j: int| i <= j < first_delim_from(s, i) ==> !delim_at(s, j),
        (exists|j: int| i <= j && delim_at(s, j)) <==> first_delim_from(s, i) + 3 <= s.len(),
    decreases s.len() - i,
{
    if i + 3 > s.len() {
        assert(forall|j: int| i <= j ==> !delim_at(s, j));
    } else if delim_at(s, i) {
    } else {
        lemma_first_delim_from(s, i + 1);
    }
}

/// The first delimiter position in `s` is a real occurrence exactly when
/// `s` holds one at all, and nothing before it is one.
pub proof fn lemma_first_delim(s: Seq<u8>)
    ensures
        0 <= first_delim(s) <= s.len(),
        has_delim(s) ==> first_delim(s) + 3 <= s.len() && delim_at(s, first_delim(s)),
        !has_delim(s) ==> first_delim(s) == s.len(),
        forall|j: int| 0 <= j < first_delim(s) ==> !delim_at(s, j),
{
    lemma_first_delim_from(s, 0);
    if has_delim(s) {
        let w = choose|j: int| delim_at(s, j);
        assert(0 <= w && delim_at(s, w));
    }
}

/// What an encoded request frame holds: the method name, the delimiter,
/// then the payload.
pub open spec fn spec_encode_request(method: Seq<u8>, payload: Seq<u8>) -> Seq<u8> {
    method + delim() + payload
}

/// What decoding a request frame yields: a split at the first delimiter
/// occurrence, or nothing when no delimiter is present.
pub open spec fn spec_decode_request(data: Seq<u8>) -> Option<(Seq<u8>, Seq<u8>)> {
    if has_delim(data) {
        let p = first_delim(data);
        Some((data.subrange(0, p), data.subrange(p + 3, data.len() as int)))
    } else {
        None
    }
}

/// When the delimiter occurs at `i` and nowhere earlier, `i` is the first
/// delimiter position.
pub proof fn lemma_first_delim_is(s: Seq<u8>, i: int)
    requires
        delim_at(s, i),
        forall|j: int| 0 <= j < i ==> !delim_at(s, j),
    ensures
        has_delim(s),
        first_delim(s) == i,
{
    assert(has_delim(s));
    lemma_first_delim(s);
}

/// Builds a request frame: method-name bytes, the delimiter, payload bytes.
pub fn encode_request(method: &Vec<u8>, payload: &Vec<u8>) -> (r: Vec<u8>)
    ensures
        r@ == spec_encode_request(method@, payload@),
{
    let mut r: Vec<u8> = Vec::new();
    r.extend_from_slice(method.as_slice());
    r.push(0x5B);
    r.push(0x25);
    r.push(0x5D);
    r.extend_from_slice(payload.as_slice());
    proof {
        assert(r@ =~= method@ + delim() + payload@);
    }
    r
}

/// Copies `data[a..b]` into a fresh vector.
pub fn copy_range(data: &Vec<u8>, a: usize, b: usize) -> (r: Vec<u8>)
    requires
        a <= b <= data@.len(),
    ensures
        r@ == data@.subrange(a as int, b as int),
{
    let mut r: Vec<u8> = Vec::new();
    let mut i: usize = a;
    while i < b
        invariant
            a <= i <= b <= data@.len(),
            r@ == data@.subrange(a as int, i as int),
        decreases b - i,
    {
        r.push(data[i]);
        proof {
            assert(r@ =~= data@.subrange(a as int, (i + 1) as int));
        }
        i = i + 1;
    }
    r
}

/// Splits a request frame at the first delimiter occurrence: the left part
/// is the method name, the right part the payload. Yields nothing when no
/// delimiter is present.
pub fn decode_request(data: &Vec<u8>) -> (r: Option<(Vec<u8>, Vec<u8>)>)
    ensures
        r is Some <==> has_delim(data@),
        r matches Some(mp) ==> {
            &&& mp.0@ == data@.subrange(0, first_delim(data@))
            &&& mp.1@ == data@.subrange(first_delim(data@) + 3, data@.len() as int)
            &&& spec_decode_request(data@) == Some((mp.0@, mp.1@))
        },
{
    let n = data.len();
    let mut i: usize = 0;
    while n >= 3 && i <= n - 3
        invariant
            n == data@.len(),
            i <= n,
            forall|j: int| 0 <= j < i ==> !delim_at(data@, j),
        decreases n - i,
    {
        if data[i] == 0x5B && data[i + 1] == 0x25 && data[i + 2] == 0x5D {
            proof {
                lemma_first_delim_is(data@, i as int);
            }
            let method = copy_range(data, 0, i);
            let payload = copy_range(data, i + 3, n);
            return Some((method, payload));
        }
        i = i + 1;
    }
    proof {
        assert(forall|j: int| 0 <= j ==> !delim_at(data@, j));
    }
    None
}

/// Round trip: a request whose method name holds no delimiter decodes to
/// exactly the method name and payload it was encoded from.
pub proof fn lemma_request_round_trip(method: Seq<u8>, payload: Seq<u8>)
    requires
        !has_delim(method),
    ensures
        spec_decode_request(spec_encode_request(method, payload)) == Some((method, payload)),
{
    let e = spec_encode_request(method, payload);
    let m = method.len() as int;
    assert(delim_at(e, m));
    assert forall|j: int| 0 <= j < m implies !delim_at(e, j) by {
        if delim_at(e, j) {
            if j + 3 <= m {
                assert(delim_at(method, j));
            } else if j == m - 2 {
                assert(e[j + 2] == 0x5Bu8);
            } else {
                assert(j == m - 1);
                assert(e[j + 1] == 0x5Bu8);
            }
        }
    }
    lemma_first_delim_is(e, m);
    assert(e.subrange(0, m) =~= method);
    assert(e.subrange(m + 3, e.len() as int) =~= payload);
}

/// The value a four-byte big-endian prefix denotes.
pub open spec fn be_val(s: Seq<u8>) -> u32
    recommends
        s.len() >= 4,
{
    ((s[0] as u32) << 24) | ((s[1] as u32) << 16) | ((s[2] as u32) << 8) | (s[3] as u32)
}

/// The four big-endian bytes of `x`.
pub open spec fn spec_be_bytes(x: u32) -> Seq<u8> {
    seq![(x >> 24) as u8, (x >> 16) as u8, (x >> 8) as u8, x as u8]
}

/// Reading back the four big-endian bytes of `x` gives `x`.
pub proof fn lemma_be_round_trip(x: u32)
    ensures
        be_val(spec_be_bytes(x)) == x,
{
    let b0 = (x >> 24) as u8;
    let b1 = (x >> 16) as u8;
    let b2 = (x >> 8) as u8;
    let b3 = x as u8;
    assert(((b0 as u32) << 24) | ((b1 as u32) << 16) | ((b2 as u32) << 8) | (b3 as u32)
        == x) by (bit_vector)
        requires
            b0 == (x >> 24) as u8,
            b1 == (x >> 16) as u8,
            b2 == (x >> 8) as u8,
            b3 == x as u8,
    ;
}

/// Four bytes are recovered exactly from the value they denote.
pub proof fn lemma_be_bytes_unique(b0: u8, b1: u8, b2: u8, b3: u8)
    ensures
        spec_be_bytes(be_val(seq![b0, b1, b2, b3])) == seq![b0, b1, b2, b3],
{
    let x = ((b0 as u32) << 24) | ((b1 as u32) << 16) | ((b2 as u32) << 8) | (b3 as u32);
    assert((x >> 24) as u8 == b0 && (x >> 16) as u8 == b1 && (x >> 8) as u8 == b2 && x as u8
        == b3) by (bit_vector)
        requires
            x == ((b0 as u32) << 24) | ((b1 as u32) << 16) | ((b2 as u32) << 8) | (b3 as u32),
    ;
    assert(be_val(seq![b0, b1, b2, b3]) == x);
    assert(spec_be_bytes(x) =~= seq![b0, b1, b2, b3]);
}

/// Builds the four big-endian bytes of `x`.
pub fn u32_to_be(x: u32) -> (r: Vec<u8>)
    ensures
        r@ == spec_be_bytes(x),
        r@.len() == 4,
        be_val(r@) == x,
{
    let mut r: Vec<u8> = Vec::new();
    r.push((x >> 24) as u8);
    r.push((x >> 16) as u8);
    r.push((x >> 8) as u8);
    r.push(x as u8);
    proof {
        assert(r@ =~= spec_be_bytes(x));
        lemma_be_round_trip(x);
    }
    r
}

/// Reads the value of the four-byte big-endian prefix of `data`.
pub fn be_to_u32(data: &Vec<u8>) -> (r: u32)
    requires
        data@.len() >= 4,
    ensures
        r == be_val(data@),
{
    ((data[0] as u32) << 24) | ((data[1] as u32) << 16) | ((data[2] as u32) << 8) | (data[3] as u32)
}

/// What an encoded response frame holds: the payload length as four
/// big-endian bytes, then the payload.
pub open spec fn spec_encode_response(payload: Seq<u8>) -> Seq<u8>
    recommends
        payload.len() <= 0xffff_ffff,
{
    spec_be_bytes(payload.len() as u32) + payload
}

/// What decoding a response frame from the bytes available so far yields:
/// the payload of exactly the declared length together with the number of
/// bytes the frame occupies, or nothing while the stream is still short.
pub open spec fn spec_decode_response(data: Seq<u8>) -> Option<(Seq<u8>, int)> {
    if data.len() >= 4 && data.len() >= 4 + be_val(data.subrange(0, 4)) {
        let l = be_val(data.subrange(0, 4)) as int;
        Some((data.subrange(4, 4 + l), 4 + l))
    } else {
        None
    }
}

/// Builds a response frame: the four big-endian length bytes, then the
/// payload.
pub fn encode_response(payload: &Vec<u8>) -> (r: Vec<u8>)
    requires
        payload@.len() <= 0xffff_ffff,
    ensures
        r@ == spec_encode_response(payload@),
{
    let len: u32 = payload.len() as u32;
    let mut r = u32_to_be(len);
    r.extend_from_slice(payload.as_slice());
    r
}

/// Reads one response frame out of the bytes available so far: exactly the
/// declared number of payload bytes after the four-byte prefix, or nothing
/// while fewer bytes than one whole frame have arrived.
pub fn decode_response(data: &Vec<u8>) -> (r: Option<(Vec<u8>, usize)>)
    ensures
        r is Some <==> (data@.len() >= 4 && data@.len() >= 4 + be_val(data@.subrange(0, 4))),
        r matches Some(pc) ==> {
            &&& pc.0@.len() == be_val(data@.subrange(0, 4))
            &&& pc.0@ == data@.subrange(4, 4 + be_val(data@.subrange(0, 4)) as int)
            &&& pc.1 == 4 + be_val(data@.subrange(0, 4))
            &&& spec_decode_response(data@) == Some((pc.0@, pc.1 as int))
        },
{
    if data.len() < 4 {
        return None;
    }
    let header = copy_range(data, 0, 4);
    let len = be_to_u32(&header);
    let len_usize = len as usize;
    if data.len() - 4 < len_usize {
        return None;
    }
    let payload = copy_range(data, 4, 4 + len_usize);
    Some((payload, 4 + len_usize))
}

/// Framing exactness: a response frame followed by any later stream bytes
/// decodes to exactly the payload it was encoded from, consuming exactly
/// the frame's bytes; a truncated frame decodes to nothing.
pub proof fn lemma_response_round_trip(payload: Seq<u8>, rest: Seq<u8>)
    requires
        payload.len() <= 0xffff_ffff,
    ensures
        spec_decode_response(spec_encode_response(payload) + rest) == Some(
            (payload, 4 + payload.len() as int),
        ),
        forall|cut: int|
            0 <= cut < 4 + payload.len() ==> spec_decode_response(
                spec_encode_response(payload).subrange(0, cut),
            ) is None,
{
    let l = payload.len() as u32;
    lemma_be_round_trip(l);
    let e = spec_encode_response(payload) + rest;
    assert(e.subrange(0, 4) =~= spec_be_bytes(l));
    assert(e.subrange(4, 4 + l as int) =~= payload);
    assert forall|cut: int|
        0 <= cut < 4 + payload.len() implies spec_decode_response(
        spec_encode_response(payload).subrange(0, cut),
    ) is None by {
        let t = spec_encode_response(payload).subrange(0, cut);
        if t.len() >= 4 {
            assert(t.subrange(0, 4) =~= spec_be_bytes(l));
            assert(t.len() < 4 + be_val(t.subrange(0, 4)));
        }
    }
}

} // verus!
