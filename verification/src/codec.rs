//! Byte layouts of the committed public values.
//!
//! The proving collaborator commits its outputs as a byte string whose shape
//! is a hard contract with the downstream verifier: a fixed, versioned tuple
//! of length-prefixed fields for the time-delayed path, and an ABI-style
//! head/tail record for the peer-targeted path. Both layouts are stated here
//! once, as spec functions, and the executable encoders and decoders are
//! proved against them; any shape mismatch fails loudly with
//! `PublicValueDecodeError` rather than coercing silently.

use vstd::prelude::*;
use vstd::arithmetic::div_mod::lemma_mod_bound;

use crate::errors::SessionError;

verus! {

/// The committed public values of the time-delayed path, in their fixed
/// field order: before-state commitment, after-state commitment, a hash over
/// the private inputs, the symmetric ciphertext produced inside the proof,
/// and a reserved trailing field.
#[derive(Debug, Clone, PartialEq, Eq)]
pub struct TimeLockedValues {
    pub before: Vec<u8>,
    pub after: Vec<u8>,
    pub hash_private_inputs: Vec<u8>,
    pub chacha_cipher: Vec<u8>,
    pub reserved: Vec<u8>,
}

/// The committed public values of the peer-targeted path: a 32-byte
/// commitment hash over the key, and the ciphertext of the key under the
/// derived shared secret.
#[derive(Debug, Clone, PartialEq, Eq)]
pub struct KeyEncValues {
    pub key_hash: Vec<u8>,
    pub key_cipher: Vec<u8>,
}

impl KeyEncValues {
    /// The commitment hash is one 32-byte word.
    pub open spec fn wf(self) -> bool {
        self.key_hash@.len() == 32
    }
}

/// The eight little-endian bytes of `n`, low byte first.
pub open spec fn spec_u64_le(n: u64) -> Seq<u8> {
    seq![
        (n & 0xff) as u8,
        ((n >> 8) & 0xff) as u8,
        ((n >> 16) & 0xff) as u8,
        ((n >> 24) & 0xff) as u8,
        ((n >> 32) & 0xff) as u8,
        ((n >> 40) & 0xff) as u8,
        ((n >> 48) & 0xff) as u8,
        ((n >> 56) & 0xff) as u8,
    ]
}

/// The value of eight little-endian bytes.
pub open spec fn spec_u64_from_le(b: Seq<u8>) -> u64
    recommends
        b.len() == 8,
{
    (b[0] as u64) | ((b[1] as u64) << 8) | ((b[2] as u64) << 16) | ((b[3] as u64) << 24) | ((
    b[4] as u64) << 32) | ((b[5] as u64) << 40) | ((b[6] as u64) << 48) | ((b[7] as u64) << 56)
}

/// The eight big-endian bytes of `n`, high byte first.
pub open spec fn spec_u64_be(n: u64) -> Seq<u8> {
    seq![
        ((n >> 56) & 0xff) as u8,
        ((n >> 48) & 0xff) as u8,
        ((n >> 40) & 0xff) as u8,
        ((n >> 32) & 0xff) as u8,
        ((n >> 24) & 0xff) as u8,
        ((n >> 16) & 0xff) as u8,
        ((n >> 8) & 0xff) as u8,
        (n & 0xff) as u8,
    ]
}

/// The value of eight big-endian bytes.
pub open spec fn spec_u64_from_be(b: Seq<u8>) -> u64
    recommends
        b.len() == 8,
{
    ((b[0] as u64) << 56) | ((b[1] as u64) << 48) | ((b[2] as u64) << 40) | ((b[3] as u64) << 32)
        | ((b[4] as u64) << 24) | ((b[5] as u64) << 16) | ((b[6] as u64) << 8) | (b[7] as u64)
}

/// Reading back the little-endian bytes of `n` yields `n`.
pub proof fn lemma_u64_le_round_trip(n: u64)
    ensures
        spec_u64_from_le(spec_u64_le(n)) == n,
{
    assert((n & 0xff) < 256 && ((n >> 8) & 0xff) < 256 && ((n >> 16) & 0xff) < 256 && ((n >> 24)
        & 0xff) < 256 && ((n >> 32) & 0xff) < 256 && ((n >> 40) & 0xff) < 256 && ((n >> 48) & 0xff)
        < 256 && ((n >> 56) & 0xff) < 256) by (bit_vector);
    assert((n & 0xff) | (((n >> 8) & 0xff) << 8) | (((n >> 16) & 0xff) << 16) | (((n >> 24) & 0xff)
        << 24) | (((n >> 32) & 0xff) << 32) | (((n >> 40) & 0xff) << 40) | (((n >> 48) & 0xff)
        << 48) | (((n >> 56) & 0xff) << 56) == n) by (bit_vector);
}

/// Reading back the big-endian bytes of `n` yields `n`.
pub proof fn lemma_u64_be_round_trip(n: u64)
    ensures
        spec_u64_from_be(spec_u64_be(n)) == n,
{
    assert((n & 0xff) < 256 && ((n >> 8) & 0xff) < 256 && ((n >> 16) & 0xff) < 256 && ((n >> 24)
        & 0xff) < 256 && ((n >> 32) & 0xff) < 256 && ((n >> 40) & 0xff) < 256 && ((n >> 48) & 0xff)
        < 256 && ((n >> 56) & 0xff) < 256) by (bit_vector);
    assert((((n >> 56) & 0xff) << 56) | (((n >> 48) & 0xff) << 48) | (((n >> 40) & 0xff) << 40) | ((
    (n >> 32) & 0xff) << 32) | (((n >> 24) & 0xff) << 24) | (((n >> 16) & 0xff) << 16) | (((n >> 8)
        & 0xff) << 8) | (n & 0xff) == n) by (bit_vector);
}

/// One field of the time-delayed layout: its length as eight little-endian
/// bytes, then its bytes.
pub open spec fn spec_len_prefixed(f: Seq<u8>) -> Seq<u8> {
    spec_u64_le(f.len() as u64) + f
}

/// The whole time-delayed layout: the five fields, each length-prefixed, in
/// their fixed order, with nothing after them.
pub open spec fn spec_encode_time_locked(
    before: Seq<u8>,
    after: Seq<u8>,
    hash: Seq<u8>,
    cipher: Seq<u8>,
    reserved: Seq<u8>,
) -> Seq<u8> {
    spec_len_prefixed(before) + spec_len_prefixed(after) + spec_len_prefixed(hash)
        + spec_len_prefixed(cipher) + spec_len_prefixed(reserved)
}

/// Split one length-prefixed field off the front: the field and the rest,
/// or nothing when the bytes are too short for the prefix or the length it
/// announces.
pub open spec fn spec_parse_field(bytes: Seq<u8>) -> Option<(Seq<u8>, Seq<u8>)> {
    if bytes.len() < 8 {
        None
    } else {
        let n = spec_u64_from_le(bytes.take(8)) as int;
        if bytes.len() - 8 < n {
            None
        } else {
            Some((bytes.subrange(8, 8 + n), bytes.skip(8 + n)))
        }
    }
}

/// Whether `c` is a UTF-8 continuation byte.
pub open spec fn spec_is_cont(c: u8) -> bool {
    0x80 <= c <= 0xbf
}

/// Whether `b` is well-formed UTF-8: the shortest-form encodings of scalar
/// values, surrogates and values past the last scalar excluded.
pub open spec fn spec_is_utf8(b: Seq<u8>) -> bool
    decreases b.len(),
{
    if b.len() == 0 {
        true
    } else {
        let c0 = b[0];
        if c0 < 0x80 {
            spec_is_utf8(b.skip(1))
        } else if c0 < 0xc2 {
            false
        } else if c0 <= 0xdf {
            b.len() >= 2 && spec_is_cont(b[1]) && spec_is_utf8(b.skip(2))
        } else if c0 == 0xe0 {
            b.len() >= 3 && 0xa0 <= b[1] <= 0xbf && spec_is_cont(b[2]) && spec_is_utf8(b.skip(3))
        } else if c0 == 0xed {
            b.len() >= 3 && 0x80 <= b[1] <= 0x9f && spec_is_cont(b[2]) && spec_is_utf8(b.skip(3))
        } else if c0 <= 0xef {
            b.len() >= 3 && spec_is_cont(b[1]) && spec_is_cont(b[2]) && spec_is_utf8(b.skip(3))
        } else if c0 == 0xf0 {
            b.len() >= 4 && 0x90 <= b[1] <= 0xbf && spec_is_cont(b[2]) && spec_is_cont(b[3])
                && spec_is_utf8(b.skip(4))
        } else if c0 <= 0xf3 {
            b.len() >= 4 && spec_is_cont(b[1]) && spec_is_cont(b[2]) && spec_is_cont(b[3])
                && spec_is_utf8(b.skip(4))
        } else if c0 == 0xf4 {
            b.len() >= 4 && 0x80 <= b[1] <= 0x8f && spec_is_cont(b[2]) && spec_is_cont(b[3])
                && spec_is_utf8(b.skip(4))
        } else {
            false
        }
    }
}

/// Decode the time-delayed layout: five length-prefixed fields consuming
/// the bytes exactly, with the four text-typed fields well-formed UTF-8, or
/// nothing on any shape mismatch.
pub open spec fn spec_decode_time_locked(bytes: Seq<u8>) -> Option<
    (Seq<u8>, Seq<u8>, Seq<u8>, Seq<u8>, Seq<u8>),
> {
    match spec_parse_field(bytes) {
        None => None,
        Some((before, r1)) => match spec_parse_field(r1) {
            None => None,
            Some((after, r2)) => match spec_parse_field(r2) {
                None => None,
                Some((hash, r3)) => match spec_parse_field(r3) {
                    None => None,
                    Some((cipher, r4)) => match spec_parse_field(r4) {
                        None => None,
                        Some((reserved, r5)) => if r5.len() == 0 && spec_is_utf8(before)
                            && spec_is_utf8(after) && spec_is_utf8(hash) && spec_is_utf8(
                            reserved,
                        ) {
                            Some((before, after, hash, cipher, reserved))
                        } else {
                            None
                        },
                    },
                },
            },
        },
    }
}

/// The value of the eight little-endian bytes at `i`.
fn read_u64_le(bytes: &Vec<u8>, i: usize) -> (r: u64)
    requires
        i + 8 <= bytes@.len() <= usize::MAX,
    ensures
        r == spec_u64_from_le(bytes@.subrange(i as int, i as int + 8)),
{
    let r = (bytes[i] as u64) | ((bytes[i + 1] as u64) << 8) | ((bytes[i + 2] as u64) << 16) | ((
    bytes[i + 3] as u64) << 24) | ((bytes[i + 4] as u64) << 32) | ((bytes[i + 5] as u64) << 40) | ((
    bytes[i + 6] as u64) << 48) | ((bytes[i + 7] as u64) << 56);
    proof {
        let s = bytes@.subrange(i as int, i as int + 8);
        assert(s[0] == bytes@[i as int]);
        assert(s[1] == bytes@[i as int + 1]);
        assert(s[2] == bytes@[i as int + 2]);
        assert(s[3] == bytes@[i as int + 3]);
        assert(s[4] == bytes@[i as int + 4]);
        assert(s[5] == bytes@[i as int + 5]);
        assert(s[6] == bytes@[i as int + 6]);
        assert(s[7] == bytes@[i as int + 7]);
    }
    r
}

/// The value of the eight big-endian bytes at `i`.
fn read_u64_be(bytes: &Vec<u8>, i: usize) -> (r: u64)
    requires
        i + 8 <= bytes@.len() <= usize::MAX,
    ensures
        r == spec_u64_from_be(bytes@.subrange(i as int, i as int + 8)),
{
    let r = ((bytes[i] as u64) << 56) | ((bytes[i + 1] as u64) << 48) | ((bytes[i + 2] as u64)
        << 40) | ((bytes[i + 3] as u64) << 32) | ((bytes[i + 4] as u64) << 24) | ((bytes[i
        + 5] as u64) << 16) | ((bytes[i + 6] as u64) << 8) | (bytes[i + 7] as u64);
    proof {
        let s = bytes@.subrange(i as int, i as int + 8);
        assert(s[0] == bytes@[i as int]);
        assert(s[1] == bytes@[i as int + 1]);
        assert(s[2] == bytes@[i as int + 2]);
        assert(s[3] == bytes@[i as int + 3]);
        assert(s[4] == bytes@[i as int + 4]);
        assert(s[5] == bytes@[i as int + 5]);
        assert(s[6] == bytes@[i as int + 6]);
        assert(s[7] == bytes@[i as int + 7]);
    }
    r
}

/// Append the eight little-endian bytes of `n`.
fn push_u64_le(out: &mut Vec<u8>, n: u64)
    ensures
        final(out)@ == old(out)@ + spec_u64_le(n),
{
    proof {
        assert((n & 0xff) < 256 && ((n >> 8) & 0xff) < 256 && ((n >> 16) & 0xff) < 256 && ((n >> 24)
            & 0xff) < 256 && ((n >> 32) & 0xff) < 256 && ((n >> 40) & 0xff) < 256 && ((n >> 48)
            & 0xff) < 256 && ((n >> 56) & 0xff) < 256) by (bit_vector);
    }
    out.push((n & 0xff) as u8);
    out.push(((n >> 8) & 0xff) as u8);
    out.push(((n >> 16) & 0xff) as u8);
    out.push(((n >> 24) & 0xff) as u8);
    out.push(((n >> 32) & 0xff) as u8);
    out.push(((n >> 40) & 0xff) as u8);
    out.push(((n >> 48) & 0xff) as u8);
    out.push(((n >> 56) & 0xff) as u8);
    assert(out@ =~= old(out)@ + spec_u64_le(n));
}

/// Append the eight big-endian bytes of `n`.
fn push_u64_be(out: &mut Vec<u8>, n: u64)
    ensures
        final(out)@ == old(out)@ + spec_u64_be(n),
{
    proof {
        assert((n & 0xff) < 256 && ((n >> 8) & 0xff) < 256 && ((n >> 16) & 0xff) < 256 && ((n >> 24)
            & 0xff) < 256 && ((n >> 32) & 0xff) < 256 && ((n >> 40) & 0xff) < 256 && ((n >> 48)
            & 0xff) < 256 && ((n >> 56) & 0xff) < 256) by (bit_vector);
    }
    out.push(((n >> 56) & 0xff) as u8);
    out.push(((n >> 48) & 0xff) as u8);
    out.push(((n >> 40) & 0xff) as u8);
    out.push(((n >> 32) & 0xff) as u8);
    out.push(((n >> 24) & 0xff) as u8);
    out.push(((n >> 16) & 0xff) as u8);
    out.push(((n >> 8) & 0xff) as u8);
    out.push((n & 0xff) as u8);
    assert(out@ =~= old(out)@ + spec_u64_be(n));
}

/// Append every byte of `b`.
fn push_bytes(out: &mut Vec<u8>, b: &Vec<u8>)
    ensures
        final(out)@ == old(out)@ + b@,
{
    let mut k: usize = 0;
    while k < b.len()
        invariant
            k <= b@.len(),
            out@ == old(out)@ + b@.take(k as int),
        decreases b@.len() - k,
    {
        out.push(b[k]);
        k = k + 1;
        assert(out@ =~= old(out)@ + b@.take(k as int));
    }
    assert(out@ =~= old(out)@ + b@);
}

/// The bytes of `bytes` from `from` to `to`.
fn copy_range(bytes: &Vec<u8>, from: usize, to: usize) -> (r: Vec<u8>)
    requires
        from <= to <= bytes@.len(),
    ensures
        r@ == bytes@.subrange(from as int, to as int),
{
    let mut r: Vec<u8> = Vec::new();
    let mut k: usize = from;
    while k < to
        invariant
            from <= k <= to <= bytes@.len(),
            r@ == bytes@.subrange(from as int, k as int),
        decreases to - k,
    {
        r.push(bytes[k]);
        k = k + 1;
        assert(r@ =~= bytes@.subrange(from as int, k as int));
    }
    r
}

/// Whether every byte in `from..to` is zero, which is exactly whether that
/// range equals a run of zeros.
fn all_zero(bytes: &Vec<u8>, from: usize, to: usize) -> (r: bool)
    requires
        from <= to <= bytes@.len(),
    ensures
        r == (bytes@.subrange(from as int, to as int) == Seq::new(
            (to - from) as nat,
            |j: int| 0u8,
        )),
{
    let mut k: usize = from;
    while k < to
        invariant
            from <= k <= to <= bytes@.len(),
            forall|j: int| from <= j < k ==> bytes@[j] == 0u8,
        decreases to - k,
    {
        if bytes[k] != 0 {
            proof {
                let sub = bytes@.subrange(from as int, to as int);
                let zeros = Seq::new((to - from) as nat, |j: int| 0u8);
                assert(sub[k - from] == bytes@[k as int]);
                assert(zeros[k - from] == 0u8);
                assert(sub != zeros);
            }
            return false;
        }
        k = k + 1;
    }
    proof {
        assert(bytes@.subrange(from as int, to as int) =~= Seq::new((to - from) as nat, |j: int| 0u8));
    }
    true
}

/// Append one length-prefixed field.
fn push_field(out: &mut Vec<u8>, f: &Vec<u8>)
    ensures
        final(out)@ == old(out)@ + spec_len_prefixed(f@),
{
    push_u64_le(out, f.len() as u64);
    push_bytes(out, f);
    assert(out@ =~= old(out)@ + spec_len_prefixed(f@));
}

/// Encode the five fields of the time-delayed path in their fixed order,
/// each length-prefixed. This is the layout the decoder demands, shared
/// with the test fixtures.
pub fn encode_time_locked(v: &TimeLockedValues) -> (r: Vec<u8>)
    ensures
        r@ == spec_encode_time_locked(v.before@, v.after@, v.hash_private_inputs@, v.chacha_cipher@,
            v.reserved@),
{
    let mut out: Vec<u8> = Vec::new();
    push_field(&mut out, &v.before);
    push_field(&mut out, &v.after);
    push_field(&mut out, &v.hash_private_inputs);
    push_field(&mut out, &v.chacha_cipher);
    push_field(&mut out, &v.reserved);
    assert(out@ =~= spec_encode_time_locked(v.before@, v.after@, v.hash_private_inputs@,
        v.chacha_cipher@, v.reserved@));
    out
}

/// Split one length-prefixed field off at `from`, returning the field and
/// the position after it, or nothing when the bytes at `from` do not carry a
/// whole field.
fn take_field(bytes: &Vec<u8>, from: usize) -> (r: Option<(Vec<u8>, usize)>)
    requires
        from <= bytes@.len(),
    ensures
        r matches Some(p) ==> {
            &&& spec_parse_field(bytes@.skip(from as int)) == Some(
                (p.0@, bytes@.skip(p.1 as int)),
            )
            &&& from + 8 <= p.1 <= bytes@.len()
        },
        r is None ==> spec_parse_field(bytes@.skip(from as int)) is None,
{
    let ghost s = bytes@.skip(from as int);
    let len = bytes.len();
    if len - from < 8 {
        return None;
    }
    let n64 = read_u64_le(bytes, from);
    proof {
        assert(s.take(8) =~= bytes@.subrange(from as int, from as int + 8));
    }
    let rest = len - (from + 8);
    if (rest as u64) < n64 {
        return None;
    }
    let n = n64 as usize;
    let f = copy_range(bytes, from + 8, from + 8 + n);
    proof {
        assert(s.subrange(8, 8 + n as int) =~= bytes@.subrange(
            from as int + 8,
            from as int + 8 + n as int,
        ));
        assert(s.skip(8 + n as int) =~= bytes@.skip(from as int + 8 + n as int));
    }
    Some((f, from + 8 + n))
}

/// Whether `c` is a continuation byte.
fn is_cont_byte(c: u8) -> (r: bool)
    ensures
        r == spec_is_cont(c),
{
    c >= 0x80 && c <= 0xbf
}

/// Whether the bytes of `v` are well-formed UTF-8.
fn is_utf8(v: &Vec<u8>) -> (r: bool)
    ensures
        r == spec_is_utf8(v@),
{
    let n = v.len();
    let mut i: usize = 0;
    proof {
        assert(v@.skip(0) =~= v@);
    }
    while i < n
        invariant
            i <= n == v@.len(),
            spec_is_utf8(v@) == spec_is_utf8(v@.skip(i as int)),
        decreases n - i,
    {
        let ghost s = v@.skip(i as int);
        proof {
            assert(s.len() == n - i);
            assert(s[0] == v@[i as int]);
        }
        let c0 = v[i];
        if c0 < 0x80 {
            proof {
                assert(s.skip(1) =~= v@.skip(i as int + 1));
            }
            i = i + 1;
        } else if c0 < 0xc2 {
            return false;
        } else if c0 <= 0xdf {
            if n - i < 2 {
                return false;
            }
            proof {
                assert(s[1] == v@[i as int + 1]);
            }
            if !is_cont_byte(v[i + 1]) {
                return false;
            }
            proof {
                assert(s.skip(2) =~= v@.skip(i as int + 2));
            }
            i = i + 2;
        } else if c0 == 0xe0 || c0 == 0xed || c0 <= 0xef {
            if n - i < 3 {
                return false;
            }
            proof {
                assert(s[1] == v@[i as int + 1]);
                assert(s[2] == v@[i as int + 2]);
            }
            let b1 = v[i + 1];
            let first_ok = if c0 == 0xe0 {
                b1 >= 0xa0 && b1 <= 0xbf
            } else if c0 == 0xed {
                b1 >= 0x80 && b1 <= 0x9f
            } else {
                is_cont_byte(b1)
            };
            if !first_ok {
                return false;
            }
            if !is_cont_byte(v[i + 2]) {
                return false;
            }
            proof {
                assert(s.skip(3) =~= v@.skip(i as int + 3));
            }
            i = i + 3;
        } else if c0 == 0xf0 || c0 <= 0xf3 || c0 == 0xf4 {
            if n - i < 4 {
                return false;
            }
            proof {
                assert(s[1] == v@[i as int + 1]);
                assert(s[2] == v@[i as int + 2]);
                assert(s[3] == v@[i as int + 3]);
            }
            let b1 = v[i + 1];
            let first_ok = if c0 == 0xf0 {
                b1 >= 0x90 && b1 <= 0xbf
            } else if c0 == 0xf4 {
                b1 >= 0x80 && b1 <= 0x8f
            } else {
                is_cont_byte(b1)
            };
            if !first_ok {
                return false;
            }
            if !is_cont_byte(v[i + 2]) {
                return false;
            }
            if !is_cont_byte(v[i + 3]) {
                return false;
            }
            proof {
                assert(s.skip(4) =~= v@.skip(i as int + 4));
            }
            i = i + 4;
        } else {
            return false;
        }
    }
    proof {
        assert(v@.skip(n as int) =~= Seq::<u8>::empty());
    }
    true
}

/// Decode the public values of the time-delayed path: exactly five
/// length-prefixed fields, in their fixed order, consuming the whole byte
/// string, with the four text-typed fields — everything but the ciphertext
/// — well-formed UTF-8. Any other shape is a `PublicValueDecodeError`,
/// never a silent default or a coerced string.
#[verifier::rlimit(100)]
pub fn decode_time_locked(bytes: &Vec<u8>) -> (r: Result<TimeLockedValues, SessionError>)
    ensures
        r matches Ok(v) ==> spec_decode_time_locked(bytes@) == Some(
            (v.before@, v.after@, v.hash_private_inputs@, v.chacha_cipher@, v.reserved@),
        ),
        r is Err ==> spec_decode_time_locked(bytes@) is None && r == Err::<
            TimeLockedValues,
            SessionError,
        >(SessionError::PublicValueDecodeError),
{
    proof {
        assert(bytes@.skip(0) =~= bytes@);
    }
    let r1 = match take_field(bytes, 0) {
        None => {
            return Err(SessionError::PublicValueDecodeError);
        },
        Some(p) => p,
    };
    let r2 = match take_field(bytes, r1.1) {
        None => {
            return Err(SessionError::PublicValueDecodeError);
        },
        Some(p) => p,
    };
    let r3 = match take_field(bytes, r2.1) {
        None => {
            return Err(SessionError::PublicValueDecodeError);
        },
        Some(p) => p,
    };
    let r4 = match take_field(bytes, r3.1) {
        None => {
            return Err(SessionError::PublicValueDecodeError);
        },
        Some(p) => p,
    };
    let r5 = match take_field(bytes, r4.1) {
        None => {
            return Err(SessionError::PublicValueDecodeError);
        },
        Some(p) => p,
    };
    if r5.1 != bytes.len() {
        return Err(SessionError::PublicValueDecodeError);
    }
    if !is_utf8(&r1.0) {
        return Err(SessionError::PublicValueDecodeError);
    }
    if !is_utf8(&r2.0) {
        return Err(SessionError::PublicValueDecodeError);
    }
    if !is_utf8(&r3.0) {
        return Err(SessionError::PublicValueDecodeError);
    }
    if !is_utf8(&r5.0) {
        return Err(SessionError::PublicValueDecodeError);
    }
    Ok(
        TimeLockedValues {
            before: r1.0,
            after: r2.0,
            hash_private_inputs: r3.0,
            chacha_cipher: r4.0,
            reserved: r5.0,
        },
    )
}

/// Parsing a length-prefixed field off the front of `prefixed ++ rest`
/// yields the field and `rest`.
proof fn lemma_parse_len_prefixed(f: Seq<u8>, rest: Seq<u8>)
    requires
        f.len() <= u64::MAX,
    ensures
        spec_parse_field(spec_len_prefixed(f) + rest) == Some((f, rest)),
{
    let bytes = spec_len_prefixed(f) + rest;
    lemma_u64_le_round_trip(f.len() as u64);
    assert(bytes.take(8) =~= spec_u64_le(f.len() as u64));
    assert(bytes.subrange(8, 8 + f.len() as int) =~= f);
    assert(bytes.skip(8 + f.len() as int) =~= rest);
}

/// Round trip of the time-delayed layout: decoding what was encoded for the
/// five fields yields those fields, byte for byte, whenever the four
/// text-typed fields hold well-formed text, as every tuple the proving
/// collaborator commits does. Decoding itself is a function of the bytes
/// alone, so repeated runs that commit the same bytes decode to the same
/// fields.
#[verifier::rlimit(100)]
pub proof fn lemma_time_locked_round_trip(
    before: Seq<u8>,
    after: Seq<u8>,
    hash: Seq<u8>,
    cipher: Seq<u8>,
    reserved: Seq<u8>,
)
    requires
        before.len() <= u64::MAX,
        after.len() <= u64::MAX,
        hash.len() <= u64::MAX,
        cipher.len() <= u64::MAX,
        spec_is_utf8(before),
        spec_is_utf8(after),
        spec_is_utf8(hash),
        spec_is_utf8(reserved),
        reserved.len() <= u64::MAX,
    ensures
        spec_decode_time_locked(spec_encode_time_locked(before, after, hash, cipher, reserved))
            == Some((before, after, hash, cipher, reserved)),
{
    let bytes = spec_encode_time_locked(before, after, hash, cipher, reserved);
    let t2 = spec_len_prefixed(after) + spec_len_prefixed(hash) + spec_len_prefixed(cipher)
        + spec_len_prefixed(reserved);
    let t3 = spec_len_prefixed(hash) + spec_len_prefixed(cipher) + spec_len_prefixed(reserved);
    let t4 = spec_len_prefixed(cipher) + spec_len_prefixed(reserved);
    let t5 = spec_len_prefixed(reserved);
    assert(bytes =~= spec_len_prefixed(before) + t2);
    lemma_parse_len_prefixed(before, t2);
    assert(t2 =~= spec_len_prefixed(after) + t3);
    lemma_parse_len_prefixed(after, t3);
    assert(t3 =~= spec_len_prefixed(hash) + t4);
    lemma_parse_len_prefixed(hash, t4);
    assert(t4 =~= spec_len_prefixed(cipher) + t5);
    lemma_parse_len_prefixed(cipher, t5);
    assert(t5 =~= spec_len_prefixed(reserved) + Seq::<u8>::empty());
    lemma_parse_len_prefixed(reserved, Seq::<u8>::empty());
}

/// A run of `n` zero bytes.
pub open spec fn spec_zeros(n: int) -> Seq<u8> {
    Seq::new(n as nat, |j: int| 0u8)
}

/// Zero padding that rounds `n` bytes up to a multiple of the 32-byte word.
pub open spec fn spec_pad32(n: int) -> int {
    if n % 32 == 0 {
        0
    } else {
        32 - n % 32
    }
}

/// The ABI-style layout of the peer-targeted path's public values: the
/// 32-byte hash word; a word holding the offset 64 to the tail; a word
/// holding the ciphertext length; then the ciphertext, zero-padded to a
/// whole word. Offsets and lengths occupy the low eight bytes of their
/// word, big-endian, under 24 zero bytes.
pub open spec fn spec_abi_encode_key_enc(h: Seq<u8>, c: Seq<u8>) -> Seq<u8> {
    h + spec_zeros(24) + spec_u64_be(64) + spec_zeros(24) + spec_u64_be(c.len() as u64) + c
        + spec_zeros(spec_pad32(c.len() as int))
}

/// Decode the ABI-style layout: the hash word and the ciphertext, or
/// nothing when the offset is not 64, a length or offset word does not fit
/// in its low eight bytes, the total length disagrees with the announced
/// one, or the padding is not zero.
pub open spec fn spec_abi_decode_key_enc(bytes: Seq<u8>) -> Option<(Seq<u8>, Seq<u8>)> {
    if bytes.len() < 96 {
        None
    } else if bytes.subrange(32, 56) != spec_zeros(24) {
        None
    } else if spec_u64_from_be(bytes.subrange(56, 64)) != 64 {
        None
    } else if bytes.subrange(64, 88) != spec_zeros(24) {
        None
    } else {
        let n = spec_u64_from_be(bytes.subrange(88, 96)) as int;
        if bytes.len() != 96 + n + spec_pad32(n) {
            None
        } else if bytes.skip(96 + n) != spec_zeros(spec_pad32(n)) {
            None
        } else {
            Some((bytes.take(32), bytes.subrange(96, 96 + n)))
        }
    }
}

/// Append `n` zero bytes.
fn push_zeros(out: &mut Vec<u8>, n: usize)
    ensures
        final(out)@ == old(out)@ + spec_zeros(n as int),
{
    let mut k: usize = 0;
    while k < n
        invariant
            k <= n,
            out@ == old(out)@ + spec_zeros(k as int),
        decreases n - k,
    {
        out.push(0u8);
        k = k + 1;
        assert(out@ =~= old(out)@ + spec_zeros(k as int));
    }
}

/// Encode the public values of the peer-targeted path in the ABI-style
/// layout the downstream verifier agrees on.
pub fn encode_key_enc(v: &KeyEncValues) -> (r: Vec<u8>)
    requires
        v.wf(),
    ensures
        r@ == spec_abi_encode_key_enc(v.key_hash@, v.key_cipher@),
{
    let mut out: Vec<u8> = Vec::new();
    push_bytes(&mut out, &v.key_hash);
    push_zeros(&mut out, 24);
    push_u64_be(&mut out, 64);
    push_zeros(&mut out, 24);
    push_u64_be(&mut out, v.key_cipher.len() as u64);
    push_bytes(&mut out, &v.key_cipher);
    let n = v.key_cipher.len();
    let pad = if n % 32 == 0 {
        0
    } else {
        32 - n % 32
    };
    push_zeros(&mut out, pad);
    assert(out@ =~= spec_abi_encode_key_enc(v.key_hash@, v.key_cipher@));
    out
}

/// Decode the public values of the peer-targeted path: the 32-byte
/// commitment hash and the ciphertext, failing with
/// `PublicValueDecodeError` on any shape mismatch.
pub fn decode_key_enc(bytes: &Vec<u8>) -> (r: Result<KeyEncValues, SessionError>)
    ensures
        r matches Ok(v) ==> spec_abi_decode_key_enc(bytes@) == Some((v.key_hash@, v.key_cipher@))
            && v.wf(),
        r is Err ==> spec_abi_decode_key_enc(bytes@) is None && r == Err::<
            KeyEncValues,
            SessionError,
        >(SessionError::PublicValueDecodeError),
{
    let len = bytes.len();
    if len < 96 {
        return Err(SessionError::PublicValueDecodeError);
    }
    if !all_zero(bytes, 32, 56) {
        return Err(SessionError::PublicValueDecodeError);
    }
    let off = read_u64_be(bytes, 56);
    if off != 64 {
        return Err(SessionError::PublicValueDecodeError);
    }
    if !all_zero(bytes, 64, 88) {
        return Err(SessionError::PublicValueDecodeError);
    }
    let n64 = read_u64_be(bytes, 88);
    if n64 > (len as u64) {
        return Err(SessionError::PublicValueDecodeError);
    }
    let n = n64 as usize;
    let pad = if n % 32 == 0 {
        0
    } else {
        32 - n % 32
    };
    if len - 96 < n {
        return Err(SessionError::PublicValueDecodeError);
    }
    if len - 96 - n != pad {
        return Err(SessionError::PublicValueDecodeError);
    }
    if !all_zero(bytes, 96 + n, len) {
        return Err(SessionError::PublicValueDecodeError);
    }
    let hash = copy_range(bytes, 0, 32);
    let cipher = copy_range(bytes, 96, 96 + n);
    proof {
        assert(bytes@.take(32) =~= bytes@.subrange(0, 32));
        assert(bytes@.skip(96 + n as int) =~= bytes@.subrange(96 + n as int, len as int));
    }
    Ok(KeyEncValues { key_hash: hash, key_cipher: cipher })
}

/// Round trip of the ABI-style layout: decoding what was encoded for a hash
/// word and a ciphertext yields them, byte for byte. Decoding is a function
/// of the bytes alone, so repeated runs that commit the same bytes decode to
/// the same fields.
pub proof fn lemma_key_enc_round_trip(h: Seq<u8>, c: Seq<u8>)
    requires
        h.len() == 32,
        c.len() <= u64::MAX,
    ensures
        spec_abi_decode_key_enc(spec_abi_encode_key_enc(h, c)) == Some((h, c)),
{
    let bytes = spec_abi_encode_key_enc(h, c);
    let n = c.len() as int;
    lemma_mod_bound(n, 32);
    lemma_u64_be_round_trip(64);
    lemma_u64_be_round_trip(c.len() as u64);
    assert(bytes.len() == 96 + n + spec_pad32(n));
    assert(bytes.subrange(32, 56) =~= spec_zeros(24));
    assert(bytes.subrange(56, 64) =~= spec_u64_be(64));
    assert(bytes.subrange(64, 88) =~= spec_zeros(24));
    assert(bytes.subrange(88, 96) =~= spec_u64_be(c.len() as u64));
    assert(bytes.skip(96 + n) =~= spec_zeros(spec_pad32(n)));
    assert(bytes.take(32) =~= h);
    assert(bytes.subrange(96, 96 + n) =~= c);
}

} // verus!
