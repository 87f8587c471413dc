//! Byte-level MessagePack framing for the message envelopes.
//!
//! The wire protocol encodes each envelope as a MessagePack map with string
//! keys; byte-string values use the binary type, never arrays of integers.
//! Only the small subset of MessagePack that the envelopes need is framed
//! here: fixmap headers, strings, binaries, booleans, unsigned integers up to
//! 16 bits, and arrays of two-element arrays for header lists.
//!
//! Every encoder has a matching parser, and the parsers are proved to invert
//! the encoders, which is what the send/receive round-trip rests on.

use vstd::prelude::*;
use vstd::string::StrSliceExecFns;

verus! {

/// Largest length a single string or binary component may have on the wire
/// (the 32-bit MessagePack length header is the binding cap).
pub const MAX_COMPONENT_LEN: usize = 0xFFFF_FFFF;

// ---------------------------------------------------------------------------
// Spec-level encoders
// ---------------------------------------------------------------------------

/// Big-endian bytes of a 16-bit length.
pub open spec fn be16(n: nat) -> Seq<u8> {
    seq![(n / 256) as u8, (n % 256) as u8]
}

/// Big-endian bytes of a 32-bit length.
pub open spec fn be32(n: nat) -> Seq<u8> {
    seq![
        (n / 0x1000000) as u8,
        ((n / 0x10000) % 256) as u8,
        ((n / 256) % 256) as u8,
        (n % 256) as u8,
    ]
}

/// A fixmap header; the envelopes never have more than 15 keys.
pub open spec fn enc_map_header(n: nat) -> Seq<u8>
    recommends
        n < 16,
{
    seq![(0x80 + n) as u8]
}

/// An array header (fixarray, array 16, or array 32).
pub open spec fn enc_array_header(n: nat) -> Seq<u8>
    recommends
        n <= 0xFFFF_FFFF,
{
    if n < 16 {
        seq![(0x90 + n) as u8]
    } else if n <= 0xFFFF {
        seq![0xdcu8] + be16(n)
    } else {
        seq![0xddu8] + be32(n)
    }
}

/// A string with the given UTF-8 payload bytes (fixstr, str 8, str 16, or
/// str 32, whichever is shortest).
pub open spec fn enc_str_raw(b: Seq<u8>) -> Seq<u8>
    recommends
        b.len() <= 0xFFFF_FFFF,
{
    if b.len() < 32 {
        seq![(0xa0 + b.len()) as u8] + b
    } else if b.len() <= 0xFF {
        seq![0xd9u8, b.len() as u8] + b
    } else if b.len() <= 0xFFFF {
        seq![0xdau8] + be16(b.len()) + b
    } else {
        seq![0xdbu8] + be32(b.len()) + b
    }
}

/// The bytes of an ASCII character sequence, one byte per character.
pub open spec fn ascii_bytes(s: Seq<char>) -> Seq<u8> {
    Seq::new(s.len(), |i: int| s[i] as u8)
}

/// An ASCII string encoded as a MessagePack string.
pub open spec fn enc_str(s: Seq<char>) -> Seq<u8>
    recommends
        s.len() <= 0xFFFF_FFFF,
{
    enc_str_raw(ascii_bytes(s))
}

/// A byte string encoded with the binary type (bin 8, bin 16, or bin 32).
pub open spec fn enc_bin(b: Seq<u8>) -> Seq<u8>
    recommends
        b.len() <= 0xFFFF_FFFF,
{
    if b.len() <= 0xFF {
        seq![0xc4u8, b.len() as u8] + b
    } else if b.len() <= 0xFFFF {
        seq![0xc5u8] + be16(b.len()) + b
    } else {
        seq![0xc6u8] + be32(b.len()) + b
    }
}

/// A boolean.
pub open spec fn enc_bool(v: bool) -> Seq<u8> {
    if v {
        seq![0xc3u8]
    } else {
        seq![0xc2u8]
    }
}

/// An unsigned integer up to 16 bits, in its shortest form (positive fixint,
/// uint 8, or uint 16).
pub open spec fn enc_uint(n: nat) -> Seq<u8>
    recommends
        n <= 0xFFFF,
{
    if n < 128 {
        seq![n as u8]
    } else if n <= 0xFF {
        seq![0xccu8, n as u8]
    } else {
        seq![0xcdu8] + be16(n)
    }
}

/// One header, a two-element array of binaries: `[name, value]`.
pub open spec fn enc_header_pair(p: (Seq<u8>, Seq<u8>)) -> Seq<u8>
    recommends
        p.0.len() <= 0xFFFF_FFFF,
        p.1.len() <= 0xFFFF_FFFF,
{
    seq![0x92u8] + enc_bin(p.0) + enc_bin(p.1)
}

/// The header pairs from index `k` on, concatenated.
pub open spec fn enc_header_list_from(hs: Seq<(Seq<u8>, Seq<u8>)>, k: int) -> Seq<u8>
    decreases hs.len() - k,
{
    if k < 0 || k >= hs.len() {
        Seq::<u8>::empty()
    } else {
        enc_header_pair(hs[k]) + enc_header_list_from(hs, k + 1)
    }
}

/// A header list: an array header followed by each `[name, value]` pair.
pub open spec fn enc_headers(hs: Seq<(Seq<u8>, Seq<u8>)>) -> Seq<u8>
    recommends
        hs.len() <= 0xFFFF_FFFF,
{
    enc_array_header(hs.len()) + enc_header_list_from(hs, 0)
}

// ---------------------------------------------------------------------------
// Executable writers
// ---------------------------------------------------------------------------

/// Appends a fixmap header for a map with `n` keys.
pub fn write_map_header(buf: &mut Vec<u8>, n: u8)
    requires
        n < 16,
    ensures
        final(buf)@ == old(buf)@ + enc_map_header(n as nat),
{
    buf.push(0x80 + n);
    assert(buf@ =~= old(buf)@ + enc_map_header(n as nat));
}

/// Appends the two big-endian bytes of a 16-bit length.
fn write_be16(buf: &mut Vec<u8>, n: usize)
    requires
        n <= 0xFFFF,
    ensures
        final(buf)@ == old(buf)@ + be16(n as nat),
{
    buf.push((n / 256) as u8);
    buf.push((n % 256) as u8);
    assert(buf@ =~= old(buf)@ + be16(n as nat));
}

/// Appends the four big-endian bytes of a 32-bit length.
fn write_be32(buf: &mut Vec<u8>, n: usize)
    requires
        n <= 0xFFFF_FFFF,
    ensures
        final(buf)@ == old(buf)@ + be32(n as nat),
{
    buf.push((n / 0x1000000) as u8);
    buf.push(((n / 0x10000) % 256) as u8);
    buf.push(((n / 256) % 256) as u8);
    buf.push((n % 256) as u8);
    assert(buf@ =~= old(buf)@ + be32(n as nat));
}

/// Appends an array header for `n` elements.
pub fn write_array_header(buf: &mut Vec<u8>, n: usize)
    requires
        n <= 0xFFFF_FFFF,
    ensures
        final(buf)@ == old(buf)@ + enc_array_header(n as nat),
{
    if n < 16 {
        buf.push((0x90 + n) as u8);
        assert(buf@ =~= old(buf)@ + enc_array_header(n as nat));
    } else if n <= 0xFFFF {
        buf.push(0xdc);
        write_be16(buf, n);
        assert(buf@ =~= old(buf)@ + enc_array_header(n as nat));
    } else {
        buf.push(0xdd);
        write_be32(buf, n);
        assert(buf@ =~= old(buf)@ + enc_array_header(n as nat));
    }
}

/// Appends an ASCII string as a MessagePack string.
pub fn write_str(buf: &mut Vec<u8>, s: &str)
    requires
        s.is_ascii(),
        s@.len() <= 0xFFFF_FFFF,
    ensures
        final(buf)@ == old(buf)@ + enc_str(s@),
{
    broadcast use vstd::string::is_ascii_spec_bytes;

    let bytes = s.as_bytes();
    assert(bytes@ =~= ascii_bytes(s@));
    let n = s.len();
    if n < 32 {
        buf.push((0xa0 + n) as u8);
    } else if n <= 0xFF {
        buf.push(0xd9);
        buf.push(n as u8);
    } else if n <= 0xFFFF {
        buf.push(0xda);
        write_be16(buf, n);
    } else {
        buf.push(0xdb);
        write_be32(buf, n);
    }
    buf.extend_from_slice(bytes);
    assert(buf@ =~= old(buf)@ + enc_str(s@));
}

/// Appends a byte string with the binary type.
pub fn write_bin(buf: &mut Vec<u8>, v: &[u8])
    requires
        v@.len() <= 0xFFFF_FFFF,
    ensures
        final(buf)@ == old(buf)@ + enc_bin(v@),
{
    let n = v.len();
    if n <= 0xFF {
        buf.push(0xc4);
        buf.push(n as u8);
    } else if n <= 0xFFFF {
        buf.push(0xc5);
        write_be16(buf, n);
    } else {
        buf.push(0xc6);
        write_be32(buf, n);
    }
    buf.extend_from_slice(v);
    assert(buf@ =~= old(buf)@ + enc_bin(v@));
}

/// Appends a boolean.
pub fn write_bool(buf: &mut Vec<u8>, v: bool)
    ensures
        final(buf)@ == old(buf)@ + enc_bool(v),
{
    buf.push(if v { 0xc3 } else { 0xc2 });
    assert(buf@ =~= old(buf)@ + enc_bool(v));
}

/// Appends an unsigned integer in its shortest form.
pub fn write_uint(buf: &mut Vec<u8>, n: u16)
    ensures
        final(buf)@ == old(buf)@ + enc_uint(n as nat),
{
    if n < 128 {
        buf.push(n as u8);
    } else if n <= 0xFF {
        buf.push(0xcc);
        buf.push(n as u8);
    } else {
        buf.push(0xcd);
        write_be16(buf, n as usize);
    }
    assert(buf@ =~= old(buf)@ + enc_uint(n as nat));
}

/// Appends a header list: an array of two-element `[name, value]` arrays of
/// binaries.
pub fn write_headers(buf: &mut Vec<u8>, hs: &Vec<(Vec<u8>, Vec<u8>)>)
    requires
        hs@.len() <= 0xFFFF_FFFF,
        forall|i: int|
            0 <= i < hs@.len() ==> #[trigger] hs@[i].0@.len() <= 0xFFFF_FFFF
                && hs@[i].1@.len() <= 0xFFFF_FFFF,
    ensures
        final(buf)@ == old(buf)@ + enc_headers(header_views(hs@)),
{
    let ghost model = header_views(hs@);
    write_array_header(buf, hs.len());
    let mut i: usize = 0;
    while i < hs.len()
        invariant
            i <= hs@.len(),
            hs@.len() <= 0xFFFF_FFFF,
            model == header_views(hs@),
            forall|j: int|
                0 <= j < hs@.len() ==> #[trigger] hs@[j].0@.len() <= 0xFFFF_FFFF
                    && hs@[j].1@.len() <= 0xFFFF_FFFF,
            buf@ == old(buf)@ + enc_array_header(model.len())
                + enc_header_list_prefix(model, i as int),
        decreases hs@.len() - i,
    {
        let pair = &hs[i];
        buf.push(0x92);
        write_bin(buf, pair.0.as_slice());
        write_bin(buf, pair.1.as_slice());
        proof {
            lemma_enc_header_list_prefix_snoc(model, i as int);
            assert(buf@ =~= old(buf)@ + enc_array_header(model.len())
                + enc_header_list_prefix(model, i as int + 1));
        }
        i += 1;
    }
    proof {
        lemma_enc_header_list_prefix_all(model);
        assert(buf@ =~= old(buf)@ + enc_headers(model));
    }
}

/// The views of a header vector's entries.
pub open spec fn header_views(hs: Seq<(Vec<u8>, Vec<u8>)>) -> Seq<(Seq<u8>, Seq<u8>)> {
    hs.map_values(|p: (Vec<u8>, Vec<u8>)| (p.0@, p.1@))
}

/// The first `k` header pairs, concatenated.
pub open spec fn enc_header_list_prefix(hs: Seq<(Seq<u8>, Seq<u8>)>, k: int) -> Seq<u8>
    decreases k,
{
    if k <= 0 || k > hs.len() {
        Seq::<u8>::empty()
    } else {
        enc_header_list_prefix(hs, k - 1) + enc_header_pair(hs[k - 1])
    }
}

proof fn lemma_enc_header_list_prefix_snoc(hs: Seq<(Seq<u8>, Seq<u8>)>, k: int)
    requires
        0 <= k < hs.len(),
    ensures
        enc_header_list_prefix(hs, k + 1) == enc_header_list_prefix(hs, k)
            + enc_header_pair(hs[k]),
{
}

/// The whole prefix equals the suffix form the parser lemmas use.
proof fn lemma_prefix_is_from(hs: Seq<(Seq<u8>, Seq<u8>)>, k: int)
    requires
        0 <= k <= hs.len(),
    ensures
        enc_header_list_prefix(hs, k) + enc_header_list_from(hs, k)
            == enc_header_list_from(hs, 0),
    decreases k,
{
    if k == 0 {
        assert(enc_header_list_prefix(hs, 0) + enc_header_list_from(hs, 0)
            =~= enc_header_list_from(hs, 0));
    } else {
        lemma_prefix_is_from(hs, k - 1);
        lemma_enc_header_list_prefix_snoc(hs, k - 1);
        assert(enc_header_list_prefix(hs, k) + enc_header_list_from(hs, k)
            =~= (enc_header_list_prefix(hs, k - 1) + enc_header_pair(hs[k - 1]))
                + enc_header_list_from(hs, k));
        assert(enc_header_pair(hs[k - 1]) + enc_header_list_from(hs, k)
            == enc_header_list_from(hs, k - 1));
        assert(enc_header_list_prefix(hs, k) + enc_header_list_from(hs, k)
            =~= enc_header_list_prefix(hs, k - 1) + enc_header_list_from(hs, k - 1));
    }
}

proof fn lemma_enc_header_list_prefix_all(hs: Seq<(Seq<u8>, Seq<u8>)>)
    ensures
        enc_header_list_prefix(hs, hs.len() as int) == enc_header_list_from(hs, 0),
{
    lemma_prefix_is_from(hs, hs.len() as int);
    assert(enc_header_list_prefix(hs, hs.len() as int)
        =~= enc_header_list_prefix(hs, hs.len() as int) + enc_header_list_from(
        hs,
        hs.len() as int,
    ));
}

// ---------------------------------------------------------------------------
// Spec-level parsers
// ---------------------------------------------------------------------------

/// One byte at position `i`.
pub open spec fn p_byte(b: Seq<u8>, i: int) -> Option<(u8, int)> {
    if 0 <= i < b.len() {
        Some((b[i], i + 1))
    } else {
        None
    }
}

/// `n` raw bytes starting at position `i`.
pub open spec fn p_take(b: Seq<u8>, i: int, n: nat) -> Option<(Seq<u8>, int)> {
    if 0 <= i && i + n <= b.len() {
        Some((b.subrange(i, i + n), i + n))
    } else {
        None
    }
}

/// A 16-bit big-endian length.
pub open spec fn p_be16(b: Seq<u8>, i: int) -> Option<(nat, int)> {
    if 0 <= i && i + 2 <= b.len() {
        Some(((b[i] * 256 + b[i + 1]) as nat, i + 2))
    } else {
        None
    }
}

/// A 32-bit big-endian length.
pub open spec fn p_be32(b: Seq<u8>, i: int) -> Option<(nat, int)> {
    if 0 <= i && i + 4 <= b.len() {
        Some((
            (b[i] * 0x1000000 + b[i + 1] * 0x10000 + b[i + 2] * 256 + b[i + 3]) as nat,
            i + 4,
        ))
    } else {
        None
    }
}

/// A fixmap header; the envelopes never use the longer map forms.
pub open spec fn p_map_header(b: Seq<u8>, i: int) -> Option<(nat, int)> {
    match p_byte(b, i) {
        Some((t, j)) => if 0x80 <= t <= 0x8f {
            Some(((t - 0x80) as nat, j))
        } else {
            None
        },
        None => None,
    }
}

/// An array header: fixarray, array 16, or array 32.
pub open spec fn p_array_header(b: Seq<u8>, i: int) -> Option<(nat, int)> {
    match p_byte(b, i) {
        Some((t, j)) => if 0x90 <= t <= 0x9f {
            Some(((t - 0x90) as nat, j))
        } else if t == 0xdc {
            p_be16(b, j)
        } else if t == 0xdd {
            p_be32(b, j)
        } else {
            None
        },
        None => None,
    }
}

/// A string; the payload bytes are returned raw.
pub open spec fn p_str_raw(b: Seq<u8>, i: int) -> Option<(Seq<u8>, int)> {
    match p_byte(b, i) {
        Some((t, j)) => if 0xa0 <= t <= 0xbf {
            p_take(b, j, (t - 0xa0) as nat)
        } else if t == 0xd9 {
            match p_byte(b, j) {
                Some((n, k)) => p_take(b, k, n as nat),
                None => None,
            }
        } else if t == 0xda {
            match p_be16(b, j) {
                Some((n, k)) => p_take(b, k, n),
                None => None,
            }
        } else if t == 0xdb {
            match p_be32(b, j) {
                Some((n, k)) => p_take(b, k, n),
                None => None,
            }
        } else {
            None
        },
        None => None,
    }
}

/// A byte string of the binary type.
pub open spec fn p_bin(b: Seq<u8>, i: int) -> Option<(Seq<u8>, int)> {
    match p_byte(b, i) {
        Some((t, j)) => if t == 0xc4 {
            match p_byte(b, j) {
                Some((n, k)) => p_take(b, k, n as nat),
                None => None,
            }
        } else if t == 0xc5 {
            match p_be16(b, j) {
                Some((n, k)) => p_take(b, k, n),
                None => None,
            }
        } else if t == 0xc6 {
            match p_be32(b, j) {
                Some((n, k)) => p_take(b, k, n),
                None => None,
            }
        } else {
            None
        },
        None => None,
    }
}

/// A boolean.
pub open spec fn p_bool(b: Seq<u8>, i: int) -> Option<(bool, int)> {
    match p_byte(b, i) {
        Some((t, j)) => if t == 0xc2 {
            Some((false, j))
        } else if t == 0xc3 {
            Some((true, j))
        } else {
            None
        },
        None => None,
    }
}

/// An unsigned integer: positive fixint, uint 8, uint 16, or uint 32.
pub open spec fn p_uint(b: Seq<u8>, i: int) -> Option<(nat, int)> {
    match p_byte(b, i) {
        Some((t, j)) => if t < 0x80 {
            Some((t as nat, j))
        } else if t == 0xcc {
            match p_byte(b, j) {
                Some((n, k)) => Some((n as nat, k)),
                None => None,
            }
        } else if t == 0xcd {
            p_be16(b, j)
        } else if t == 0xce {
            p_be32(b, j)
        } else {
            None
        },
        None => None,
    }
}

/// One header: a two-element array holding two binaries.
pub open spec fn p_header_pair(b: Seq<u8>, i: int) -> Option<((Seq<u8>, Seq<u8>), int)> {
    match p_byte(b, i) {
        Some((t, j)) => if t == 0x92 {
            match p_bin(b, j) {
                Some((name, k)) => match p_bin(b, k) {
                    Some((value, l)) => Some(((name, value), l)),
                    None => None,
                },
                None => None,
            }
        } else {
            None
        },
        None => None,
    }
}

/// `n` consecutive header pairs.
pub open spec fn p_header_list(b: Seq<u8>, i: int, n: nat) -> Option<
    (Seq<(Seq<u8>, Seq<u8>)>, int),
>
    decreases n,
{
    if n == 0 {
        Some((Seq::empty(), i))
    } else {
        match p_header_pair(b, i) {
            Some((pair, j)) => match p_header_list(b, j, (n - 1) as nat) {
                Some((rest, k)) => Some((seq![pair] + rest, k)),
                None => None,
            },
            None => None,
        }
    }
}

/// A header list: an array header followed by that many pairs.
pub open spec fn p_headers(b: Seq<u8>, i: int) -> Option<(Seq<(Seq<u8>, Seq<u8>)>, int)> {
    match p_array_header(b, i) {
        Some((n, j)) => p_header_list(b, j, n),
        None => None,
    }
}

// ---------------------------------------------------------------------------
// Parser inversion: each parser undoes its encoder
// ---------------------------------------------------------------------------

/// The bytes of `pre` appear in `b` starting at position `i`.
pub open spec fn starts_with_at(b: Seq<u8>, i: int, pre: Seq<u8>) -> bool {
    &&& 0 <= i
    &&& i + pre.len() <= b.len()
    &&& b.subrange(i, i + pre.len()) == pre
}

/// A prefix pins each byte it covers.
pub proof fn lemma_starts_with_index(b: Seq<u8>, i: int, pre: Seq<u8>, j: int)
    requires
        starts_with_at(b, i, pre),
        0 <= j < pre.len(),
    ensures
        b[i + j] == pre[j],
{
    assert(b.subrange(i, i + pre.len())[j] == b[i + j]);
}

/// Splitting a prefix made of two parts.
pub proof fn lemma_starts_with_concat(b: Seq<u8>, i: int, x: Seq<u8>, y: Seq<u8>)
    requires
        starts_with_at(b, i, x + y),
    ensures
        starts_with_at(b, i, x),
        starts_with_at(b, i + x.len(), y),
{
    assert forall|k: int| 0 <= k < x.len() implies b[i + k] == x[k] by {
        lemma_starts_with_index(b, i, x + y, k);
    }
    assert forall|k: int| 0 <= k < y.len() implies b[i + x.len() + k] == y[k] by {
        lemma_starts_with_index(b, i, x + y, x.len() + k);
    }
    assert(b.subrange(i, i + x.len() as int) =~= x);
    assert(b.subrange(i + x.len(), i + x.len() + y.len()) =~= y);
}

pub proof fn lemma_p_map_header_inv(b: Seq<u8>, i: int, n: nat)
    requires
        n < 16,
        starts_with_at(b, i, enc_map_header(n)),
    ensures
        p_map_header(b, i) == Some((n, i + 1)),
{
    lemma_starts_with_index(b, i, enc_map_header(n), 0);
}

pub proof fn lemma_p_be16_inv(b: Seq<u8>, i: int, n: nat)
    requires
        n <= 0xFFFF,
        starts_with_at(b, i, be16(n)),
    ensures
        p_be16(b, i) == Some((n, i + 2)),
{
    lemma_starts_with_index(b, i, be16(n), 0);
    lemma_starts_with_index(b, i, be16(n), 1);
    assert((n / 256) * 256 + n % 256 == n) by {
        vstd::arithmetic::div_mod::lemma_fundamental_div_mod(n as int, 256);
    }
}

pub proof fn lemma_p_be32_inv(b: Seq<u8>, i: int, n: nat)
    requires
        n <= 0xFFFF_FFFF,
        starts_with_at(b, i, be32(n)),
    ensures
        p_be32(b, i) == Some((n, i + 4)),
{
    lemma_starts_with_index(b, i, be32(n), 0);
    lemma_starts_with_index(b, i, be32(n), 1);
    lemma_starts_with_index(b, i, be32(n), 2);
    lemma_starts_with_index(b, i, be32(n), 3);
    assert((n / 0x1000000) * 0x1000000 + ((n / 0x10000) % 256) * 0x10000 + ((n / 256) % 256)
        * 256 + n % 256 == n) by {
        vstd::arithmetic::div_mod::lemma_fundamental_div_mod(n as int, 256);
        vstd::arithmetic::div_mod::lemma_fundamental_div_mod(n as int / 256, 256);
        vstd::arithmetic::div_mod::lemma_fundamental_div_mod(n as int / 0x10000, 256);
        assert(n as int / 256 / 256 == n as int / 0x10000) by {
            vstd::arithmetic::div_mod::lemma_div_denominator(n as int, 256, 256);
        }
        assert(n as int / 0x10000 / 256 == n as int / 0x1000000) by {
            vstd::arithmetic::div_mod::lemma_div_denominator(n as int, 0x10000, 256);
        }
    }
}

pub proof fn lemma_p_array_header_inv(b: Seq<u8>, i: int, n: nat)
    requires
        n <= 0xFFFF_FFFF,
        starts_with_at(b, i, enc_array_header(n)),
    ensures
        p_array_header(b, i) == Some((n, i + enc_array_header(n).len())),
{
    if n < 16 {
        lemma_starts_with_index(b, i, enc_array_header(n), 0);
    } else if n <= 0xFFFF {
        lemma_starts_with_concat(b, i, seq![0xdcu8], be16(n));
        lemma_starts_with_index(b, i, seq![0xdcu8], 0);
        lemma_p_be16_inv(b, i + 1, n);
    } else {
        lemma_starts_with_concat(b, i, seq![0xddu8], be32(n));
        lemma_starts_with_index(b, i, seq![0xddu8], 0);
        lemma_p_be32_inv(b, i + 1, n);
    }
}

pub proof fn lemma_p_take_inv(b: Seq<u8>, i: int, p: Seq<u8>)
    requires
        starts_with_at(b, i, p),
    ensures
        p_take(b, i, p.len()) == Some((p, i + p.len())),
{
}

#[verifier::rlimit(100)]
#[verifier::spinoff_prover]
pub proof fn lemma_p_str_raw_inv(b: Seq<u8>, i: int, p: Seq<u8>)
    requires
        p.len() <= 0xFFFF_FFFF,
        starts_with_at(b, i, enc_str_raw(p)),
    ensures
        p_str_raw(b, i) == Some((p, i + enc_str_raw(p).len())),
{
    let n = p.len();
    if n < 32 {
        lemma_starts_with_concat(b, i, seq![(0xa0 + n) as u8], p);
        lemma_starts_with_index(b, i, seq![(0xa0 + n) as u8], 0);
        lemma_p_take_inv(b, i + 1, p);
    } else if n <= 0xFF {
        lemma_starts_with_concat(b, i, seq![0xd9u8, n as u8], p);
        lemma_starts_with_index(b, i, seq![0xd9u8, n as u8], 0);
        lemma_starts_with_index(b, i, seq![0xd9u8, n as u8], 1);
        lemma_p_take_inv(b, i + 2, p);
    } else if n <= 0xFFFF {
        assert(seq![0xdau8] + be16(n) + p =~= seq![0xdau8] + (be16(n) + p));
        lemma_starts_with_concat(b, i, seq![0xdau8], be16(n) + p);
        lemma_starts_with_concat(b, i + 1, be16(n), p);
        lemma_starts_with_index(b, i, seq![0xdau8], 0);
        lemma_p_be16_inv(b, i + 1, n);
        lemma_p_take_inv(b, i + 3, p);
    } else {
        assert(seq![0xdbu8] + be32(n) + p =~= seq![0xdbu8] + (be32(n) + p));
        lemma_starts_with_concat(b, i, seq![0xdbu8], be32(n) + p);
        lemma_starts_with_concat(b, i + 1, be32(n), p);
        lemma_starts_with_index(b, i, seq![0xdbu8], 0);
        lemma_p_be32_inv(b, i + 1, n);
        lemma_p_take_inv(b, i + 5, p);
    }
}

pub proof fn lemma_p_str_inv(b: Seq<u8>, i: int, s: Seq<char>)
    requires
        s.len() <= 0xFFFF_FFFF,
        starts_with_at(b, i, enc_str(s)),
    ensures
        p_str_raw(b, i) == Some((ascii_bytes(s), i + enc_str(s).len())),
{
    lemma_p_str_raw_inv(b, i, ascii_bytes(s));
}

pub proof fn lemma_p_bin_inv(b: Seq<u8>, i: int, p: Seq<u8>)
    requires
        p.len() <= 0xFFFF_FFFF,
        starts_with_at(b, i, enc_bin(p)),
    ensures
        p_bin(b, i) == Some((p, i + enc_bin(p).len())),
{
    let n = p.len();
    if n <= 0xFF {
        lemma_starts_with_concat(b, i, seq![0xc4u8, n as u8], p);
        lemma_starts_with_index(b, i, seq![0xc4u8, n as u8], 0);
        lemma_starts_with_index(b, i, seq![0xc4u8, n as u8], 1);
        lemma_p_take_inv(b, i + 2, p);
    } else if n <= 0xFFFF {
        assert(seq![0xc5u8] + be16(n) + p =~= seq![0xc5u8] + (be16(n) + p));
        lemma_starts_with_concat(b, i, seq![0xc5u8], be16(n) + p);
        lemma_starts_with_concat(b, i + 1, be16(n), p);
        lemma_starts_with_index(b, i, seq![0xc5u8], 0);
        lemma_p_be16_inv(b, i + 1, n);
        lemma_p_take_inv(b, i + 3, p);
    } else {
        assert(seq![0xc6u8] + be32(n) + p =~= seq![0xc6u8] + (be32(n) + p));
        lemma_starts_with_concat(b, i, seq![0xc6u8], be32(n) + p);
        lemma_starts_with_concat(b, i + 1, be32(n), p);
        lemma_starts_with_index(b, i, seq![0xc6u8], 0);
        lemma_p_be32_inv(b, i + 1, n);
        lemma_p_take_inv(b, i + 5, p);
    }
}

pub proof fn lemma_p_bool_inv(b: Seq<u8>, i: int, v: bool)
    requires
        starts_with_at(b, i, enc_bool(v)),
    ensures
        p_bool(b, i) == Some((v, i + 1)),
{
    lemma_starts_with_index(b, i, enc_bool(v), 0);
}

pub proof fn lemma_p_uint_inv(b: Seq<u8>, i: int, n: nat)
    requires
        n <= 0xFFFF,
        starts_with_at(b, i, enc_uint(n)),
    ensures
        p_uint(b, i) == Some((n, i + enc_uint(n).len())),
{
    if n < 128 {
        lemma_starts_with_index(b, i, enc_uint(n), 0);
    } else if n <= 0xFF {
        lemma_starts_with_index(b, i, enc_uint(n), 0);
        lemma_starts_with_index(b, i, enc_uint(n), 1);
    } else {
        lemma_starts_with_concat(b, i, seq![0xcdu8], be16(n));
        lemma_starts_with_index(b, i, seq![0xcdu8], 0);
        lemma_p_be16_inv(b, i + 1, n);
    }
}

pub proof fn lemma_p_header_pair_inv(b: Seq<u8>, i: int, p: (Seq<u8>, Seq<u8>))
    requires
        p.0.len() <= 0xFFFF_FFFF,
        p.1.len() <= 0xFFFF_FFFF,
        starts_with_at(b, i, enc_header_pair(p)),
    ensures
        p_header_pair(b, i) == Some((p, i + enc_header_pair(p).len())),
{
    assert(seq![0x92u8] + enc_bin(p.0) + enc_bin(p.1) =~= seq![0x92u8] + (enc_bin(p.0)
        + enc_bin(p.1)));
    lemma_starts_with_concat(b, i, seq![0x92u8], enc_bin(p.0) + enc_bin(p.1));
    lemma_starts_with_concat(b, i + 1, enc_bin(p.0), enc_bin(p.1));
    lemma_starts_with_index(b, i, seq![0x92u8], 0);
    lemma_p_bin_inv(b, i + 1, p.0);
    lemma_p_bin_inv(b, i + 1 + enc_bin(p.0).len(), p.1);
}

/// Bounds every header entry must meet to be encodable.
pub open spec fn headers_encodable(hs: Seq<(Seq<u8>, Seq<u8>)>) -> bool {
    &&& hs.len() <= 0xFFFF_FFFF
    &&& forall|k: int|
        0 <= k < hs.len() ==> #[trigger] hs[k].0.len() <= 0xFFFF_FFFF
            && hs[k].1.len() <= 0xFFFF_FFFF
}

proof fn lemma_p_header_list_inv_from(b: Seq<u8>, i: int, hs: Seq<(Seq<u8>, Seq<u8>)>, k: int)
    requires
        headers_encodable(hs),
        0 <= k <= hs.len(),
        starts_with_at(b, i, enc_header_list_from(hs, k)),
    ensures
        p_header_list(b, i, (hs.len() - k) as nat) == Some(
            (hs.subrange(k, hs.len() as int), i + enc_header_list_from(hs, k).len()),
        ),
    decreases hs.len() - k,
{
    if k == hs.len() {
        assert(hs.subrange(k, hs.len() as int) =~= Seq::<(Seq<u8>, Seq<u8>)>::empty());
    } else {
        lemma_starts_with_concat(b, i, enc_header_pair(hs[k]), enc_header_list_from(hs, k + 1));
        lemma_p_header_pair_inv(b, i, hs[k]);
        let j = i + enc_header_pair(hs[k]).len();
        lemma_p_header_list_inv_from(b, j, hs, k + 1);
        assert(seq![hs[k]] + hs.subrange(k + 1, hs.len() as int) =~= hs.subrange(
            k,
            hs.len() as int,
        ));
    }
}

pub proof fn lemma_p_headers_inv(b: Seq<u8>, i: int, hs: Seq<(Seq<u8>, Seq<u8>)>)
    requires
        headers_encodable(hs),
        starts_with_at(b, i, enc_headers(hs)),
    ensures
        p_headers(b, i) == Some((hs, i + enc_headers(hs).len())),
{
    lemma_starts_with_concat(b, i, enc_array_header(hs.len()), enc_header_list_from(hs, 0));
    lemma_p_array_header_inv(b, i, hs.len());
    let j = i + enc_array_header(hs.len()).len();
    lemma_p_header_list_inv_from(b, j, hs, 0);
    assert(hs.subrange(0, hs.len() as int) =~= hs);
}

// ---------------------------------------------------------------------------
// Executable parsers
// ---------------------------------------------------------------------------

/// Reads one byte.
pub fn rd_byte(buf: &Vec<u8>, i: usize) -> (r: Option<(u8, usize)>)
    ensures
        match r {
            Some(v) => p_byte(buf@, i as int) == Some((v.0, v.1 as int)) && v.1 <= buf@.len(),
            None => p_byte(buf@, i as int) is None,
        },
{
    if i < buf.len() {
        Some((buf[i], i + 1))
    } else {
        None
    }
}

/// Copies `n` raw bytes out of the buffer.
pub fn rd_take(buf: &Vec<u8>, i: usize, n: usize) -> (r: Option<(Vec<u8>, usize)>)
    ensures
        match r {
            Some(v) => p_take(buf@, i as int, n as nat) == Some((v.0@, v.1 as int)) && v.1
                <= buf@.len(),
            None => p_take(buf@, i as int, n as nat) is None,
        },
{
    if i <= buf.len() && n <= buf.len() - i {
        let end: usize = i + n;
        let mut v: Vec<u8> = Vec::new();
        let mut k: usize = i;
        while k < end
            invariant
                i <= k <= end,
                end == i + n,
                end <= buf@.len(),
                v@ == buf@.subrange(i as int, k as int),
            decreases end - k,
        {
            v.push(buf[k]);
            assert(v@ =~= buf@.subrange(i as int, k as int + 1));
            k += 1;
        }
        assert(v@ == buf@.subrange(i as int, i + n as int));
        Some((v, i + n))
    } else {
        None
    }
}

/// Reads a 16-bit big-endian length.
fn rd_be16(buf: &Vec<u8>, i: usize) -> (r: Option<(usize, usize)>)
    ensures
        match r {
            Some(v) => p_be16(buf@, i as int) == Some((v.0 as nat, v.1 as int)) && v.1
                <= buf@.len(),
            None => p_be16(buf@, i as int) is None,
        },
{
    if i <= buf.len() && 2 <= buf.len() - i {
        let b0 = buf[i];
        let b1 = buf[i + 1];
        Some(((b0 as usize) * 256 + (b1 as usize), i + 2))
    } else {
        None
    }
}

/// Reads a 32-bit big-endian length.
fn rd_be32(buf: &Vec<u8>, i: usize) -> (r: Option<(usize, usize)>)
    ensures
        match r {
            Some(v) => p_be32(buf@, i as int) == Some((v.0 as nat, v.1 as int)) && v.1
                <= buf@.len(),
            None => p_be32(buf@, i as int) is None,
        },
{
    if i <= buf.len() && 4 <= buf.len() - i {
        let b0 = buf[i];
        let b1 = buf[i + 1];
        let b2 = buf[i + 2];
        let b3 = buf[i + 3];
        Some((
            (b0 as usize) * 0x1000000 + (b1 as usize) * 0x10000 + (b2 as usize) * 256 + (
            b3 as usize),
            i + 4,
        ))
    } else {
        None
    }
}

/// Reads a fixmap header.
pub fn rd_map_header(buf: &Vec<u8>, i: usize) -> (r: Option<(usize, usize)>)
    ensures
        match r {
            Some(v) => p_map_header(buf@, i as int) == Some((v.0 as nat, v.1 as int)) && v.1
                <= buf@.len(),
            None => p_map_header(buf@, i as int) is None,
        },
{
    match rd_byte(buf, i) {
        Some((t, j)) => if 0x80 <= t && t <= 0x8f {
            Some(((t - 0x80) as usize, j))
        } else {
            None
        },
        None => None,
    }
}

/// Reads an array header.
pub fn rd_array_header(buf: &Vec<u8>, i: usize) -> (r: Option<(usize, usize)>)
    ensures
        match r {
            Some(v) => p_array_header(buf@, i as int) == Some((v.0 as nat, v.1 as int)) && v.1
                <= buf@.len(),
            None => p_array_header(buf@, i as int) is None,
        },
{
    match rd_byte(buf, i) {
        Some((t, j)) => if 0x90 <= t && t <= 0x9f {
            Some(((t - 0x90) as usize, j))
        } else if t == 0xdc {
            rd_be16(buf, j)
        } else if t == 0xdd {
            rd_be32(buf, j)
        } else {
            None
        },
        None => None,
    }
}

/// Reads a string, returning its raw payload bytes.
pub fn rd_str_raw(buf: &Vec<u8>, i: usize) -> (r: Option<(Vec<u8>, usize)>)
    ensures
        match r {
            Some(v) => p_str_raw(buf@, i as int) == Some((v.0@, v.1 as int)) && v.1
                <= buf@.len(),
            None => p_str_raw(buf@, i as int) is None,
        },
{
    match rd_byte(buf, i) {
        Some((t, j)) => if 0xa0 <= t && t <= 0xbf {
            rd_take(buf, j, (t - 0xa0) as usize)
        } else if t == 0xd9 {
            match rd_byte(buf, j) {
                Some((n, k)) => rd_take(buf, k, n as usize),
                None => None,
            }
        } else if t == 0xda {
            match rd_be16(buf, j) {
                Some((n, k)) => rd_take(buf, k, n),
                None => None,
            }
        } else if t == 0xdb {
            match rd_be32(buf, j) {
                Some((n, k)) => rd_take(buf, k, n),
                None => None,
            }
        } else {
            None
        },
        None => None,
    }
}

/// Reads a binary byte string.
pub fn rd_bin(buf: &Vec<u8>, i: usize) -> (r: Option<(Vec<u8>, usize)>)
    ensures
        match r {
            Some(v) => p_bin(buf@, i as int) == Some((v.0@, v.1 as int)) && v.1 <= buf@.len(),
            None => p_bin(buf@, i as int) is None,
        },
{
    match rd_byte(buf, i) {
        Some((t, j)) => if t == 0xc4 {
            match rd_byte(buf, j) {
                Some((n, k)) => rd_take(buf, k, n as usize),
                None => None,
            }
        } else if t == 0xc5 {
            match rd_be16(buf, j) {
                Some((n, k)) => rd_take(buf, k, n),
                None => None,
            }
        } else if t == 0xc6 {
            match rd_be32(buf, j) {
                Some((n, k)) => rd_take(buf, k, n),
                None => None,
            }
        } else {
            None
        },
        None => None,
    }
}

/// Reads a boolean.
pub fn rd_bool(buf: &Vec<u8>, i: usize) -> (r: Option<(bool, usize)>)
    ensures
        match r {
            Some(v) => p_bool(buf@, i as int) == Some((v.0, v.1 as int)) && v.1 <= buf@.len(),
            None => p_bool(buf@, i as int) is None,
        },
{
    match rd_byte(buf, i) {
        Some((t, j)) => if t == 0xc2 {
            Some((false, j))
        } else if t == 0xc3 {
            Some((true, j))
        } else {
            None
        },
        None => None,
    }
}

/// Reads an unsigned integer of up to 32 bits.
pub fn rd_uint(buf: &Vec<u8>, i: usize) -> (r: Option<(usize, usize)>)
    ensures
        match r {
            Some(v) => p_uint(buf@, i as int) == Some((v.0 as nat, v.1 as int)) && v.1
                <= buf@.len(),
            None => p_uint(buf@, i as int) is None,
        },
{
    match rd_byte(buf, i) {
        Some((t, j)) => if t < 0x80 {
            Some((t as usize, j))
        } else if t == 0xcc {
            match rd_byte(buf, j) {
                Some((n, k)) => Some((n as usize, k)),
                None => None,
            }
        } else if t == 0xcd {
            rd_be16(buf, j)
        } else if t == 0xce {
            rd_be32(buf, j)
        } else {
            None
        },
        None => None,
    }
}

/// Reads one `[name, value]` header pair.
fn rd_header_pair(buf: &Vec<u8>, i: usize) -> (r: Option<((Vec<u8>, Vec<u8>), usize)>)
    ensures
        match r {
            Some(v) => p_header_pair(buf@, i as int) == Some(((v.0.0@, v.0.1@), v.1 as int))
                && v.1 <= buf@.len(),
            None => p_header_pair(buf@, i as int) is None,
        },
{
    match rd_byte(buf, i) {
        Some((t, j)) => if t == 0x92 {
            match rd_bin(buf, j) {
                Some((name, k)) => match rd_bin(buf, k) {
                    Some((value, l)) => Some(((name, value), l)),
                    None => None,
                },
                None => None,
            }
        } else {
            None
        },
        None => None,
    }
}

/// Reads a whole header list.
pub fn rd_headers(buf: &Vec<u8>, i: usize) -> (r: Option<(Vec<(Vec<u8>, Vec<u8>)>, usize)>)
    ensures
        match r {
            Some(v) => p_headers(buf@, i as int) == Some((header_views(v.0@), v.1 as int))
                && v.1 <= buf@.len(),
            None => p_headers(buf@, i as int) is None,
        },
{
    let (n, mut pos) = match rd_array_header(buf, i) {
        Some(v) => v,
        None => {
            return None;
        },
    };
    let mut out: Vec<(Vec<u8>, Vec<u8>)> = Vec::new();
    let mut k: usize = 0;
    while k < n
        invariant
            k <= n,
            pos <= buf@.len(),
            p_headers(buf@, i as int) == match p_header_list(buf@, pos as int, (n - k) as nat) {
                Some((rest, end)) => Some((header_views(out@) + rest, end)),
                None => None::<(Seq<(Seq<u8>, Seq<u8>)>, int)>,
            },
        decreases n - k,
    {
        match rd_header_pair(buf, pos) {
            Some((pair, next)) => {
                let ghost prev = out@;
                out.push(pair);
                proof {
                    assert(header_views(out@) =~= header_views(prev) + seq![(pair.0@, pair.1@)]);
                    assert forall|rest: Seq<(Seq<u8>, Seq<u8>)>|
                        true implies header_views(prev) + (seq![(pair.0@, pair.1@)] + rest)
                        =~= header_views(out@) + rest by {}
                }
                pos = next;
                k += 1;
            },
            None => {
                return None;
            },
        }
    }
    proof {
        assert(header_views(out@) + Seq::<(Seq<u8>, Seq<u8>)>::empty() =~= header_views(out@));
    }
    Some((out, pos))
}

// ---------------------------------------------------------------------------
// ASCII strings and their wire bytes
// ---------------------------------------------------------------------------

/// Every byte is an ASCII code point.
pub open spec fn all_ascii_bytes(b: Seq<u8>) -> bool {
    forall|i: int| 0 <= i < b.len() ==> #[trigger] b[i] < 128
}

/// The characters an ASCII byte sequence spells.
pub open spec fn chars_of_bytes(b: Seq<u8>) -> Seq<char> {
    Seq::new(b.len(), |i: int| b[i] as char)
}

/// Turning ASCII characters into bytes and back is the identity.
pub proof fn lemma_ascii_chars_bytes_id(s: Seq<char>)
    requires
        vstd::utf8::is_ascii_chars(s),
    ensures
        all_ascii_bytes(ascii_bytes(s)),
        chars_of_bytes(ascii_bytes(s)) == s,
{
    assert(chars_of_bytes(ascii_bytes(s)) =~= s);
}

/// Turning ASCII bytes into characters and back is the identity.
pub proof fn lemma_ascii_bytes_chars_id(b: Seq<u8>)
    requires
        all_ascii_bytes(b),
    ensures
        vstd::utf8::is_ascii_chars(chars_of_bytes(b)),
        ascii_bytes(chars_of_bytes(b)) == b,
{
    assert(ascii_bytes(chars_of_bytes(b)) =~= b);
}

/// Relies on `String::push`: appends exactly one character.
#[verifier::external_body]
fn push_char(s: &mut String, c: char)
    ensures
        final(s)@ == old(s)@.push(c),
{
    s.push(c);
}

/// Rebuilds a string from parsed payload bytes; fails exactly when a byte is
/// not ASCII.
pub fn ascii_string_from_bytes(v: &Vec<u8>) -> (r: Option<String>)
    ensures
        r is Some <==> all_ascii_bytes(v@),
        r is Some ==> r.unwrap()@ == chars_of_bytes(v@),
{
    let mut s = String::new();
    let mut i: usize = 0;
    while i < v.len()
        invariant
            i <= v@.len(),
            forall|j: int| 0 <= j < i ==> #[trigger] v@[j] < 128,
            s@ == chars_of_bytes(v@.subrange(0, i as int)),
        decreases v@.len() - i,
    {
        let b = v[i];
        if b >= 128 {
            return None;
        }
        push_char(&mut s, b as char);
        assert(s@ =~= chars_of_bytes(v@.subrange(0, i as int + 1)));
        i += 1;
    }
    assert(v@.subrange(0, v@.len() as int) =~= v@);
    Some(s)
}

/// A map key: a string that must spell the expected field name.
pub open spec fn p_key(b: Seq<u8>, i: int, name: Seq<char>) -> Option<int> {
    match p_str_raw(b, i) {
        Some((k, j)) => if k == ascii_bytes(name) {
            Some(j)
        } else {
            None
        },
        None => None,
    }
}

pub proof fn lemma_p_key_inv(b: Seq<u8>, i: int, name: Seq<char>)
    requires
        name.len() <= 0xFFFF_FFFF,
        starts_with_at(b, i, enc_str(name)),
    ensures
        p_key(b, i, name) == Some(i + enc_str(name).len()),
{
    lemma_p_str_inv(b, i, name);
}

/// Reads a map key and requires it to spell `name`.
pub fn rd_key(buf: &Vec<u8>, i: usize, name: &str) -> (r: Option<usize>)
    requires
        name.is_ascii(),
    ensures
        match r {
            Some(j) => p_key(buf@, i as int, name@) == Some(j as int) && j <= buf@.len(),
            None => p_key(buf@, i as int, name@) is None,
        },
{
    broadcast use vstd::string::is_ascii_spec_bytes;

    match rd_str_raw(buf, i) {
        Some((k, j)) => {
            let nb = name.as_bytes_vec();
            assert(nb@ =~= ascii_bytes(name@));
            if bytes_eq(&k, &nb) {
                Some(j)
            } else {
                None
            }
        },
        None => None,
    }
}

// ---------------------------------------------------------------------------
// Key/value fields: a map key followed by its value
// ---------------------------------------------------------------------------

/// A key and a string value.
pub open spec fn kv_str(name: Seq<char>, s: Seq<char>) -> Seq<u8> {
    enc_str(name) + enc_str(s)
}

/// A key and a binary value.
pub open spec fn kv_bin(name: Seq<char>, v: Seq<u8>) -> Seq<u8> {
    enc_str(name) + enc_bin(v)
}

/// A key and a boolean value.
pub open spec fn kv_bool(name: Seq<char>, v: bool) -> Seq<u8> {
    enc_str(name) + enc_bool(v)
}

/// A key and a header-list value.
pub open spec fn kv_headers(name: Seq<char>, hs: Seq<(Seq<u8>, Seq<u8>)>) -> Seq<u8> {
    enc_str(name) + enc_headers(hs)
}

/// A named string field: the key must spell `name`; the payload is returned
/// raw.
#[verifier::opaque]
pub open spec fn p_str_field(b: Seq<u8>, i: int, name: Seq<char>) -> Option<(Seq<u8>, int)> {
    match p_key(b, i, name) {
        Some(j) => p_str_raw(b, j),
        None => None,
    }
}

/// A named binary field.
#[verifier::opaque]
pub open spec fn p_bin_field(b: Seq<u8>, i: int, name: Seq<char>) -> Option<(Seq<u8>, int)> {
    match p_key(b, i, name) {
        Some(j) => p_bin(b, j),
        None => None,
    }
}

/// A named boolean field.
#[verifier::opaque]
pub open spec fn p_bool_field(b: Seq<u8>, i: int, name: Seq<char>) -> Option<(bool, int)> {
    match p_key(b, i, name) {
        Some(j) => p_bool(b, j),
        None => None,
    }
}

/// A named header-list field.
#[verifier::opaque]
pub open spec fn p_headers_field(b: Seq<u8>, i: int, name: Seq<char>) -> Option<
    (Seq<(Seq<u8>, Seq<u8>)>, int),
> {
    match p_key(b, i, name) {
        Some(j) => p_headers(b, j),
        None => None,
    }
}

pub proof fn lemma_p_str_field_inv(b: Seq<u8>, i: int, name: Seq<char>, s: Seq<char>)
    requires
        name.len() <= 0xFFFF_FFFF,
        s.len() <= 0xFFFF_FFFF,
        starts_with_at(b, i, kv_str(name, s)),
    ensures
        p_str_field(b, i, name) == Some((ascii_bytes(s), i + kv_str(name, s).len())),
{
    reveal(p_str_field);
    lemma_starts_with_concat(b, i, enc_str(name), enc_str(s));
    lemma_p_key_inv(b, i, name);
    lemma_p_str_inv(b, i + enc_str(name).len(), s);
}

pub proof fn lemma_p_bin_field_inv(b: Seq<u8>, i: int, name: Seq<char>, v: Seq<u8>)
    requires
        name.len() <= 0xFFFF_FFFF,
        v.len() <= 0xFFFF_FFFF,
        starts_with_at(b, i, kv_bin(name, v)),
    ensures
        p_bin_field(b, i, name) == Some((v, i + kv_bin(name, v).len())),
{
    reveal(p_bin_field);
    lemma_starts_with_concat(b, i, enc_str(name), enc_bin(v));
    lemma_p_key_inv(b, i, name);
    lemma_p_bin_inv(b, i + enc_str(name).len(), v);
}

pub proof fn lemma_p_bool_field_inv(b: Seq<u8>, i: int, name: Seq<char>, v: bool)
    requires
        name.len() <= 0xFFFF_FFFF,
        starts_with_at(b, i, kv_bool(name, v)),
    ensures
        p_bool_field(b, i, name) == Some((v, i + kv_bool(name, v).len())),
{
    reveal(p_bool_field);
    lemma_starts_with_concat(b, i, enc_str(name), enc_bool(v));
    lemma_p_key_inv(b, i, name);
    lemma_p_bool_inv(b, i + enc_str(name).len(), v);
}

pub proof fn lemma_p_headers_field_inv(
    b: Seq<u8>,
    i: int,
    name: Seq<char>,
    hs: Seq<(Seq<u8>, Seq<u8>)>,
)
    requires
        name.len() <= 0xFFFF_FFFF,
        headers_encodable(hs),
        starts_with_at(b, i, kv_headers(name, hs)),
    ensures
        p_headers_field(b, i, name) == Some((hs, i + kv_headers(name, hs).len())),
{
    reveal(p_headers_field);
    lemma_starts_with_concat(b, i, enc_str(name), enc_headers(hs));
    lemma_p_key_inv(b, i, name);
    lemma_p_headers_inv(b, i + enc_str(name).len(), hs);
}

/// Reads a named string field.
pub fn rd_str_field(buf: &Vec<u8>, i: usize, name: &str) -> (r: Option<(Vec<u8>, usize)>)
    requires
        name.is_ascii(),
    ensures
        match r {
            Some(v) => p_str_field(buf@, i as int, name@) == Some((v.0@, v.1 as int)) && v.1
                <= buf@.len(),
            None => p_str_field(buf@, i as int, name@) is None,
        },
{
    proof {
        reveal(p_str_field);
    }
    match rd_key(buf, i, name) {
        Some(j) => rd_str_raw(buf, j),
        None => None,
    }
}

/// Reads a named binary field.
pub fn rd_bin_field(buf: &Vec<u8>, i: usize, name: &str) -> (r: Option<(Vec<u8>, usize)>)
    requires
        name.is_ascii(),
    ensures
        match r {
            Some(v) => p_bin_field(buf@, i as int, name@) == Some((v.0@, v.1 as int)) && v.1
                <= buf@.len(),
            None => p_bin_field(buf@, i as int, name@) is None,
        },
{
    proof {
        reveal(p_bin_field);
    }
    match rd_key(buf, i, name) {
        Some(j) => rd_bin(buf, j),
        None => None,
    }
}

/// Reads a named boolean field.
pub fn rd_bool_field(buf: &Vec<u8>, i: usize, name: &str) -> (r: Option<(bool, usize)>)
    requires
        name.is_ascii(),
    ensures
        match r {
            Some(v) => p_bool_field(buf@, i as int, name@) == Some((v.0, v.1 as int)) && v.1
                <= buf@.len(),
            None => p_bool_field(buf@, i as int, name@) is None,
        },
{
    proof {
        reveal(p_bool_field);
    }
    match rd_key(buf, i, name) {
        Some(j) => rd_bool(buf, j),
        None => None,
    }
}

/// Reads a named header-list field.
pub fn rd_headers_field(buf: &Vec<u8>, i: usize, name: &str) -> (r: Option<
    (Vec<(Vec<u8>, Vec<u8>)>, usize),
>)
    requires
        name.is_ascii(),
    ensures
        match r {
            Some(v) => p_headers_field(buf@, i as int, name@) == Some(
                (header_views(v.0@), v.1 as int),
            ) && v.1 <= buf@.len(),
            None => p_headers_field(buf@, i as int, name@) is None,
        },
{
    proof {
        reveal(p_headers_field);
    }
    match rd_key(buf, i, name) {
        Some(j) => rd_headers(buf, j),
        None => None,
    }
}

/// Appends a key and a string value.
pub fn write_kv_str(buf: &mut Vec<u8>, name: &str, s: &str)
    requires
        name.is_ascii(),
        name@.len() <= 0xFFFF_FFFF,
        s.is_ascii(),
        s@.len() <= 0xFFFF_FFFF,
    ensures
        final(buf)@ == old(buf)@ + kv_str(name@, s@),
{
    write_str(buf, name);
    write_str(buf, s);
    assert(buf@ =~= old(buf)@ + kv_str(name@, s@));
}

/// Appends a key and a binary value.
pub fn write_kv_bin(buf: &mut Vec<u8>, name: &str, v: &[u8])
    requires
        name.is_ascii(),
        name@.len() <= 0xFFFF_FFFF,
        v@.len() <= 0xFFFF_FFFF,
    ensures
        final(buf)@ == old(buf)@ + kv_bin(name@, v@),
{
    write_str(buf, name);
    write_bin(buf, v);
    assert(buf@ =~= old(buf)@ + kv_bin(name@, v@));
}

/// Appends a key and a boolean value.
pub fn write_kv_bool(buf: &mut Vec<u8>, name: &str, v: bool)
    requires
        name.is_ascii(),
        name@.len() <= 0xFFFF_FFFF,
    ensures
        final(buf)@ == old(buf)@ + kv_bool(name@, v),
{
    write_str(buf, name);
    write_bool(buf, v);
    assert(buf@ =~= old(buf)@ + kv_bool(name@, v));
}

/// Appends a key and a header-list value.
pub fn write_kv_headers(buf: &mut Vec<u8>, name: &str, hs: &Vec<(Vec<u8>, Vec<u8>)>)
    requires
        name.is_ascii(),
        name@.len() <= 0xFFFF_FFFF,
        hs@.len() <= 0xFFFF_FFFF,
        forall|i: int|
            0 <= i < hs@.len() ==> #[trigger] hs@[i].0@.len() <= 0xFFFF_FFFF
                && hs@[i].1@.len() <= 0xFFFF_FFFF,
    ensures
        final(buf)@ == old(buf)@ + kv_headers(name@, header_views(hs@)),
{
    write_str(buf, name);
    write_headers(buf, hs);
    assert(buf@ =~= old(buf)@ + kv_headers(name@, header_views(hs@)));
}

/// Compares two byte vectors.
pub fn bytes_eq(a: &Vec<u8>, b: &Vec<u8>) -> (r: bool)
    ensures
        r == (a@ == b@),
{
    if a.len() != b.len() {
        assert(a@ != b@);
        return false;
    }
    let mut i: usize = 0;
    while i < a.len()
        invariant
            i <= a@.len(),
            a@.len() == b@.len(),
            forall|j: int| 0 <= j < i ==> #[trigger] a@[j] == b@[j],
        decreases a@.len() - i,
    {
        if a[i] != b[i] {
            return false;
        }
        i += 1;
    }
    assert(a@ =~= b@);
    true
}

} // verus!
