//! A small self-describing byte format: little-endian integers and
//! length-prefixed chunks, with UTF-8 text carried as a chunk of its
//! encoded bytes. Every reader is exact: it returns precisely the value
//! whose encoding begins at the given offset, or nothing.

use vstd::prelude::*;
use vstd::bytes::{
    spec_u64_to_le_bytes, spec_u64_from_le_bytes, lemma_auto_spec_u64_to_from_le_bytes,
    spec_u128_to_le_bytes, spec_u128_from_le_bytes, lemma_auto_spec_u128_to_from_le_bytes,
    u64_to_le_bytes, u64_from_le_bytes, u128_to_le_bytes, u128_from_le_bytes,
};
use vstd::utf8::{encode_utf8, decode_utf8, valid_utf8};
use vstd::string::{StrSliceExecFns, StringSliceAdditionalSpecFns};

verus! {

/// Eight little-endian bytes.
pub open spec fn enc_u64(x: u64) -> Seq<u8> {
    spec_u64_to_le_bytes(x)
}

/// Sixteen little-endian bytes.
pub open spec fn enc_u128(x: u128) -> Seq<u8> {
    spec_u128_to_le_bytes(x)
}

/// A chunk: the payload length as a `u64`, then the payload.
pub open spec fn enc_chunk(b: Seq<u8>) -> Seq<u8>
    recommends
        b.len() <= u64::MAX,
{
    enc_u64(b.len() as u64) + b
}

/// Text: a chunk holding the UTF-8 encoding of the characters.
pub open spec fn enc_str(s: Seq<char>) -> Seq<u8> {
    enc_chunk(encode_utf8(s))
}

/// Read a `u64` at `off`; `None` when fewer than eight bytes remain.
pub open spec fn dec_u64(b: Seq<u8>, off: int) -> Option<(u64, int)> {
    if 0 <= off && off + 8 <= b.len() {
        Some((spec_u64_from_le_bytes(b.subrange(off, off + 8)), off + 8))
    } else {
        None
    }
}

/// Read a `u128` at `off`; `None` when fewer than sixteen bytes remain.
pub open spec fn dec_u128(b: Seq<u8>, off: int) -> Option<(u128, int)> {
    if 0 <= off && off + 16 <= b.len() {
        Some((spec_u128_from_le_bytes(b.subrange(off, off + 16)), off + 16))
    } else {
        None
    }
}

/// Read a chunk at `off`; `None` when the length prefix or payload is cut short.
pub open spec fn dec_chunk(b: Seq<u8>, off: int) -> Option<(Seq<u8>, int)> {
    match dec_u64(b, off) {
        Option::None => Option::None,
        Option::Some((n, o2)) => if o2 + n <= b.len() {
            Option::Some((b.subrange(o2, o2 + n), o2 + n))
        } else {
            Option::None
        },
    }
}

/// Read text at `off`; `None` when the chunk is cut short or is not UTF-8.
pub open spec fn dec_str(b: Seq<u8>, off: int) -> Option<(Seq<char>, int)> {
    match dec_chunk(b, off) {
        Option::None => Option::None,
        Option::Some((bs, o2)) => if valid_utf8(bs) {
            Option::Some((decode_utf8(bs), o2))
        } else {
            Option::None
        },
    }
}

pub proof fn lemma_enc_u64_len(x: u64)
    ensures
        enc_u64(x).len() == 8,
{
    lemma_auto_spec_u64_to_from_le_bytes();
}

pub proof fn lemma_enc_u128_len(x: u128)
    ensures
        enc_u128(x).len() == 16,
{
    lemma_auto_spec_u128_to_from_le_bytes();
}

/// Reading at the start of an embedded `u64` encoding yields it back.
pub proof fn lemma_dec_u64_peel(b: Seq<u8>, off: int, x: u64)
    requires
        0 <= off,
        off + 8 <= b.len(),
        b.subrange(off, off + 8) == enc_u64(x),
    ensures
        dec_u64(b, off) == Some((x, off + 8)),
{
    lemma_auto_spec_u64_to_from_le_bytes();
}

/// Reading at the start of an embedded `u128` encoding yields it back.
pub proof fn lemma_dec_u128_peel(b: Seq<u8>, off: int, x: u128)
    requires
        0 <= off,
        off + 16 <= b.len(),
        b.subrange(off, off + 16) == enc_u128(x),
    ensures
        dec_u128(b, off) == Some((x, off + 16)),
{
    lemma_auto_spec_u128_to_from_le_bytes();
    assert(b.subrange(off, off + 16) == spec_u128_to_le_bytes(x));
    assert(spec_u128_from_le_bytes(spec_u128_to_le_bytes(x)) == x);
}

/// Reading at the start of an embedded chunk encoding yields the payload.
pub proof fn lemma_dec_chunk_peel(b: Seq<u8>, off: int, p: Seq<u8>)
    requires
        0 <= off,
        p.len() <= u64::MAX,
        off + 8 + p.len() <= b.len(),
        b.subrange(off, off + 8 + p.len()) == enc_chunk(p),
    ensures
        dec_chunk(b, off) == Some((p, off + 8 + p.len())),
{
    lemma_enc_u64_len(p.len() as u64);
    assert(b.subrange(off, off + 8) =~= enc_chunk(p).subrange(0, 8)) by {
        assert(b.subrange(off, off + 8) =~= b.subrange(off, off + 8 + p.len()).subrange(0, 8));
    }
    assert(enc_chunk(p).subrange(0, 8) =~= enc_u64(p.len() as u64));
    lemma_dec_u64_peel(b, off, p.len() as u64);
    assert(b.subrange(off + 8, off + 8 + p.len()) =~= p) by {
        assert(b.subrange(off + 8, off + 8 + p.len()) =~= b.subrange(
            off,
            off + 8 + p.len(),
        ).subrange(8, 8 + p.len() as int));
        assert(enc_chunk(p).subrange(8, 8 + p.len() as int) =~= p);
    }
}

/// Reading at the start of embedded text yields the characters back.
pub proof fn lemma_dec_str_peel(b: Seq<u8>, off: int, s: Seq<char>)
    requires
        0 <= off,
        encode_utf8(s).len() <= u64::MAX,
        off + 8 + encode_utf8(s).len() <= b.len(),
        b.subrange(off, off + 8 + encode_utf8(s).len()) == enc_str(s),
    ensures
        dec_str(b, off) == Some((s, off + 8 + encode_utf8(s).len())),
{
    lemma_dec_chunk_peel(b, off, encode_utf8(s));
    vstd::utf8::encode_utf8_valid_utf8(s);
    vstd::utf8::encode_utf8_decode_utf8(s);
}

/// Encoding text distributes over concatenation.
pub proof fn lemma_encode_utf8_concat(a: Seq<char>, b: Seq<char>)
    ensures
        encode_utf8(a + b) == encode_utf8(a) + encode_utf8(b),
    decreases a.len(),
{
    if a.len() == 0 {
        assert(a + b =~= b);
        assert(encode_utf8(a) =~= Seq::<u8>::empty());
        assert(encode_utf8(a) + encode_utf8(b) =~= encode_utf8(b));
    } else {
        assert((a + b)[0] == a[0]);
        assert((a + b).drop_first() =~= a.drop_first() + b);
        lemma_encode_utf8_concat(a.drop_first(), b);
        assert(encode_utf8(a + b) =~= encode_utf8(a) + encode_utf8(b)) by {
            assert(encode_utf8(a + b) == vstd::utf8::encode_scalar((a + b)[0] as u32)
                + encode_utf8((a + b).drop_first()));
        }
    }
}

/// One character encodes to at most four bytes.
pub proof fn lemma_encode_char_len(c: char)
    ensures
        1 <= encode_utf8(seq![c]).len() <= 4,
{
    vstd::utf8::char_is_scalar(c);
    assert(seq![c].drop_first() =~= Seq::<char>::empty());
    assert(encode_utf8(seq![c].drop_first()) =~= Seq::<u8>::empty());
    assert(seq![c][0] == c);
    assert(encode_utf8(seq![c]) =~= vstd::utf8::encode_scalar(c as u32) + Seq::<u8>::empty());
    assert(vstd::utf8::encode_scalar(c as u32) + Seq::<u8>::empty() =~= vstd::utf8::encode_scalar(
        c as u32,
    ));
}

/// A decoded text's encoded length is the chunk length that carried it.
pub proof fn lemma_dec_str_len(b: Seq<u8>, off: int, s: Seq<char>, end: int)
    requires
        dec_str(b, off) == Some((s, end)),
    ensures
        encode_utf8(s).len() == end - off - 8,
        off + 8 <= end <= b.len(),
{
    let p = b.subrange(off + 8, end);
    vstd::utf8::decode_utf8_encode_utf8(p);
}

/// A sequence of bytes below 128 is valid UTF-8.
pub proof fn lemma_ascii_bytes_valid_utf8(b: Seq<u8>)
    requires
        forall|i: int| 0 <= i < b.len() ==> b[i] < 128,
    ensures
        valid_utf8(b),
{
    assert(vstd::utf8::partial_valid_utf8(b, 0)) by {
        assert(b.subrange(0, 0) =~= Seq::<u8>::empty());
    }
    assert forall|i: int|
        0 <= 0 <= i < b.len() <= b.len() implies #[trigger] vstd::utf8::is_leading_byte_width_1(
        b[i],
    ) by {}
    vstd::utf8::partial_valid_utf8_extend_ascii_block(b, 0, b.len() as int);
    assert(b.subrange(0, b.len() as int) =~= b);
}

/// Copy `v[off .. off + len]`.
pub fn copy_range(v: &Vec<u8>, off: usize, len: usize) -> (r: Vec<u8>)
    requires
        off + len <= v@.len(),
    ensures
        r@ == v@.subrange(off as int, off as int + len as int),
{
    let n = v.len();
    let mut r: Vec<u8> = Vec::new();
    let mut i: usize = 0;
    while i < len
        invariant
            i <= len,
            off + len <= n,
            n == v@.len(),
            r@ == v@.subrange(off as int, off as int + i as int),
        decreases len - i,
    {
        r.push(v[off + i]);
        proof {
            assert(r@ =~= v@.subrange(off as int, off as int + (i + 1) as int));
        }
        i += 1;
    }
    r
}

/// Append the encoding of a `u64`.
pub fn write_u64(out: &mut Vec<u8>, x: u64)
    ensures
        final(out)@ == old(out)@ + enc_u64(x),
{
    let mut s = u64_to_le_bytes(x);
    out.append(&mut s);
}

/// Append the encoding of a `u128`.
pub fn write_u128(out: &mut Vec<u8>, x: u128)
    ensures
        final(out)@ == old(out)@ + enc_u128(x),
{
    let mut s = u128_to_le_bytes(x);
    out.append(&mut s);
}

/// Append the encoding of a chunk.
pub fn write_chunk(out: &mut Vec<u8>, b: &Vec<u8>)
    requires
        old(out)@.len() + 8 + b@.len() <= usize::MAX,
    ensures
        final(out)@ == old(out)@ + enc_chunk(b@),
{
    write_u64(out, b.len() as u64);
    out.extend_from_slice(b.as_slice());
    proof {
        assert(final(out)@ =~= old(out)@ + enc_chunk(b@));
    }
}

/// Append the encoding of text.
pub fn write_str(out: &mut Vec<u8>, s: &str)
    requires
        old(out)@.len() + 8 + s.spec_bytes().len() <= usize::MAX,
    ensures
        final(out)@ == old(out)@ + enc_str(s@),
        final(out)@.len() == old(out)@.len() + 8 + s.spec_bytes().len(),
{
    let b = s.as_bytes_vec();
    write_chunk(out, &b);
    proof {
        lemma_enc_u64_len(b@.len() as u64);
    }
}

/// Read a `u64` at `off`.
pub fn read_u64(b: &Vec<u8>, off: usize) -> (r: Option<(u64, usize)>)
    ensures
        match r {
            Some((x, o2)) => dec_u64(b@, off as int) == Some((x, o2 as int)),
            None => dec_u64(b@, off as int) is None,
        },
{
    if off <= b.len() && b.len() - off >= 8 {
        let s = copy_range(b, off, 8);
        let x = u64_from_le_bytes(s.as_slice());
        Some((x, off + 8))
    } else {
        None
    }
}

/// Read a `u128` at `off`.
pub fn read_u128(b: &Vec<u8>, off: usize) -> (r: Option<(u128, usize)>)
    ensures
        match r {
            Some((x, o2)) => dec_u128(b@, off as int) == Some((x, o2 as int)),
            None => dec_u128(b@, off as int) is None,
        },
{
    if off <= b.len() && b.len() - off >= 16 {
        let s = copy_range(b, off, 16);
        let x = u128_from_le_bytes(s.as_slice());
        Some((x, off + 16))
    } else {
        None
    }
}

/// Read a chunk at `off`.
pub fn read_chunk(b: &Vec<u8>, off: usize) -> (r: Option<(Vec<u8>, usize)>)
    ensures
        match r {
            Some((p, o2)) => dec_chunk(b@, off as int) == Some((p@, o2 as int)),
            None => dec_chunk(b@, off as int) is None,
        },
{
    match read_u64(b, off) {
        None => None,
        Some((n, o2)) => {
            if n <= (b.len() - o2) as u64 {
                let len = n as usize;
                let p = copy_range(b, o2, len);
                Some((p, o2 + len))
            } else {
                None
            }
        },
    }
}

/// Relies on `String::from_utf8`: it succeeds exactly on valid UTF-8 input
/// and then returns the decoded text.
#[verifier::external_body]
pub fn string_from_bytes(b: Vec<u8>) -> (r: Option<String>)
    ensures
        r matches Some(s) ==> valid_utf8(b@) && s@ == decode_utf8(b@),
        r is None ==> !valid_utf8(b@),
{
    String::from_utf8(b).ok()
}

/// Text whose UTF-8 bytes are the given ASCII bytes.
pub fn ascii_string(b: Vec<u8>) -> (r: String)
    requires
        forall|i: int| 0 <= i < b@.len() ==> b@[i] < 128,
    ensures
        encode_utf8(r@) == b@,
{
    proof {
        lemma_ascii_bytes_valid_utf8(b@);
        vstd::utf8::decode_utf8_encode_utf8(b@);
    }
    match string_from_bytes(b) {
        Some(s) => s,
        None => {
            proof {
                assert(false);
            }
            String::new()
        },
    }
}

/// Text decoded from bytes already known to be valid UTF-8.
pub fn string_from_utf8_text(b: Vec<u8>) -> (r: String)
    requires
        valid_utf8(b@),
    ensures
        r@ == decode_utf8(b@),
{
    match string_from_bytes(b) {
        Some(s) => s,
        None => {
            proof {
                assert(false);
            }
            String::new()
        },
    }
}

/// Read text at `off`.
pub fn read_string(b: &Vec<u8>, off: usize) -> (r: Option<(String, usize)>)
    ensures
        match r {
            Some((s, o2)) => dec_str(b@, off as int) == Some((s@, o2 as int)),
            None => dec_str(b@, off as int) is None,
        },
{
    match read_chunk(b, off) {
        None => None,
        Some((p, o2)) => match string_from_bytes(p) {
            None => None,
            Some(s) => Some((s, o2)),
        },
    }
}

} // verus!
