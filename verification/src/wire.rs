//! Primitive encodings of the plugin-message payloads: fixed-width big-endian
//! integers, raw bytes, booleans, the base-128 length prefix, and
//! length-prefixed UTF-8 strings.
//!
//! Every field has a spec function that says what a field at the front of a
//! byte sequence is, a reading method on [`Reader`] that is proved against it,
//! and a writer for its canonical form.

use vstd::prelude::*;
use vstd::slice::slice_subrange;
use vstd::string::StringExecFns;
use vstd::utf8::{
    decode_utf8, encode_utf8, encode_utf8_decode_utf8, encode_utf8_valid_utf8, valid_utf8,
};

verus! {

/// Why a payload could not be decoded.
#[derive(Clone, Copy, Debug, PartialEq, Eq, Structural)]
pub enum DecodeError {
    /// Fewer bytes remain than the next field needs.
    TruncatedInput,
    /// The bytes of a string field are not UTF-8.
    InvalidUtf8,
    /// A boolean field holds a byte that is no boolean. Booleans on these
    /// channels are read as zero or nonzero, so no reader in this crate
    /// reports it.
    InvalidBoolean,
}

/// The value of four bytes read as an unsigned big-endian integer.
pub open spec fn be_u32(b: Seq<u8>) -> int
    recommends
        b.len() == 4,
{
    b[0] * 0x100_0000 + b[1] * 0x1_0000 + b[2] * 0x100 + b[3]
}

/// The value of eight bytes read as an unsigned big-endian integer.
pub open spec fn be_u64(b: Seq<u8>) -> int
    recommends
        b.len() == 8,
{
    be_u32(b.take(4)) * 0x1_0000_0000 + be_u32(b.skip(4))
}

/// The two's complement reading of an unsigned 32-bit value.
pub open spec fn signed32(u: int) -> int {
    if u >= 0x8000_0000 {
        u - 0x1_0000_0000
    } else {
        u
    }
}

/// The unsigned 32-bit value whose two's complement reading is `v`.
pub open spec fn unsigned32(v: int) -> int {
    if v < 0 {
        v + 0x1_0000_0000
    } else {
        v
    }
}

/// The signed 32-bit integer that four big-endian bytes stand for.
pub open spec fn be_i32(b: Seq<u8>) -> int
    recommends
        b.len() == 4,
{
    signed32(be_u32(b))
}

/// The four big-endian bytes of an unsigned 32-bit value.
pub open spec fn be_bytes_u32(u: int) -> Seq<u8>
    recommends
        0 <= u < 0x1_0000_0000,
{
    seq![
        (u / 0x100_0000) as u8,
        (u / 0x1_0000 % 0x100) as u8,
        (u / 0x100 % 0x100) as u8,
        (u % 0x100) as u8,
    ]
}

/// The wire form of a signed 32-bit integer: four bytes, big-endian, two's
/// complement.
pub open spec fn be_bytes_i32(v: i32) -> Seq<u8> {
    be_bytes_u32(unsigned32(v as int))
}

/// The eight big-endian bytes of an unsigned 64-bit value.
pub open spec fn be_bytes_u64(u: u64) -> Seq<u8> {
    be_bytes_u32(u as int / 0x1_0000_0000) + be_bytes_u32(u as int % 0x1_0000_0000)
}

/// The wire form of a boolean: one byte, `1` for true and `0` for false.
pub open spec fn bool_byte(b: bool) -> u8 {
    if b {
        1u8
    } else {
        0u8
    }
}

/// The base-128 number at the front of `s`, read from at most `room` bytes:
/// its value and the number of bytes it takes. Each byte gives seven bits,
/// lowest group first; a byte below 128 ends the number, and so does the
/// last byte that there is room for, whatever its top bit. `None` when `s`
/// ends before the number does.
pub open spec fn base128(s: Seq<u8>, room: nat) -> Option<(nat, nat)>
    decreases room,
{
    if room == 0 || s.len() == 0 {
        None
    } else if s[0] < 128 || room == 1 {
        Some(((s[0] % 128) as nat, 1nat))
    } else {
        match base128(s.skip(1), (room - 1) as nat) {
            None => None,
            Some((v, w)) => Some(((s[0] % 128 + 128 * v) as nat, w + 1)),
        }
    }
}

/// The length prefix at the front of `s`: a base-128 number of at most five
/// bytes, cut to 32 bits. Gives the length and the width of the prefix.
pub open spec fn length_prefix(s: Seq<u8>) -> Option<(nat, nat)> {
    match base128(s, 5) {
        None => None,
        Some((v, w)) => Some((v % 0x1_0000_0000, w)),
    }
}

/// The shortest base-128 form of `v`.
pub open spec fn base128_bytes(v: nat) -> Seq<u8>
    decreases v,
{
    if v < 128 {
        seq![v as u8]
    } else {
        seq![(v % 128 + 128) as u8] + base128_bytes(v / 128)
    }
}

/// The string field at the front of `s`: a length prefix, then that many
/// bytes of UTF-8. Gives the text and the width of the whole field.
pub open spec fn string_field(s: Seq<u8>) -> Result<(Seq<char>, nat), DecodeError> {
    match length_prefix(s) {
        None => Err(DecodeError::TruncatedInput),
        Some((len, w)) => {
            if s.len() < w + len {
                Err(DecodeError::TruncatedInput)
            } else if !valid_utf8(s.subrange(w as int, (w + len) as int)) {
                Err(DecodeError::InvalidUtf8)
            } else {
                Ok((decode_utf8(s.subrange(w as int, (w + len) as int)), w + len))
            }
        },
    }
}

/// The canonical wire form of a string: the byte length of its UTF-8 form
/// in the shortest base-128 form, then the UTF-8 bytes.
pub open spec fn string_bytes(text: Seq<char>) -> Seq<u8> {
    base128_bytes(encode_utf8(text).len()) + encode_utf8(text)
}

/// The bound below which a base-128 number of `room` bytes stays.
pub open spec fn base128_limit(room: nat) -> nat {
    if room == 0 {
        1
    } else if room == 1 {
        0x80
    } else if room == 2 {
        0x4000
    } else if room == 3 {
        0x20_0000
    } else if room == 4 {
        0x1000_0000
    } else {
        0x8_0000_0000
    }
}

/// A base-128 number takes between one byte and `room` bytes, all of them
/// present, and stays below the bound for `room`.
pub proof fn lemma_base128_bounds(s: Seq<u8>, room: nat)
    requires
        room <= 5,
    ensures
        base128(s, room) matches Some((v, w)) ==> 1 <= w <= room && w <= s.len() && v
            < base128_limit(room),
    decreases room,
{
    if room == 0 || s.len() == 0 {
    } else if s[0] < 128 || room == 1 {
    } else {
        lemma_base128_bounds(s.skip(1), (room - 1) as nat);
    }
}

/// Reading back the four bytes written for `v` gives `v`, whatever follows
/// them.
pub proof fn lemma_be_i32_round_trip(v: i32)
    ensures
        be_bytes_i32(v).len() == 4,
        be_i32(be_bytes_i32(v)) == v,
{
    lemma_be_u32_round_trip(unsigned32(v as int));
}

/// Reading back the four bytes written for `u` gives `u`.
pub proof fn lemma_be_u32_round_trip(u: int)
    requires
        0 <= u < 0x1_0000_0000,
    ensures
        be_bytes_u32(u).len() == 4,
        be_u32(be_bytes_u32(u)) == u,
{
    let b = be_bytes_u32(u);
    let q1 = u / 0x100;
    let q2 = u / 0x1_0000;
    let q3 = u / 0x100_0000;
    assert(q2 == q1 / 0x100);
    assert(q3 == q2 / 0x100);
    assert(b[0] == q3);
    assert(b[1] == q2 % 0x100);
    assert(b[2] == q1 % 0x100);
    assert(b[3] == u % 0x100);
    assert(u == q1 * 0x100 + b[3]);
    assert(q1 == q2 * 0x100 + b[2]);
    assert(q2 == q3 * 0x100 + b[1]);
}

/// Reading back the eight bytes written for `u` gives `u`.
pub proof fn lemma_be_u64_round_trip(u: u64)
    ensures
        be_bytes_u64(u).len() == 8,
        be_u64(be_bytes_u64(u)) == u,
{
    let hi = u as int / 0x1_0000_0000;
    let lo = u as int % 0x1_0000_0000;
    lemma_be_u32_round_trip(hi);
    lemma_be_u32_round_trip(lo);
    let b = be_bytes_u64(u);
    assert(b.take(4) =~= be_bytes_u32(hi));
    assert(b.skip(4) =~= be_bytes_u32(lo));
}

/// The shortest base-128 form of a number below the bound for `room` takes
/// at most `room` bytes, and reading it back gives the number, whatever
/// follows it.
pub proof fn lemma_base128_round_trip(v: nat, rest: Seq<u8>, room: nat)
    requires
        1 <= room <= 5,
        v < base128_limit(room),
    ensures
        1 <= base128_bytes(v).len() <= room,
        base128(base128_bytes(v) + rest, room) == Some((v, base128_bytes(v).len())),
    decreases room,
{
    let s = base128_bytes(v) + rest;
    if v < 128 {
        assert(s[0] == v);
    } else {
        assert(s[0] == v % 128 + 128);
        assert(s.skip(1) =~= base128_bytes(v / 128) + rest);
        lemma_base128_round_trip(v / 128, rest, (room - 1) as nat);
    }
}

/// A base-128 number is read from its own bytes alone: any prefix of the
/// input that holds them all gives the same number, and any shorter prefix
/// gives none.
pub proof fn lemma_base128_prefix(s: Seq<u8>, room: nat, k: int)
    requires
        0 <= k <= s.len(),
        base128(s, room).is_some(),
    ensures
        base128(s.take(k), room) == if k >= base128(s, room).unwrap().1 {
            base128(s, room)
        } else {
            None
        },
    decreases room,
{
    if room == 0 || s.len() == 0 {
    } else if k == 0 {
    } else if s[0] < 128 || room == 1 {
        assert(s.take(k)[0] == s[0]);
    } else {
        assert(s.take(k)[0] == s[0]);
        assert(s.take(k).skip(1) =~= s.skip(1).take(k - 1));
        lemma_base128_prefix(s.skip(1), (room - 1) as nat, k - 1);
    }
}

/// Reading back the canonical form of a string gives the string, whatever
/// follows it.
pub proof fn lemma_string_round_trip(text: Seq<char>, rest: Seq<u8>)
    requires
        encode_utf8(text).len() < 0x1_0000_0000,
    ensures
        string_field(string_bytes(text) + rest) == Ok::<_, DecodeError>(
            (text, string_bytes(text).len()),
        ),
{
    let body = encode_utf8(text);
    let prefix = base128_bytes(body.len());
    let s = string_bytes(text) + rest;
    assert(s =~= prefix + (body + rest));
    lemma_base128_round_trip(body.len(), body + rest, 5);
    let w = prefix.len();
    assert(s.subrange(w as int, (w + body.len()) as int) =~= body);
    encode_utf8_valid_utf8(text);
    encode_utf8_decode_utf8(text);
}

/// A string field is read from its own bytes alone: any prefix of the input
/// that holds them all gives the same string, and any shorter prefix is
/// truncated input.
pub proof fn lemma_string_prefix(s: Seq<u8>, k: int)
    requires
        0 <= k <= s.len(),
        string_field(s).is_ok(),
    ensures
        string_field(s.take(k)) == if k >= string_field(s).unwrap().1 {
            string_field(s)
        } else {
            Err(DecodeError::TruncatedInput)
        },
{
    lemma_base128_prefix(s, 5, k);
    lemma_base128_bounds(s, 5);
    let (len, w) = length_prefix(s).unwrap();
    if k >= w + len {
        assert(s.take(k).subrange(w as int, (w + len) as int) =~= s.subrange(
            w as int,
            (w + len) as int,
        ));
    }
}

/// The UTF-8 text that a byte slice holds, if it holds any.
///
/// Calls `core::str::from_utf8`. Trusted: the call succeeds exactly on
/// the byte sequences that are valid UTF-8, and the string slice that it
/// gives has the bytes that were handed in.
#[verifier::external_body]
pub(crate) fn str_from_utf8(bytes: &[u8]) -> (r: Option<&str>)
    ensures
        r.is_some() == valid_utf8(bytes@),
        r matches Some(text) ==> encode_utf8(text@) == bytes@,
{
    core::str::from_utf8(bytes).ok()
}

/// Appends the four big-endian bytes of `v` to `out`.
pub fn write_i32(out: &mut Vec<u8>, v: i32)
    ensures
        final(out)@ == old(out)@ + be_bytes_i32(v),
{
    let u: u32 = if v < 0 {
        ((v + 0x4000_0000) + 0x4000_0000) as u32 + 0x8000_0000u32
    } else {
        v as u32
    };
    write_u32(out, u);
}

/// Appends the four big-endian bytes of `u` to `out`.
pub fn write_u32(out: &mut Vec<u8>, u: u32)
    ensures
        final(out)@ == old(out)@ + be_bytes_u32(u as int),
{
    out.push((u / 0x100_0000) as u8);
    out.push((u / 0x1_0000 % 0x100) as u8);
    out.push((u / 0x100 % 0x100) as u8);
    out.push((u % 0x100) as u8);
    assert(out@ =~= old(out)@ + be_bytes_u32(u as int));
}

/// Appends the eight big-endian bytes of `u` to `out`.
pub fn write_u64(out: &mut Vec<u8>, u: u64)
    ensures
        final(out)@ == old(out)@ + be_bytes_u64(u),
{
    write_u32(out, (u / 0x1_0000_0000) as u32);
    write_u32(out, (u % 0x1_0000_0000) as u32);
    assert(out@ =~= old(out)@ + be_bytes_u64(u));
}

/// Appends every byte of `bytes` to `out`.
pub fn write_bytes(out: &mut Vec<u8>, bytes: &[u8])
    ensures
        final(out)@ == old(out)@ + bytes@,
{
    let mut i: usize = 0;
    while i < bytes.len()
        invariant
            i <= bytes@.len(),
            out@ == old(out)@ + bytes@.take(i as int),
        decreases bytes@.len() - i,
    {
        out.push(bytes[i]);
        i += 1;
        assert(out@ =~= old(out)@ + bytes@.take(i as int));
    }
    assert(bytes@.take(i as int) =~= bytes@);
}

/// Appends the shortest base-128 form of `v` to `out`.
pub fn write_base128(out: &mut Vec<u8>, v: u32)
    ensures
        final(out)@ == old(out)@ + base128_bytes(v as nat),
{
    let mut rest: u32 = v;
    let ghost mut done: Seq<u8> = Seq::empty();
    while rest >= 128
        invariant
            out@ == old(out)@ + done,
            base128_bytes(v as nat) == done + base128_bytes(rest as nat),
        decreases rest,
    {
        out.push((rest % 128 + 128) as u8);
        proof {
            let digit: u8 = (rest % 128 + 128) as u8;
            assert(done + base128_bytes(rest as nat) =~= done.push(digit) + base128_bytes(
                (rest / 128) as nat,
            ));
            done = done.push(digit);
            assert(out@ =~= old(out)@ + done);
        }
        rest = rest / 128;
    }
    out.push(rest as u8);
    assert(out@ =~= old(out)@ + base128_bytes(v as nat));
}

/// Appends the canonical form of `text` to `out`, where its UTF-8 form is
/// short enough for a length prefix; otherwise leaves `out` as it is and
/// says so.
pub fn write_string(out: &mut Vec<u8>, text: &str) -> (written: bool)
    ensures
        written == (encode_utf8(text@).len() < 0x1_0000_0000),
        written ==> final(out)@ == old(out)@ + string_bytes(text@),
        !written ==> final(out)@ == old(out)@,
{
    let body = text.as_bytes();
    if body.len() > 0xffff_ffff {
        return false;
    }
    write_base128(out, body.len() as u32);
    write_bytes(out, body);
    assert(out@ =~= old(out)@ + string_bytes(text@));
    true
}

/// A cursor over a received payload. Each reading method either takes one
/// field off the front of what remains or fails and leaves the cursor where
/// it was.
pub struct Reader<'a> {
    bytes: &'a [u8],
    pos: usize,
}

impl<'a> Reader<'a> {
    #[verifier::type_invariant]
    spec fn in_bounds(self) -> bool {
        self.pos <= self.bytes@.len()
    }

    /// The whole payload that the reader was made for.
    pub closed spec fn source(self) -> Seq<u8> {
        self.bytes@
    }

    /// The number of bytes read so far.
    pub closed spec fn offset(self) -> nat {
        self.pos as nat
    }

    /// The bytes that have not been read yet.
    pub open spec fn remaining(self) -> Seq<u8> {
        self.source().skip(self.offset() as int)
    }

    /// This reader has read `n` bytes more of the same payload than `before`.
    pub open spec fn advanced(self, before: Self, n: nat) -> bool {
        &&& self.source() == before.source()
        &&& self.offset() == before.offset() + n
        &&& self.offset() <= self.source().len()
        &&& self.remaining() == before.remaining().skip(n as int)
    }

    /// A reader at the start of `bytes`.
    pub fn new(bytes: &'a [u8]) -> (r: Self)
        ensures
            r.source() == bytes@,
            r.offset() == 0,
            r.remaining() == bytes@,
    {
        let r = Reader { bytes, pos: 0 };
        assert(bytes@.skip(0) =~= bytes@);
        r
    }

    /// The number of bytes read so far.
    pub fn position(&self) -> (n: usize)
        ensures
            n == self.offset(),
            n <= self.source().len(),
    {
        proof {
            use_type_invariant(self);
        }
        self.pos
    }

    /// Takes one byte.
    pub fn read_u8(&mut self) -> (r: Result<u8, DecodeError>)
        ensures
            match r {
                Ok(v) => old(self).remaining().len() >= 1 && v == old(self).remaining()[0]
                    && final(self).advanced(*old(self), 1),
                Err(e) => e == DecodeError::TruncatedInput && old(self).remaining().len() < 1
                    && *final(self) == *old(self),
            },
    {
        proof {
            use_type_invariant(&*self);
        }
        if self.bytes.len() - self.pos < 1 {
            return Err(DecodeError::TruncatedInput);
        }
        let v: u8 = self.bytes[self.pos];
        self.pos = self.pos + 1;
        assert(self.remaining() =~= old(self).remaining().skip(1));
        Ok(v)
    }

    /// Takes one byte as a boolean: zero is false, anything else is true.
    pub fn read_bool(&mut self) -> (r: Result<bool, DecodeError>)
        ensures
            match r {
                Ok(v) => old(self).remaining().len() >= 1 && v == (old(self).remaining()[0]
                    != 0) && final(self).advanced(*old(self), 1),
                Err(e) => e == DecodeError::TruncatedInput && old(self).remaining().len() < 1
                    && *final(self) == *old(self),
            },
    {
        match self.read_u8() {
            Ok(v) => Ok(v != 0),
            Err(e) => Err(e),
        }
    }

    /// Takes four bytes as an unsigned big-endian integer.
    pub fn read_u32(&mut self) -> (r: Result<u32, DecodeError>)
        ensures
            match r {
                Ok(v) => old(self).remaining().len() >= 4 && v == be_u32(
                    old(self).remaining().take(4),
                ) && final(self).advanced(*old(self), 4),
                Err(e) => e == DecodeError::TruncatedInput && old(self).remaining().len() < 4
                    && *final(self) == *old(self),
            },
    {
        proof {
            use_type_invariant(&*self);
        }
        if self.bytes.len() - self.pos < 4 {
            return Err(DecodeError::TruncatedInput);
        }
        let p: usize = self.pos;
        let b0: u32 = self.bytes[p] as u32;
        let b1: u32 = self.bytes[p + 1] as u32;
        let b2: u32 = self.bytes[p + 2] as u32;
        let b3: u32 = self.bytes[p + 3] as u32;
        self.pos = p + 4;
        assert(self.remaining() =~= old(self).remaining().skip(4));
        Ok(b0 * 0x100_0000 + b1 * 0x1_0000 + b2 * 0x100 + b3)
    }

    /// Takes four bytes as a signed big-endian integer.
    pub fn read_i32(&mut self) -> (r: Result<i32, DecodeError>)
        ensures
            match r {
                Ok(v) => old(self).remaining().len() >= 4 && v == be_i32(
                    old(self).remaining().take(4),
                ) && final(self).advanced(*old(self), 4),
                Err(e) => e == DecodeError::TruncatedInput && old(self).remaining().len() < 4
                    && *final(self) == *old(self),
            },
    {
        match self.read_u32() {
            Ok(u) => {
                if u >= 0x8000_0000 {
                    Ok((u - 0x8000_0000) as i32 - 0x4000_0000 - 0x4000_0000)
                } else {
                    Ok(u as i32)
                }
            },
            Err(e) => Err(e),
        }
    }

    /// Takes eight bytes as an unsigned big-endian integer.
    pub fn read_u64(&mut self) -> (r: Result<u64, DecodeError>)
        ensures
            match r {
                Ok(v) => old(self).remaining().len() >= 8 && v == be_u64(
                    old(self).remaining().take(8),
                ) && final(self).advanced(*old(self), 8),
                Err(e) => e == DecodeError::TruncatedInput && old(self).remaining().len() < 8
                    && *final(self) == *old(self),
            },
    {
        proof {
            use_type_invariant(&*self);
        }
        if self.bytes.len() - self.pos < 8 {
            return Err(DecodeError::TruncatedInput);
        }
        let ghost before = *self;
        let hi = self.read_u32();
        let lo = self.read_u32();
        match (hi, lo) {
            (Ok(h), Ok(l)) => {
                proof {
                    let s = before.remaining();
                    assert(s.take(8).take(4) =~= s.take(4));
                    assert(s.take(8).skip(4) =~= s.skip(4).take(4));
                    assert(self.remaining() =~= s.skip(8));
                }
                Ok(h as u64 * 0x1_0000_0000 + l as u64)
            },
            _ => Err(DecodeError::TruncatedInput),
        }
    }

    /// Takes sixteen raw bytes.
    pub fn read_block(&mut self) -> (r: Result<[u8; 16], DecodeError>)
        ensures
            match r {
                Ok(v) => old(self).remaining().len() >= 16 && v@ == old(self).remaining().take(
                    16,
                ) && final(self).advanced(*old(self), 16),
                Err(e) => e == DecodeError::TruncatedInput && old(self).remaining().len() < 16
                    && *final(self) == *old(self),
            },
    {
        proof {
            use_type_invariant(&*self);
        }
        if self.bytes.len() - self.pos < 16 {
            return Err(DecodeError::TruncatedInput);
        }
        let mut block: [u8; 16] = [0u8; 16];
        let bytes: &[u8] = self.bytes;
        let end: usize = bytes.len();
        let p: usize = self.pos;
        let mut i: usize = 0;
        while i < 16
            invariant
                i <= 16,
                p + 16 <= end,
                end == bytes@.len(),
                forall|k: int| 0 <= k < i ==> block@[k] == bytes@[p + k],
            decreases 16 - i,
        {
            block[i] = bytes[p + i];
            i += 1;
        }
        self.pos = p + 16;
        assert(block@ =~= old(self).remaining().take(16));
        assert(self.remaining() =~= old(self).remaining().skip(16));
        Ok(block)
    }

    /// Takes a length prefix.
    pub fn read_length_prefix(&mut self) -> (r: Result<u32, DecodeError>)
        ensures
            match r {
                Ok(v) => length_prefix(old(self).remaining()) matches Some((len, w)) && v == len
                    && final(self).advanced(*old(self), w),
                Err(e) => e == DecodeError::TruncatedInput && length_prefix(
                    old(self).remaining(),
                ).is_none() && *final(self) == *old(self),
            },
    {
        proof {
            use_type_invariant(&*self);
        }
        let end: usize = self.bytes.len();
        match base128_at(self.bytes, self.pos, 5) {
            None => Err(DecodeError::TruncatedInput),
            Some((v, w)) => {
                assert(self.pos + w <= end);
                self.pos = self.pos + w;
                assert(self.remaining() =~= old(self).remaining().skip(w as int));
                Ok((v % 0x1_0000_0000) as u32)
            },
        }
    }

    /// Takes a string: a length prefix, then that many bytes of UTF-8.
    pub fn read_string(&mut self) -> (r: Result<String, DecodeError>)
        ensures
            match r {
                Ok(text) => string_field(old(self).remaining()) matches Ok((t, w)) && text@ == t
                    && final(self).advanced(*old(self), w),
                Err(e) => string_field(old(self).remaining()) == Err::<(Seq<char>, nat), _>(e)
                    && *final(self) == *old(self),
            },
    {
        proof {
            use_type_invariant(&*self);
        }
        let start: usize = self.pos;
        let end: usize = self.bytes.len();
        let ghost s = self.remaining();
        match base128_at(self.bytes, start, 5) {
            None => Err(DecodeError::TruncatedInput),
            Some((v, w)) => {
                let len: usize = (v % 0x1_0000_0000) as u32 as usize;
                assert(start + w <= end);
                let from: usize = start + w;
                if end - from < len {
                    return Err(DecodeError::TruncatedInput);
                }
                let body = slice_subrange(self.bytes, from, from + len);
                assert(body@ =~= s.subrange(w as int, (w + len) as int));
                match str_from_utf8(body) {
                    None => Err(DecodeError::InvalidUtf8),
                    Some(text) => {
                        proof {
                            encode_utf8_decode_utf8(text@);
                        }
                        self.pos = from + len;
                        assert(self.remaining() =~= s.skip((w + len) as int));
                        Ok(String::from_str(text))
                    },
                }
            },
        }
    }
}

/// Reads the base-128 number that starts at `pos`, from at most `room` bytes.
fn base128_at(bytes: &[u8], pos: usize, room: usize) -> (r: Option<(u64, usize)>)
    requires
        pos <= bytes@.len(),
        room <= 5,
    ensures
        match r {
            Some((v, w)) => base128(bytes@.skip(pos as int), room as nat) == Some(
                (v as nat, w as nat),
            ) && 1 <= w <= room && pos + w <= bytes@.len() && v < base128_limit(room as nat),
            None => base128(bytes@.skip(pos as int), room as nat).is_none(),
        },
    decreases room,
{
    let ghost s = bytes@.skip(pos as int);
    if room == 0 || pos >= bytes.len() {
        return None;
    }
    let b: u8 = bytes[pos];
    assert(b == s[0]);
    if b < 128 || room == 1 {
        return Some(((b % 128) as u64, 1));
    }
    assert(s.skip(1) =~= bytes@.skip(pos + 1));
    match base128_at(bytes, pos + 1, room - 1) {
        None => None,
        Some((v, w)) => Some(((b % 128) as u64 + 128 * v, w + 1)),
    }
}

} // verus!
