//! Byte-level read and write helpers for decoding and encoding Tibia 1.03 network packets.
//!
//! Two extension traits are provided:
//! - [`ReadExt`] - implemented by [`PacketReader`], a cursor over a received packet.
//! - [`WriteExt`] - implemented by `Vec<u8>`, the buffer outgoing packets are built in.

use vstd::prelude::*;
use vstd::utf8::encode_utf8;
use crate::map::position::Position;
use crate::player::{Gender, OutfitColors};

verus! {

broadcast use vstd::string::group_string_axioms;

/// The error of a read that ran past the end of the packet.
#[derive(Debug, Copy, Clone, PartialEq, Eq, Structural)]
pub enum ReadError {
    UnexpectedEof,
}

/// Appends a character to a string with `String::push`. Trusted: the contract claims that
/// the string's characters afterwards are the old ones followed by `c`.
#[verifier::external_body]
pub(crate) fn push_char(s: &mut String, c: char)
    ensures
        final(s)@ == old(s)@.push(c),
{
    s.push(c);
}

/// Bytes read as characters, one character per byte (code points U+0000 to U+00FF).
pub open spec fn latin1(bytes: Seq<u8>) -> Seq<char> {
    bytes.map_values(|b: u8| b as char)
}

/// The bytes before the first zero byte (all of them if there is none).
pub open spec fn until_nul(bytes: Seq<u8>) -> Seq<u8>
    decreases bytes.len(),
{
    if bytes.len() == 0 {
        bytes
    } else if bytes[0] == 0 {
        Seq::empty()
    } else {
        seq![bytes[0]] + until_nul(bytes.drop_first())
    }
}

/// What is left of the stream after reading up to and including the first zero byte.
pub open spec fn after_nul(bytes: Seq<u8>) -> Seq<u8>
    decreases bytes.len(),
{
    if bytes.len() == 0 {
        bytes
    } else if bytes[0] == 0 {
        bytes.drop_first()
    } else {
        after_nul(bytes.drop_first())
    }
}

/// A little-endian 16-bit number.
pub open spec fn le16(lo: u8, hi: u8) -> u16 {
    (lo + 256 * hi) as u16
}

/// A packed byte split into its high and low 4-bit halves.
pub open spec fn nibbles(b: u8) -> (u8, u8) {
    ((b / 16) as u8, (b % 16) as u8)
}

/// The outfit encoded by two packed bytes: legs and shoes in the first, head and body in the second.
pub open spec fn outfit_from_bytes(b1: u8, b2: u8) -> OutfitColors {
    OutfitColors {
        head: nibbles(b2).0,
        body: nibbles(b2).1,
        legs: nibbles(b1).0,
        shoes: nibbles(b1).1,
    }
}

/// Gender byte `1` is male; anything else is female.
pub open spec fn gender_from_byte(b: u8) -> Gender {
    if b == 1 {
        Gender::Male
    } else {
        Gender::Female
    }
}

/// Read helpers for decoding Tibia 1.03 network packets.
///
/// An implementor supplies [`ReadExt::remaining`], the bytes not read yet, and
/// [`ReadExt::read_u8`]; every other read is built on those.
pub trait ReadExt: Sized {
    /// The bytes that have not been read yet.
    spec fn remaining(&self) -> Seq<u8>;

    /// Reads one byte.
    fn read_u8(&mut self) -> (r: Result<u8, ReadError>)
        ensures
            match r {
                Ok(b) => {
                    &&& old(self).remaining().len() > 0
                    &&& b == old(self).remaining()[0]
                    &&& final(self).remaining() == old(self).remaining().drop_first()
                },
                Err(_) => old(self).remaining().len() == 0 && final(self).remaining() == old(
                    self,
                ).remaining(),
            },
    ;

    /// Reads a little-endian 16-bit number.
    fn read_u16_le(&mut self) -> (r: Result<u16, ReadError>)
        ensures
            old(self).remaining().len() >= 2 <==> r is Ok,
            r matches Ok(v) ==> {
                &&& v == le16(old(self).remaining()[0], old(self).remaining()[1])
                &&& final(self).remaining() == old(self).remaining().skip(2)
            },
    {
        let lo = self.read_u8()?;
        let hi = self.read_u8()?;
        Ok(lo as u16 + 256 * hi as u16)
    }

    /// Reads one byte and splits it into two packed 4-bit values `(high, low)`.
    fn read_u4(&mut self) -> (r: Result<(u8, u8), ReadError>)
        ensures
            old(self).remaining().len() >= 1 <==> r is Ok,
            r matches Ok(v) ==> {
                &&& v == nibbles(old(self).remaining()[0])
                &&& final(self).remaining() == old(self).remaining().skip(1)
            },
    {
        let byte = self.read_u8()?;
        Ok((byte / 16, byte % 16))
    }

    /// Consumes and discards exactly `bytes` bytes from the stream.
    fn skip(&mut self, bytes: u16) -> (r: Result<(), ReadError>)
        ensures
            old(self).remaining().len() >= bytes <==> r is Ok,
            r is Ok ==> final(self).remaining() == old(self).remaining().skip(bytes as int),
    {
        let mut i: u16 = 0;
        while i < bytes
            invariant
                i <= bytes,
                old(self).remaining().len() >= i,
                self.remaining() == old(self).remaining().skip(i as int),
            decreases bytes - i,
        {
            match self.read_u8() {
                Ok(_) => {},
                Err(e) => return Err(e),
            }
            i = i + 1;
        }
        Ok(())
    }

    /// Reads a fixed-size, null-terminated string field of `max_size` bytes.
    ///
    /// Characters are read until a null terminator (`\0`) is encountered, one character
    /// per byte. The remaining bytes in the field are consumed and discarded so the
    /// stream stays aligned for the next read. Returns the string's new length in bytes.
    fn read_string(&mut self, buf: &mut String, max_size: u16) -> (r: Result<usize, ReadError>)
        ensures
            old(self).remaining().len() >= max_size <==> r is Ok,
            r matches Ok(n) ==> {
                &&& final(buf)@ == old(buf)@ + latin1(
                    until_nul(old(self).remaining().take(max_size as int)),
                )
                &&& final(self).remaining() == old(self).remaining().skip(max_size as int)
                &&& n == (encode_utf8(final(buf)@).len() as usize)
            },
    {
        let ghost start = self.remaining();
        let ghost buf0 = buf@;
        let mut n: u16 = 0;
        while n < max_size
            invariant
                n <= max_size,
                start == old(self).remaining(),
                buf0 == old(buf)@,
                start.len() >= n,
                self.remaining() == start.skip(n as int),
                buf@ == buf0 + latin1(start.take(n as int)),
                until_nul(start.take(n as int)) == start.take(n as int),
                forall|i: int| 0 <= i < n ==> start[i] != 0,
            decreases max_size - n,
        {
            let b = match self.read_u8() {
                Ok(b) => b,
                Err(e) => return Err(e),
            };
            proof {
                lemma_take_push(start, n as int);
            }
            if b == 0 {
                match self.skip(max_size - n - 1) {
                    Ok(()) => {},
                    Err(e) => return Err(e),
                }
                proof {
                    assert(start.skip(n + 1).skip((max_size - n - 1) as int) =~= start.skip(
                        max_size as int,
                    ));
                    assert(start.take(max_size as int).take(n as int) =~= start.take(n as int));
                    lemma_until_nul_prefix(start.take(max_size as int), n as int);
                }
                return Ok(buf.as_str().len());
            }
            let ghost before = buf@;
            push_char(buf, b as char);
            n = n + 1;
            proof {
                lemma_until_nul_push(start.take(n - 1), b);
                assert(latin1(start.take(n as int)) =~= latin1(start.take(n - 1)).push(b as char));
                assert(buf@ =~= buf0 + latin1(start.take(n as int)));
            }
        }
        proof {
            assert(start.take(max_size as int).take(n as int) =~= start.take(n as int));
        }
        Ok(buf.as_str().len())
    }

    /// Reads a null-terminated string, stopping at the first `\0` or at the end of the
    /// stream. Unlike [`ReadExt::read_string`], this does not enforce a fixed field width.
    fn read_string_to_end(&mut self, buf: &mut String) -> (r: Result<(), ReadError>)
        ensures
            r is Ok,
            final(buf)@ == old(buf)@ + latin1(until_nul(old(self).remaining())),
            final(self).remaining() == after_nul(old(self).remaining()),
    {
        let ghost start = self.remaining();
        let ghost buf0 = buf@;
        loop
            invariant
                start == old(self).remaining(),
                buf0 == old(buf)@,
                buf0 + latin1(until_nul(start)) == buf@ + latin1(until_nul(self.remaining())),
                after_nul(start) == after_nul(self.remaining()),
            decreases self.remaining().len(),
        {
            let ghost before = self.remaining();
            let ghost buf_before = buf@;
            match self.read_u8() {
                Ok(b) => {
                    if b == 0 {
                        proof {
                            assert(until_nul(before) =~= Seq::<u8>::empty());
                            assert(latin1(Seq::<u8>::empty()) =~= Seq::<char>::empty());
                            assert(buf@ + Seq::<char>::empty() =~= buf@);
                            assert(after_nul(before) == before.drop_first());
                        }
                        return Ok(());
                    }
                    push_char(buf, b as char);
                    proof {
                        assert(until_nul(before) == seq![b] + until_nul(self.remaining()));
                        assert(latin1(seq![b] + until_nul(self.remaining())) =~= seq![b as char]
                            + latin1(until_nul(self.remaining())));
                        assert(buf_before + (seq![b as char] + latin1(until_nul(self.remaining())))
                            =~= buf@ + latin1(until_nul(self.remaining())));
                        assert(after_nul(before) == after_nul(self.remaining()));
                    }
                },
                Err(_) => {
                    proof {
                        assert(until_nul(before) =~= Seq::<u8>::empty());
                        assert(latin1(Seq::<u8>::empty()) =~= Seq::<char>::empty());
                        assert(buf@ + Seq::<char>::empty() =~= buf@);
                        assert(after_nul(before) == before);
                    }
                    return Ok(());
                },
            }
        }
    }

    /// Reads a Tibia 1.03 map position (X, Y only).
    ///
    /// Positions are two bytes - one for X and one for Y. The floor level (Z) is always
    /// 7 (ground floor) and is not encoded in the packet.
    fn read_position(&mut self) -> (r: Result<Position, ReadError>)
        ensures
            old(self).remaining().len() >= 2 <==> r is Ok,
            r matches Ok(p) ==> {
                &&& p == (Position {
                    x: old(self).remaining()[0] as u16,
                    y: old(self).remaining()[1] as u16,
                    z: 7,
                })
                &&& final(self).remaining() == old(self).remaining().skip(2)
            },
    {
        let x = self.read_u8()? as u16;
        let y = self.read_u8()? as u16;
        Ok(Position::new(x, y, 7))
    }

    /// Reads outfit colors from two packed bytes, plus one ignored padding byte.
    ///
    /// Four 4-bit color indices are packed into two bytes:
    /// - Byte 1: legs (high nibble), shoes (low nibble)
    /// - Byte 2: head (high nibble), body (low nibble)
    fn read_outfit_colors(&mut self) -> (r: Result<OutfitColors, ReadError>)
        ensures
            old(self).remaining().len() >= 3 <==> r is Ok,
            r matches Ok(o) ==> {
                &&& o == outfit_from_bytes(old(self).remaining()[0], old(self).remaining()[1])
                &&& o.wf()
                &&& final(self).remaining() == old(self).remaining().skip(3)
            },
    {
        let (legs, shoes) = self.read_u4()?;
        let (head, body) = self.read_u4()?;
        let _ = self.read_u8()?;
        Ok(OutfitColors::new(head, body, legs, shoes))
    }

    /// Reads a gender byte. `1` is [`Gender::Male`], anything else is [`Gender::Female`].
    fn read_gender(&mut self) -> (r: Result<Gender, ReadError>)
        ensures
            old(self).remaining().len() >= 1 <==> r is Ok,
            r matches Ok(g) ==> {
                &&& g == gender_from_byte(old(self).remaining()[0])
                &&& final(self).remaining() == old(self).remaining().skip(1)
            },
    {
        Ok(
            match self.read_u8()? {
                1 => Gender::Male,
                _ => Gender::Female,
            },
        )
    }
}

/// A cursor over a received packet.
pub struct PacketReader<'a> {
    data: &'a [u8],
    pos: usize,
}

impl<'a> PacketReader<'a> {
    /// Starts reading at the first byte of `data`.
    pub fn new(data: &'a [u8]) -> (r: Self)
        ensures
            r.remaining() == data@,
    {
        PacketReader { data, pos: 0 }
    }
}

impl<'a> ReadExt for PacketReader<'a> {
    closed spec fn remaining(&self) -> Seq<u8> {
        if self.pos <= self.data@.len() {
            self.data@.skip(self.pos as int)
        } else {
            Seq::empty()
        }
    }

    fn read_u8(&mut self) -> (r: Result<u8, ReadError>) {
        if self.pos < self.data.len() {
            let b = self.data[self.pos];
            self.pos = self.pos + 1;
            proof {
                assert(old(self).remaining().drop_first() =~= self.remaining());
            }
            Ok(b)
        } else {
            Err(ReadError::UnexpectedEof)
        }
    }
}

/// The two bytes of a little-endian 16-bit number.
pub open spec fn le16_bytes(v: u16) -> Seq<u8> {
    seq![(v % 256) as u8, (v / 256) as u8]
}

/// The four bytes of a little-endian 32-bit number.
pub open spec fn le32_bytes(v: u32) -> Seq<u8> {
    seq![(v % 256) as u8, ((v / 256) % 256) as u8, ((v / 65536) % 256) as u8, (v / 16777216) as u8]
}

/// The header that starts every outgoing packet: four zero bytes and the packet id.
pub open spec fn packet_header(id: u8) -> Seq<u8> {
    seq![0u8, 0u8, 0u8, 0u8, id]
}

/// Two 4-bit values packed into one byte, high half first.
pub open spec fn pack_u4(high: u8, low: u8) -> u8 {
    ((high % 16) * 16 + low) as u8
}

/// A string in a fixed-width field: cut to `length` bytes, or padded with zero bytes.
pub open spec fn fixed_field(bytes: Seq<u8>, length: int) -> Seq<u8> {
    if bytes.len() >= length {
        bytes.take(length)
    } else {
        bytes + Seq::new((length - bytes.len()) as nat, |i: int| 0u8)
    }
}

/// The bytes of a position on the wire: the low bytes of X and Y.
pub open spec fn position_bytes(p: Position) -> Seq<u8> {
    seq![(p.x % 256) as u8, (p.y % 256) as u8]
}

/// The three bytes of an outfit on the wire; mirrors [`outfit_from_bytes`].
pub open spec fn outfit_bytes(o: OutfitColors) -> Seq<u8> {
    seq![pack_u4(o.legs, o.shoes), pack_u4(o.head, o.body), 0u8]
}

/// The gender byte: 1 for male, 0 for female.
pub open spec fn gender_byte(g: Gender) -> u8 {
    match g {
        Gender::Male => 1,
        Gender::Female => 0,
    }
}

/// Write helpers for encoding Tibia 1.03 network packets.
///
/// An implementor supplies [`WriteExt::written`], everything written so far, and the two
/// primitive writes; every other write is built on those. Writing never fails.
pub trait WriteExt: Sized {
    /// Everything written so far.
    spec fn written(&self) -> Seq<u8>;

    /// Writes one byte.
    fn write_u8(&mut self, b: u8)
        ensures
            final(self).written() == old(self).written().push(b),
    ;

    /// Writes a run of bytes.
    fn write_all(&mut self, bytes: &[u8])
        ensures
            final(self).written() == old(self).written() + bytes@,
    ;

    /// Writes a little-endian 16-bit number.
    fn write_u16_le(&mut self, v: u16)
        ensures
            final(self).written() == old(self).written() + le16_bytes(v),
    {
        self.write_u8((v % 256) as u8);
        self.write_u8((v / 256) as u8);
        proof {
            assert(self.written() =~= old(self).written() + le16_bytes(v));
        }
    }

    /// Writes a little-endian 32-bit number.
    fn write_u32_le(&mut self, v: u32)
        ensures
            final(self).written() == old(self).written() + le32_bytes(v),
    {
        self.write_u8((v % 256) as u8);
        self.write_u8(((v / 256) % 256) as u8);
        self.write_u8(((v / 65536) % 256) as u8);
        self.write_u8((v / 16777216) as u8);
        proof {
            assert(self.written() =~= old(self).written() + le32_bytes(v));
        }
    }

    /// Writes a Tibia 1.03 packet header followed by the packet type byte.
    ///
    /// All packets begin with four zero bytes (`u32_le = 0`) and then a
    /// one-byte packet identifier.
    fn write_packet(&mut self, id: u8)
        ensures
            final(self).written() == old(self).written() + packet_header(id),
    {
        self.write_u32_le(0);
        self.write_u8(id);
        proof {
            assert(self.written() =~= old(self).written() + packet_header(id));
        }
    }

    /// Packs two 4-bit values into a single byte and writes it.
    fn write_u4(&mut self, high: u8, low: u8)
        requires
            (high % 16) * 16 + low < 256,
        ensures
            final(self).written() == old(self).written().push(pack_u4(high, low)),
    {
        self.write_u8((high % 16) * 16 + low);
    }

    /// Writes a string's UTF-8 bytes followed by a null terminator byte.
    fn write_null_terminated_string(&mut self, s: &str)
        ensures
            final(self).written() == old(self).written() + encode_utf8(s@) + seq![0u8],
    {
        self.write_all(s.as_bytes());
        self.write_u8(0);
    }

    /// Writes a string into a fixed-width field, padding with trailing zeroes if needed.
    ///
    /// If `s` is longer than `length` bytes it is truncated; if shorter, the remaining
    /// bytes are zero-filled so the field width stays consistent.
    fn write_fixed_string(&mut self, s: &str, length: u16)
        ensures
            final(self).written() == old(self).written() + fixed_field(encode_utf8(s@), length as int),
    {
        let len = length as usize;
        let bytes = s.as_bytes();
        if bytes.len() >= len {
            let mut i: usize = 0;
            while i < len
                invariant
                    i <= len <= bytes@.len(),
                    self.written() == old(self).written() + bytes@.take(i as int),
                decreases len - i,
            {
                self.write_u8(bytes[i]);
                proof {
                    assert(bytes@.take(i + 1) =~= bytes@.take(i as int).push(bytes@[i as int]));
                }
                i = i + 1;
            }
        } else {
            self.write_all(bytes);
            self.write_zeroes(len - bytes.len());
            proof {
                assert(old(self).written() + bytes@ + Seq::new((len - bytes@.len()) as nat, |i: int| 0u8)
                    =~= old(self).written() + fixed_field(encode_utf8(s@), length as int));
            }
        }
    }

    /// Writes `count` zero bytes, used for padding and field alignment.
    fn write_zeroes(&mut self, count: usize)
        ensures
            final(self).written() == old(self).written() + Seq::new(count as nat, |i: int| 0u8),
    {
        let mut i: usize = 0;
        while i < count
            invariant
                i <= count,
                self.written() == old(self).written() + Seq::new(i as nat, |j: int| 0u8),
            decreases count - i,
        {
            self.write_u8(0);
            proof {
                assert(Seq::new((i + 1) as nat, |j: int| 0u8) =~= Seq::new(i as nat, |j: int| 0u8).push(0u8));
            }
            i = i + 1;
        }
    }

    /// Writes a Tibia 1.03 map position (the low bytes of X and Y; Z is not encoded).
    fn write_position(&mut self, pos: Position)
        ensures
            final(self).written() == old(self).written() + position_bytes(pos),
    {
        self.write_u8((pos.x % 256) as u8);
        self.write_u8((pos.y % 256) as u8);
        proof {
            assert(self.written() =~= old(self).written() + position_bytes(pos));
        }
    }

    /// Writes outfit colors as two packed bytes plus one padding byte.
    ///
    /// Mirrors the layout read by [`ReadExt::read_outfit_colors`]:
    /// - Byte 1: legs (high nibble), shoes (low nibble)
    /// - Byte 2: head (high nibble), body (low nibble)
    /// - Byte 3: `0x00` padding
    fn write_outfit_colors(&mut self, outfit: OutfitColors)
        requires
            outfit.wf(),
        ensures
            final(self).written() == old(self).written() + outfit_bytes(outfit),
    {
        self.write_u4(outfit.legs, outfit.shoes);
        self.write_u4(outfit.head, outfit.body);
        self.write_u8(0);
        proof {
            assert(self.written() =~= old(self).written() + outfit_bytes(outfit));
        }
    }

    /// Writes a gender byte. [`Gender::Male`] is `1`, [`Gender::Female`] is `0`.
    fn write_gender(&mut self, gender: Gender)
        ensures
            final(self).written() == old(self).written().push(gender_byte(gender)),
    {
        self.write_u8(
            match gender {
                Gender::Male => 1,
                Gender::Female => 0,
            },
        );
    }
}

impl WriteExt for Vec<u8> {
    open spec fn written(&self) -> Seq<u8> {
        self@
    }

    fn write_u8(&mut self, b: u8) {
        self.push(b);
    }

    fn write_all(&mut self, bytes: &[u8]) {
        let mut i: usize = 0;
        while i < bytes.len()
            invariant
                i <= bytes@.len(),
                self@ == old(self)@ + bytes@.take(i as int),
            decreases bytes.len() - i,
        {
            self.push(bytes[i]);
            proof {
                assert(bytes@.take(i + 1) =~= bytes@.take(i as int).push(bytes@[i as int]));
            }
            i = i + 1;
        }
        proof {
            assert(bytes@.take(bytes@.len() as int) =~= bytes@);
        }
    }
}

proof fn lemma_take_push(s: Seq<u8>, n: int)
    requires
        0 <= n < s.len(),
    ensures
        s.take(n + 1) == s.take(n).push(s[n]),
        s.skip(n).drop_first() == s.skip(n + 1),
        s.skip(n)[0] == s[n],
{
    assert(s.take(n + 1) =~= s.take(n).push(s[n]));
    assert(s.skip(n).drop_first() =~= s.skip(n + 1));
}

proof fn lemma_until_nul_push(s: Seq<u8>, b: u8)
    requires
        until_nul(s) == s,
        b != 0,
    ensures
        until_nul(s.push(b)) == s.push(b),
    decreases s.len(),
{
    if s.len() == 0 {
        assert(s.push(b).drop_first() =~= Seq::<u8>::empty());
        assert(until_nul(Seq::<u8>::empty()) =~= Seq::<u8>::empty());
        assert(until_nul(s.push(b)) == seq![b] + until_nul(s.push(b).drop_first()));
        assert(seq![b] + Seq::<u8>::empty() =~= s.push(b));
    } else {
        assert(s[0] != 0) by {
            if s[0] == 0 {
                assert(until_nul(s).len() == 0);
            }
        }
        assert(until_nul(s.drop_first()) =~= s.drop_first()) by {
            assert(until_nul(s) == seq![s[0]] + until_nul(s.drop_first()));
            assert(s =~= seq![s[0]] + s.drop_first());
            assert((seq![s[0]] + until_nul(s.drop_first())).drop_first() =~= until_nul(s.drop_first()));
        }
        lemma_until_nul_push(s.drop_first(), b);
        assert(s.push(b).drop_first() =~= s.drop_first().push(b));
        assert(s.push(b) =~= seq![s[0]] + s.drop_first().push(b));
    }
}

proof fn lemma_until_nul_prefix(s: Seq<u8>, n: int)
    requires
        0 <= n < s.len(),
        s[n] == 0,
        until_nul(s.take(n)) == s.take(n),
    ensures
        until_nul(s) == s.take(n),
    decreases n,
{
    if n == 0 {
        assert(s.take(0) =~= Seq::<u8>::empty());
    } else {
        assert(s[0] != 0) by {
            if s[0] == 0 {
                assert(s.take(n)[0] == 0);
                assert(until_nul(s.take(n)).len() == 0);
            }
        }
        let t = s.drop_first();
        assert(s.take(n).drop_first() =~= t.take(n - 1));
        assert(until_nul(t.take(n - 1)) =~= t.take(n - 1)) by {
            assert(s.take(n)[0] == s[0]);
            assert(until_nul(s.take(n)) == seq![s[0]] + until_nul(s.take(n).drop_first()));
            assert((seq![s[0]] + until_nul(t.take(n - 1))).drop_first() =~= until_nul(t.take(n - 1)));
            assert(s.take(n).drop_first() =~= t.take(n - 1));
        }
        lemma_until_nul_prefix(t, n - 1);
        assert(s.take(n) =~= seq![s[0]] + t.take(n - 1));
    }
}

/// Reading back the bytes written for a well-formed outfit gives the same outfit.
pub proof fn lemma_outfit_round_trip(o: OutfitColors)
    requires
        o.wf(),
    ensures
        outfit_from_bytes(outfit_bytes(o)[0], outfit_bytes(o)[1]) == o,
{
    let (h, b, l, s) = (o.head, o.body, o.legs, o.shoes);
    assert(h < 16 && b < 16 && l < 16 && s < 16);
    assert(pack_u4(l, s) / 16 == l && pack_u4(l, s) % 16 == s);
    assert(pack_u4(h, b) / 16 == h && pack_u4(h, b) % 16 == b);
}

/// Reading back the byte written for a gender gives the same gender.
pub proof fn lemma_gender_round_trip(g: Gender)
    ensures
        gender_from_byte(gender_byte(g)) == g,
{
}

/// Reading back the two bytes written for a number gives the same number.
pub proof fn lemma_u16_round_trip(v: u16)
    ensures
        le16(le16_bytes(v)[0], le16_bytes(v)[1]) == v,
{
}

/// Reading back the two bytes written for a position gives its X and Y when both are
/// below 256 (the floor is not on the wire; reads give floor 7).
pub proof fn lemma_position_round_trip(p: Position)
    requires
        p.x < 256,
        p.y < 256,
    ensures
        position_bytes(p)[0] as u16 == p.x,
        position_bytes(p)[1] as u16 == p.y,
{
}

/// Bytes with no zero byte among them are all kept before the (absent) terminator.
proof fn lemma_until_nul_none(s: Seq<u8>)
    requires
        forall|i: int| 0 <= i < s.len() ==> s[i] != 0,
    ensures
        until_nul(s) == s,
    decreases s.len(),
{
    if s.len() > 0 {
        lemma_until_nul_none(s.drop_first());
        assert(s =~= seq![s[0]] + s.drop_first());
    }
}

/// Reading a fixed-width field of `n` bytes written from an ASCII string with no zero
/// character gives back the string cut to `n` characters (its byte count, the count a
/// read returns, is that length too), and the read consumes exactly the field: what was
/// written after it is read next.
pub proof fn lemma_fixed_string_round_trip(s: Seq<char>, n: int, rest: Seq<u8>)
    requires
        0 <= n,
        forall|i: int| 0 <= i < s.len() ==> '\0' < #[trigger] s[i] <= '\u{7f}',
    ensures
        (fixed_field(encode_utf8(s), n) + rest).take(n) == fixed_field(encode_utf8(s), n),
        (fixed_field(encode_utf8(s), n) + rest).skip(n) == rest,
        latin1(until_nul(fixed_field(encode_utf8(s), n))) == s.take(if s.len() < n { s.len() as int } else { n }),
        encode_utf8(s.take(if s.len() < n { s.len() as int } else { n })).len() == if s.len() < n { s.len() as int } else { n },
{
    let e = encode_utf8(s);
    let k = if s.len() < n { s.len() as int } else { n };
    assert(vstd::utf8::is_ascii_chars(s));
    vstd::utf8::is_ascii_chars_encode_utf8(s);
    let f = fixed_field(e, n);
    assert(f.len() == n);
    assert((f + rest).take(n) =~= f);
    assert((f + rest).skip(n) =~= rest);
    assert forall|i: int| 0 <= i < k implies f[i] == s[i] as u8 && #[trigger] f[i] != 0 by {
        assert(e[i] == s[i] as u8);
        assert(s[i] as u32 > 0);
    }
    if k < n {
        assert(f.take(k) =~= e);
        lemma_until_nul_none(f.take(k));
        lemma_until_nul_prefix(f, k);
    } else {
        lemma_until_nul_none(f);
        assert(f.take(k) =~= f);
    }
    assert(latin1(f.take(k)) =~= s.take(k)) by {
        assert forall|i: int| 0 <= i < k implies #[trigger] latin1(f.take(k))[i] == s.take(k)[i] by {
            assert(f[i] == s[i] as u8);
            assert((s[i] as u8) as char == s[i]);
        }
    }
    assert(vstd::utf8::is_ascii_chars(s.take(k)));
    vstd::utf8::is_ascii_chars_encode_utf8(s.take(k));
}

} // verus!
