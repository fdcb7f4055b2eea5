//! Byte-exact binary codec: every encodable value states its exact byte
//! image as a `Seq<u8>`, computes its serialized length, and appends its
//! bytes to a growing buffer. The two operations agree by contract: the
//! length returned by `get_byte_size` is exactly the number of bytes that
//! `write_byte` appends.
//!
//! All multi-byte integers are written big-endian (network byte order).
use vstd::prelude::*;

verus! {

/// Big-endian image of a 64-bit unsigned integer: 8 raw bytes.
pub open spec fn enc_u64(v: u64) -> Seq<u8> {
    seq![
        (v >> 56) as u8,
        (v >> 48) as u8,
        (v >> 40) as u8,
        (v >> 32) as u8,
        (v >> 24) as u8,
        (v >> 16) as u8,
        (v >> 8) as u8,
        v as u8,
    ]
}

/// Big-endian image of a 32-bit unsigned integer: 4 raw bytes.
pub open spec fn enc_u32(v: u32) -> Seq<u8> {
    seq![(v >> 24) as u8, (v >> 16) as u8, (v >> 8) as u8, v as u8]
}

/// Image of a fixed-point duration in milliseconds: the signed 32-bit
/// value reinterpreted as unsigned, written big-endian.
pub open spec fn enc_millis(v: i32) -> Seq<u8> {
    enc_u32(v as u32)
}

/// Image of a piece of text: an 8-byte big-endian byte-count prefix
/// followed by the raw UTF-8 bytes.
pub open spec fn enc_str(s: Seq<char>) -> Seq<u8> {
    enc_u64(vstd::utf8::encode_utf8(s).len() as u64) + vstd::utf8::encode_utf8(s)
}

/// A value with a fixed, self-describing binary image.
pub trait EncodeBinary: Sized {
    /// The exact byte image of this value.
    spec fn enc(&self) -> Seq<u8>;

    /// Exact serialized length; always agrees with what `write_byte` appends.
    fn get_byte_size(&self) -> (r: usize)
        requires
            self.enc().len() <= usize::MAX,
        ensures
            r == self.enc().len(),
    ;

    /// Appends exactly this value's byte image to `buf`.
    fn write_byte(&self, buf: &mut Vec<u8>)
        ensures
            final(buf)@ == old(buf)@ + self.enc(),
    ;
}

/// Concatenated images of a sequence of values, in order, with no prefix.
pub open spec fn enc_seq<T: EncodeBinary>(s: Seq<T>) -> Seq<u8>
    decreases s.len(),
{
    if s.len() == 0 {
        Seq::empty()
    } else {
        enc_seq(s.drop_last()) + s.last().enc()
    }
}

/// Extending a sequence by one element appends that element's image.
pub proof fn lemma_enc_seq_take_succ<T: EncodeBinary>(s: Seq<T>, i: int)
    requires
        0 <= i < s.len(),
    ensures
        enc_seq(s.take(i + 1)) == enc_seq(s.take(i)) + s[i].enc(),
{
    assert(s.take(i + 1).drop_last() =~= s.take(i));
    assert(s.take(i + 1).last() == s[i]);
}

/// Appending one element appends exactly that element's image.
pub proof fn lemma_enc_seq_push<T: EncodeBinary>(s: Seq<T>, x: T)
    ensures
        enc_seq(s.push(x)) == enc_seq(s) + x.enc(),
{
    assert(s.push(x).drop_last() =~= s);
    assert(s.push(x).last() == x);
}

/// A prefix of a sequence never encodes to more bytes than the whole.
pub proof fn lemma_enc_seq_take_len<T: EncodeBinary>(s: Seq<T>, i: int)
    requires
        0 <= i <= s.len(),
    ensures
        enc_seq(s.take(i)).len() <= enc_seq(s).len(),
    decreases s.len() - i,
{
    if i == s.len() {
        assert(s.take(i) =~= s);
    } else {
        lemma_enc_seq_take_succ(s, i);
        lemma_enc_seq_take_len(s, i + 1);
    }
}

/// Appends the 8 big-endian bytes of `v`.
pub fn write_u64_be(v: u64, buf: &mut Vec<u8>)
    ensures
        final(buf)@ == old(buf)@ + enc_u64(v),
{
    buf.push((v >> 56) as u8);
    buf.push((v >> 48) as u8);
    buf.push((v >> 40) as u8);
    buf.push((v >> 32) as u8);
    buf.push((v >> 24) as u8);
    buf.push((v >> 16) as u8);
    buf.push((v >> 8) as u8);
    buf.push(v as u8);
    assert(buf@ =~= old(buf)@ + enc_u64(v));
}

/// Appends the 4 big-endian bytes of `v`.
pub fn write_u32_be(v: u32, buf: &mut Vec<u8>)
    ensures
        final(buf)@ == old(buf)@ + enc_u32(v),
{
    buf.push((v >> 24) as u8);
    buf.push((v >> 16) as u8);
    buf.push((v >> 8) as u8);
    buf.push(v as u8);
    assert(buf@ =~= old(buf)@ + enc_u32(v));
}

impl EncodeBinary for u8 {
    open spec fn enc(&self) -> Seq<u8> {
        seq![*self]
    }

    fn get_byte_size(&self) -> (r: usize)
        ensures
            r == self.enc().len(),
    {
        1
    }

    fn write_byte(&self, buf: &mut Vec<u8>)
        ensures
            final(buf)@ == old(buf)@ + self.enc(),
    {
        buf.push(*self);
        assert(buf@ =~= old(buf)@ + self.enc());
    }
}

impl EncodeBinary for u32 {
    open spec fn enc(&self) -> Seq<u8> {
        enc_u32(*self)
    }

    fn get_byte_size(&self) -> (r: usize)
        ensures
            r == self.enc().len(),
    {
        4
    }

    fn write_byte(&self, buf: &mut Vec<u8>)
        ensures
            final(buf)@ == old(buf)@ + self.enc(),
    {
        write_u32_be(*self, buf);
    }
}

impl EncodeBinary for u64 {
    open spec fn enc(&self) -> Seq<u8> {
        enc_u64(*self)
    }

    fn get_byte_size(&self) -> (r: usize)
        ensures
            r == self.enc().len(),
    {
        8
    }

    fn write_byte(&self, buf: &mut Vec<u8>)
        ensures
            final(buf)@ == old(buf)@ + self.enc(),
    {
        write_u64_be(*self, buf);
    }
}

impl EncodeBinary for bool {
    open spec fn enc(&self) -> Seq<u8> {
        seq![if *self { 1u8 } else { 0u8 }]
    }

    fn get_byte_size(&self) -> (r: usize)
        ensures
            r == self.enc().len(),
    {
        1
    }

    fn write_byte(&self, buf: &mut Vec<u8>)
        ensures
            final(buf)@ == old(buf)@ + self.enc(),
    {
        buf.push(if *self { 1u8 } else { 0u8 });
        assert(buf@ =~= old(buf)@ + self.enc());
    }
}

/// Fixed-point duration in milliseconds. A fractional duration in seconds
/// is represented as its value scaled by 1000 and rounded to the nearest
/// integer; the image is that integer written as a 4-byte big-endian
/// signed value.
impl EncodeBinary for i32 {
    open spec fn enc(&self) -> Seq<u8> {
        enc_millis(*self)
    }

    fn get_byte_size(&self) -> (r: usize)
        ensures
            r == self.enc().len(),
    {
        4
    }

    fn write_byte(&self, buf: &mut Vec<u8>)
        ensures
            final(buf)@ == old(buf)@ + self.enc(),
    {
        write_u32_be(*self as u32, buf);
    }
}

impl EncodeBinary for String {
    open spec fn enc(&self) -> Seq<u8> {
        enc_str(self@)
    }

    fn get_byte_size(&self) -> (r: usize)
        ensures
            r == self.enc().len(),
    {
        8 + self.as_str().len()
    }

    fn write_byte(&self, buf: &mut Vec<u8>)
        ensures
            final(buf)@ == old(buf)@ + self.enc(),
    {
        let bytes: &[u8] = self.as_str().as_bytes();
        write_u64_be(bytes.len() as u64, buf);
        let ghost mid = buf@;
        let n: usize = bytes.len();
        let mut i: usize = 0;
        while i < n
            invariant
                n == bytes@.len(),
                i <= n,
                buf@ == mid + bytes@.take(i as int),
            decreases n - i,
        {
            buf.push(bytes[i]);
            assert(buf@ =~= mid + bytes@.take(i + 1));
            i = i + 1;
        }
        assert(bytes@.take(n as int) =~= bytes@);
        assert(buf@ =~= old(buf)@ + self.enc());
    }
}

impl<T: EncodeBinary> EncodeBinary for Vec<T> {
    /// A sequence: an 8-byte big-endian element-count prefix followed by
    /// each element's image, concatenated in order.
    open spec fn enc(&self) -> Seq<u8> {
        enc_u64(self@.len() as u64) + enc_seq(self@)
    }

    fn get_byte_size(&self) -> (r: usize)
        ensures
            r == self.enc().len(),
    {
        let mut acc: usize = 8;
        let n: usize = self.len();
        let mut i: usize = 0;
        while i < n
            invariant
                n == self@.len(),
                i <= n,
                self.enc().len() <= usize::MAX,
                acc == 8 + enc_seq(self@.take(i as int)).len(),
            decreases n - i,
        {
            proof {
                lemma_enc_seq_take_succ(self@, i as int);
                lemma_enc_seq_take_len(self@, i + 1);
            }
            let elem_size: usize = self[i].get_byte_size();
            acc = acc + elem_size;
            i = i + 1;
        }
        proof {
            assert(self@.take(n as int) =~= self@);
        }
        acc
    }

    fn write_byte(&self, buf: &mut Vec<u8>)
        ensures
            final(buf)@ == old(buf)@ + self.enc(),
    {
        write_u64_be(self.len() as u64, buf);
        let ghost mid = buf@;
        let n: usize = self.len();
        let mut i: usize = 0;
        while i < n
            invariant
                n == self@.len(),
                i <= n,
                buf@ == mid + enc_seq(self@.take(i as int)),
            decreases n - i,
        {
            proof {
                lemma_enc_seq_take_succ(self@, i as int);
            }
            self[i].write_byte(buf);
            i = i + 1;
        }
        proof {
            assert(self@.take(n as int) =~= self@);
            assert(buf@ =~= old(buf)@ + self.enc());
        }
    }
}

} // verus!
