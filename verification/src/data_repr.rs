//! Byte-level representation of wire fields: 32-bit words in network
//! (big-endian) byte order, and variable-length text carried as a
//! zero-padded buffer of fixed capacity.

use vstd::prelude::*;
use vstd::string::*;
use vstd::utf8::{decode_utf8, valid_utf8};

verus! {

/// Errors of the wire codec and of its field conversions.
#[derive(Clone, Copy, PartialEq, Eq, Structural, Debug)]
pub enum NetError {
    /// Fewer bytes than the field or the message needs.
    TruncatedData,
    /// The stream does not start with the magic constant.
    BadMagic,
    /// The header's size field is smaller than the header itself.
    UndersizedLength,
    /// The header's size field is larger than the maximum buffer size.
    OversizedLength,
    /// The header carries an unknown message-type id.
    UnknownId,
    /// A string does not fit into its wire buffer.
    StringTooLong,
    /// Bytes that must form a string are not valid UTF-8.
    InvalidString,
}

impl NetError {
    /// Human-readable description, used in NOK replies and logs.
    pub fn as_text(&self) -> (r: String) {
        match self {
            NetError::TruncatedData => String::from_str("Not enough data."),
            NetError::BadMagic => String::from_str("Invalid message magic."),
            NetError::UndersizedLength => String::from_str("Message length below header size."),
            NetError::OversizedLength => String::from_str("Message length above buffer size."),
            NetError::UnknownId => String::from_str("Unknown message id."),
            NetError::StringTooLong => String::from_str("String is too long."),
            NetError::InvalidString => String::from_str("Invalid string data."),
        }
    }
}

/// The four bytes of `x` in network byte order, most significant first.
pub open spec fn spec_to_net32(x: u32) -> Seq<u8> {
    seq![(x >> 24) as u8, (x >> 16) as u8, (x >> 8) as u8, x as u8]
}

/// The 32-bit word held by the first four bytes of `s`, network byte order.
pub open spec fn spec_from_net32(s: Seq<u8>) -> u32
    recommends
        s.len() >= 4,
{
    ((s[0] as u32) << 24) | ((s[1] as u32) << 16) | ((s[2] as u32) << 8) | (s[3] as u32)
}

/// The 32-bit word at byte offset `off` of `s`, network byte order.
pub open spec fn read32(s: Seq<u8>, off: int) -> u32
    recommends
        0 <= off,
        off + 4 <= s.len(),
{
    spec_from_net32(s.subrange(off, off + 4))
}

/// `n` zero bytes: the padding of a fixed-capacity text buffer.
pub open spec fn zero_bytes(n: int) -> Seq<u8> {
    Seq::new(n as nat, |i: int| 0u8)
}

/// The decoded form of a fixed-capacity text buffer: the `len` transmitted
/// bytes at `off`, zero-padded up to `cap`.
pub open spec fn parsed_buf(s: Seq<u8>, off: int, len: int, cap: int) -> Seq<u8>
    recommends
        0 <= off,
        0 <= len <= cap,
        off + len <= s.len(),
{
    s.subrange(off, off + len) + zero_bytes(cap - len)
}

/// A transmitted length field, clamped to the capacity of its buffer.
pub open spec fn clamp_len(raw: u32, cap: u32) -> u32 {
    if raw > cap {
        cap
    } else {
        raw
    }
}

/// `s` with all trailing zero bytes removed.
pub open spec fn strip_zeros(s: Seq<u8>) -> Seq<u8>
    decreases s.len(),
{
    if s.len() > 0 && s[s.len() - 1] == 0 {
        strip_zeros(s.drop_last())
    } else {
        s
    }
}

/// Stripping trailing zeros changes nothing when the last byte is not
/// zero.
proof fn lemma_strip_zeros_noop(a: Seq<u8>)
    requires
        a.len() == 0 || a[a.len() - 1] != 0,
    ensures
        strip_zeros(a) == a,
{
}

/// TEXT RECOVERY law: a text whose encoding does not end in a zero byte
/// is recovered exactly from its zero-padded wire buffer — the stored
/// prefix, stripped of the padding, is valid UTF-8 and decodes to the
/// text.
pub proof fn lemma_padded_text_recovery(text: Seq<char>, cap: int)
    requires
        vstd::utf8::encode_utf8(text).len() <= cap,
        vstd::utf8::encode_utf8(text).len() > 0 ==> vstd::utf8::encode_utf8(text)[vstd::utf8::encode_utf8(text).len() - 1] != 0,
    ensures
        ({
            let enc = vstd::utf8::encode_utf8(text);
            let buffer = enc + zero_bytes(cap - enc.len());
            let stripped = strip_zeros(buffer.take(enc.len() as int));
            &&& stripped == enc
            &&& valid_utf8(stripped)
            &&& decode_utf8(stripped) == text
        }),
{
    let enc = vstd::utf8::encode_utf8(text);
    let buffer = enc + zero_bytes(cap - enc.len());
    assert(buffer.take(enc.len() as int) =~= enc);
    lemma_strip_zeros_noop(enc);
    vstd::utf8::encode_utf8_valid_utf8(text);
    vstd::utf8::encode_utf8_decode_utf8(text);
}

/// Decoding a word from its own encoding gives the word back.
pub proof fn lemma_net32_roundtrip(x: u32)
    ensures
        spec_from_net32(spec_to_net32(x)) == x,
{
    assert((((((x >> 24) as u8) as u32) << 24) | ((((x >> 16) as u8) as u32) << 16) | ((((x
        >> 8) as u8) as u32) << 8) | ((x as u8) as u32)) == x) by (bit_vector);
}

/// The flat encoding of a block of words, each in network byte order.
pub open spec fn enc_words(ws: Seq<u32>) -> Seq<u8> {
    Seq::new((4 * ws.len()) as nat, |i: int| spec_to_net32(ws[i / 4])[i % 4])
}

/// Appending a word to a block appends its four bytes to the encoding.
pub proof fn lemma_enc_words_push(ws: Seq<u32>, x: u32)
    ensures
        enc_words(ws.push(x)) =~= enc_words(ws) + spec_to_net32(x),
{
    assert forall|i: int| 0 <= i < 4 * ws.len() + 4 implies enc_words(ws.push(x))[i] == (
    enc_words(ws) + spec_to_net32(x))[i] by {
        if i < 4 * ws.len() {
            assert(0 <= i / 4 < ws.len());
            assert(ws.push(x)[i / 4] == ws[i / 4]);
        } else {
            assert(i / 4 == ws.len() && i % 4 == i - 4 * ws.len());
            assert(ws.push(x)[i / 4] == x);
        }
    }
}

/// Reading the word at offset `base + 4k` of a block that encodes `ws` at
/// `base` gives `ws[k]`.
pub proof fn lemma_read32_words(s: Seq<u8>, base: int, ws: Seq<u32>, k: int)
    requires
        0 <= base,
        base + 4 * ws.len() <= s.len(),
        s.subrange(base, base + 4 * ws.len()) =~= enc_words(ws),
        0 <= k < ws.len(),
    ensures
        read32(s, base + 4 * k) == ws[k],
{
    let sub = s.subrange(base + 4 * k, base + 4 * k + 4);
    assert forall|j: int| 0 <= j < 4 implies sub[j] == spec_to_net32(ws[k])[j] by {
        assert(sub[j] == s.subrange(base, base + 4 * ws.len())[4 * k + j]);
        assert(enc_words(ws)[4 * k + j] == spec_to_net32(ws[(4 * k + j) / 4])[(4 * k + j) % 4]);
        assert((4 * k + j) / 4 == k && (4 * k + j) % 4 == j);
    }
    assert(sub =~= spec_to_net32(ws[k]));
    lemma_read32_at(s, base + 4 * k, ws[k]);
}

/// The zero word encodes as four zero bytes.
pub proof fn lemma_net32_zero()
    ensures
        spec_to_net32(0) =~= zero_bytes(4),
{
    assert((0u32 >> 24) as u8 == 0 && (0u32 >> 16) as u8 == 0 && (0u32 >> 8) as u8 == 0 && 0u32
        as u8 == 0) by (bit_vector);
}

/// The word at an offset where a word block was appended is that word.
pub proof fn lemma_read32_at(s: Seq<u8>, off: int, x: u32)
    requires
        0 <= off,
        off + 4 <= s.len(),
        s.subrange(off, off + 4) =~= spec_to_net32(x),
    ensures
        read32(s, off) == x,
{
    lemma_net32_roundtrip(x);
}

/// Read the word at byte offset `off`, network byte order.
pub fn read_u32(data: &[u8], off: usize) -> (x: u32)
    requires
        off + 4 <= data@.len(),
    ensures
        x == read32(data@, off as int),
{
    let b0 = data[off];
    let b1 = data[off + 1];
    let b2 = data[off + 2];
    let b3 = data[off + 3];
    proof {
        assert(data@.subrange(off as int, off as int + 4) =~= seq![b0, b1, b2, b3]);
    }
    ((b0 as u32) << 24) | ((b1 as u32) << 16) | ((b2 as u32) << 8) | (b3 as u32)
}

/// Append the word `x` in network byte order.
pub fn push_u32(out: &mut Vec<u8>, x: u32)
    ensures
        final(out)@ == old(out)@ + spec_to_net32(x),
{
    out.push((x >> 24) as u8);
    out.push((x >> 16) as u8);
    out.push((x >> 8) as u8);
    out.push(x as u8);
    proof {
        assert(out@ =~= old(out)@ + spec_to_net32(x));
    }
}

/// Copy `len` bytes starting at `off` and pad with zeros up to `cap`.
pub fn extract_padded(data: &[u8], off: usize, len: usize, cap: usize) -> (r: Vec<u8>)
    requires
        len <= cap,
        off + len <= data@.len(),
    ensures
        r@ == data@.subrange(off as int, off as int + len as int) + zero_bytes(cap - len),
        r@.len() == cap,
{
    let total = data.len();
    let mut r: Vec<u8> = Vec::new();
    let mut i: usize = 0;
    while i < len
        invariant
            i <= len,
            len <= cap,
            off + len <= total,
            total == data@.len(),
            r@ =~= data@.subrange(off as int, off as int + i as int),
        decreases len - i,
    {
        r.push(data[off + i]);
        i += 1;
        proof {
            assert(r@ =~= data@.subrange(off as int, off as int + i as int));
        }
    }
    while i < cap
        invariant
            len <= i <= cap,
            off + len <= data@.len(),
            r@ =~= data@.subrange(off as int, off as int + len as int) + zero_bytes(
                i as int - len as int,
            ),
        decreases cap - i,
    {
        r.push(0);
        i += 1;
        proof {
            assert(r@ =~= data@.subrange(off as int, off as int + len as int) + zero_bytes(
                i as int - len as int,
            ));
        }
    }
    proof {
        assert(r@ =~= data@.subrange(off as int, off as int + len as int) + zero_bytes(
            cap - len,
        ));
    }
    r
}

/// Relies on `String::from_utf8`: it returns `Ok` exactly on valid UTF-8
/// input, decoding the bytes to the characters they encode.
#[verifier::external_body]
fn utf8_to_string(v: Vec<u8>) -> (r: Option<String>)
    ensures
        r is Some <==> valid_utf8(v@),
        r is Some ==> r.unwrap()@ == decode_utf8(v@),
{
    String::from_utf8(v).ok()
}

/// What `String::from_utf8_lossy` makes of the given bytes; it depends on
/// the bytes alone.
pub uninterp spec fn utf8_lossy_of(b: Seq<u8>) -> Seq<char>;

/// Relies on `String::from_utf8_lossy`: a pure function of the bytes that
/// decodes valid UTF-8 input exactly.
#[verifier::external_body]
fn utf8_to_string_lossy(v: &[u8]) -> (r: String)
    ensures
        r@ == utf8_lossy_of(v@),
        valid_utf8(v@) ==> r@ == decode_utf8(v@),
{
    String::from_utf8_lossy(v).to_string()
}

/// Conversion of a 32-bit word to network byte order.
pub trait ToNet32 {
    /// The bytes this value puts on the wire.
    spec fn net_bytes(&self) -> Seq<u8>;

    /// Convert to network byte order.
    fn to_net(&self) -> (r: [u8; 4])
        ensures
            r@ == self.net_bytes(),
    ;
}

impl ToNet32 for u32 {
    open spec fn net_bytes(&self) -> Seq<u8> {
        spec_to_net32(*self)
    }

    fn to_net(&self) -> (r: [u8; 4]) {
        let r = [(*self >> 24) as u8, (*self >> 16) as u8, (*self >> 8) as u8, *self as u8];
        proof {
            assert(r@ =~= spec_to_net32(*self));
        }
        r
    }
}

/// Conversion of a 32-bit word from network byte order.
pub trait FromNet32 {
    /// Convert from network byte order.
    fn from_net(data: &[u8]) -> (r: Result<u32, NetError>)
        ensures
            data@.len() >= 4 ==> r == Ok::<u32, NetError>(read32(data@, 0)),
            data@.len() < 4 ==> r == Err::<u32, NetError>(NetError::TruncatedData),
    ;
}

impl FromNet32 for u32 {
    fn from_net(data: &[u8]) -> (r: Result<u32, NetError>) {
        if data.len() >= 4 {
            Ok(read_u32(data, 0))
        } else {
            Err(NetError::TruncatedData)
        }
    }
}

/// Conversion of text into a zero-padded wire buffer of fixed capacity.
pub trait ToNetStr {
    /// The bytes this text contributes to the wire before padding.
    spec fn net_bytes(&self) -> Seq<u8>;

    /// Encode into a zero-padded buffer of capacity `cap`. With `truncate`,
    /// text that does not fit is cut at `cap` bytes; without, it is refused.
    fn to_net(&self, cap: usize, truncate: bool) -> (r: Result<Vec<u8>, NetError>)
        ensures
            r is Ok <==> (self.net_bytes().len() <= cap || truncate),
            r matches Ok(v) ==> v@ == if self.net_bytes().len() <= cap {
                self.net_bytes() + zero_bytes(cap - self.net_bytes().len())
            } else {
                self.net_bytes().take(cap as int)
            },
            r matches Err(e) ==> e == NetError::StringTooLong,
    ;
}

impl ToNetStr for str {
    open spec fn net_bytes(&self) -> Seq<u8> {
        self.spec_bytes()
    }

    fn to_net(&self, cap: usize, truncate: bool) -> (r: Result<Vec<u8>, NetError>) {
        let bytes = self.as_bytes();
        if bytes.len() > cap && !truncate {
            return Err(NetError::StringTooLong);
        }
        let len = if bytes.len() > cap {
            cap
        } else {
            bytes.len()
        };
        let v = extract_padded(bytes, 0, len, cap);
        proof {
            if self.spec_bytes().len() <= cap {
                assert(v@ =~= self.spec_bytes() + zero_bytes(cap - self.spec_bytes().len()));
            } else {
                assert(v@ =~= self.spec_bytes().take(cap as int));
            }
        }
        Ok(v)
    }
}

/// Conversion of a zero-padded wire buffer back into text.
pub trait FromNetStr: Sized + View<V = Seq<char>> {
    /// Decode text from a wire buffer, first removing the zero padding.
    /// With `lossy`, invalid UTF-8 is replaced instead of refused.
    fn from_net(bytes: &[u8], lossy: bool) -> (r: Result<Self, NetError>)
        ensures
            lossy ==> r is Ok,
            !lossy ==> (r is Ok <==> valid_utf8(strip_zeros(bytes@))),
            r matches Ok(s) ==> (valid_utf8(strip_zeros(bytes@)) ==> s@ == decode_utf8(
                strip_zeros(bytes@),
            )),
            r matches Ok(s) ==> (lossy ==> s@ == utf8_lossy_of(strip_zeros(bytes@))),
            r matches Err(e) ==> e == NetError::InvalidString,
    ;
}

impl FromNetStr for String {
    fn from_net(bytes: &[u8], lossy: bool) -> (r: Result<Self, NetError>) {
        let mut len: usize = bytes.len();
        proof {
            assert(bytes@.subrange(0, len as int) =~= bytes@);
        }
        while len > 0 && bytes[len - 1] == 0
            invariant
                len <= bytes@.len(),
                strip_zeros(bytes@) == strip_zeros(bytes@.subrange(0, len as int)),
            decreases len,
        {
            proof {
                assert(bytes@.subrange(0, len as int).drop_last() =~= bytes@.subrange(
                    0,
                    len as int - 1,
                ));
            }
            len -= 1;
        }
        proof {
            assert(bytes@.subrange(0, len as int) =~= strip_zeros(bytes@.subrange(0, len as int)));
            assert(bytes@.subrange(0, bytes@.len() as int) =~= bytes@);
        }
        let stripped = extract_padded(bytes, 0, len, len);
        proof {
            assert(stripped@ =~= bytes@.subrange(0, len as int));
        }
        if lossy {
            Ok(utf8_to_string_lossy(stripped.as_slice()))
        } else {
            match utf8_to_string(stripped) {
                Some(s) => Ok(s),
                None => Err(NetError::InvalidString),
            }
        }
    }
}

} // verus!
