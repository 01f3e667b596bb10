//! The byte stream and its primitive values: bytes, big-endian words, variable-length
//! naturals, texts and symbols.
use vstd::prelude::*;
use vstd::utf8::{decode_utf8, valid_utf8, encode_utf8};
use byteorder::{BigEndian, ByteOrder};
use crate::types::{Symbol, SymbolV};

verus! {

broadcast use vstd::std_specs::vec::group_vec_axioms;

/// Why a byte stream could not be decoded.
#[derive(PartialEq, Eq, Structural, Clone, Copy, Debug)]
pub enum DecodeError {
    /// The stream ended inside a value.
    UnexpectedEnd,
    /// A tag byte outside the range that its position allows.
    UnknownTag(u8),
    /// Text whose bytes are not UTF-8.
    InvalidText,
    /// A variable index past the end of its scope.
    BadIndex,
    /// A variable-length number too large for `usize`.
    TooLarge,
}

/// The outcome of decoding from a position: the value and the position after it.
pub type Parsed<T> = Result<(T, int), DecodeError>;

/// Value of eight bytes read as a big-endian unsigned integer.
pub open spec fn be_u64(b: Seq<u8>) -> nat
    recommends
        b.len() == 8,
{
    b[0] as nat * 0x100000000000000 + b[1] as nat * 0x1000000000000 + b[2] as nat
        * 0x10000000000 + b[3] as nat * 0x100000000 + b[4] as nat * 0x1000000 + b[5] as nat
        * 0x10000 + b[6] as nat * 0x100 + b[7] as nat
}

/// The bytes of a variable-length natural: seven bits a byte, least significant chunk
/// first, the high bit set on every byte but the last.
pub open spec fn varint_bytes(n: nat) -> Seq<u8>
    decreases n,
{
    if n < 128 {
        seq![n as u8]
    } else {
        seq![(n % 128 + 128) as u8] + varint_bytes(n / 128)
    }
}

/// The variable-length natural that starts at `p`, and the position after it.
pub open spec fn varint_at(s: Seq<u8>, p: int) -> Option<(nat, int)>
    decreases s.len() - p,
{
    if p < 0 || p >= s.len() {
        None
    } else if s[p] < 128 {
        Some((s[p] as nat, p + 1))
    } else {
        match varint_at(s, p + 1) {
            Some((rest, q)) => Some((rest * 128 + (s[p] - 128) as nat, q)),
            None => None,
        }
    }
}

pub open spec fn parse_usize(s: Seq<u8>, p: int) -> Parsed<usize> {
    match varint_at(s, p) {
        None => Err(DecodeError::UnexpectedEnd),
        Some((n, q)) => if n <= usize::MAX {
            Ok((n as usize, q))
        } else {
            Err(DecodeError::TooLarge)
        },
    }
}

pub open spec fn parse_u8(s: Seq<u8>, p: int) -> Parsed<u8> {
    if 0 <= p < s.len() {
        Ok((s[p], p + 1))
    } else {
        Err(DecodeError::UnexpectedEnd)
    }
}

pub open spec fn parse_u64(s: Seq<u8>, p: int) -> Parsed<u64> {
    if 0 <= p && p + 8 <= s.len() {
        Ok((be_u64(s.subrange(p, p + 8)) as u64, p + 8))
    } else {
        Err(DecodeError::UnexpectedEnd)
    }
}

pub open spec fn parse_i64(s: Seq<u8>, p: int) -> Parsed<i64> {
    match parse_u64(s, p) {
        Ok((w, q)) => Ok((w as i64, q)),
        Err(e) => Err(e),
    }
}

/// A boolean is a byte that is true exactly when it is 1.
pub open spec fn parse_bool(s: Seq<u8>, p: int) -> Parsed<bool> {
    match parse_u8(s, p) {
        Ok((b, q)) => Ok((b == 1, q)),
        Err(e) => Err(e),
    }
}

/// A character is one byte, read as the code point of that value.
pub open spec fn parse_char(s: Seq<u8>, p: int) -> Parsed<char> {
    match parse_u8(s, p) {
        Ok((b, q)) => Ok((b as char, q)),
        Err(e) => Err(e),
    }
}

/// A length followed by that many raw bytes.
pub open spec fn parse_bytes(s: Seq<u8>, p: int) -> Parsed<Seq<u8>> {
    match parse_usize(s, p) {
        Ok((n, q)) => if q + n <= s.len() {
            Ok((s.subrange(q, q + n), q + n))
        } else {
            Err(DecodeError::UnexpectedEnd)
        },
        Err(e) => Err(e),
    }
}

/// Text: a length followed by that many bytes of UTF-8.
pub open spec fn parse_text(s: Seq<u8>, p: int) -> Parsed<Seq<char>> {
    match parse_bytes(s, p) {
        Ok((b, q)) => if valid_utf8(b) {
            Ok((decode_utf8(b), q))
        } else {
            Err(DecodeError::InvalidText)
        },
        Err(e) => Err(e),
    }
}

pub open spec fn parse_symbol(s: Seq<u8>, p: int) -> Parsed<SymbolV> {
    match parse_usize(s, p) {
        Ok((num, q)) => match parse_text(s, q) {
            Ok((text, r)) => Ok((SymbolV { num, text }, r)),
            Err(e) => Err(e),
        },
        Err(e) => Err(e),
    }
}

/// The bytes of a symbol whose text is `text`.
pub open spec fn symbol_bytes(num: nat, text: Seq<char>) -> Seq<u8> {
    varint_bytes(num) + varint_bytes(encode_utf8(text).len()) + encode_utf8(text)
}

/// Relies on byteorder's `BigEndian::read_u64`: the first eight bytes of the slice,
/// most significant first.
#[verifier::external_body]
fn read_be_u64(b: &Vec<u8>, at: usize) -> (r: u64)
    requires
        at + 8 <= b@.len(),
    ensures
        r as nat == be_u64(b@.subrange(at as int, at + 8)),
{
    BigEndian::read_u64(&b[at..])
}

/// Relies on std's `String::from_utf8`: it succeeds exactly on UTF-8 input, and the
/// text holds the characters that the bytes encode.
#[verifier::external_body]
fn utf8_text(b: Vec<u8>) -> (r: Option<String>)
    ensures
        r is Some <==> valid_utf8(b@),
        r matches Some(t) ==> t@ == decode_utf8(b@),
{
    String::from_utf8(b).ok()
}

/// A byte stream and the position of the next byte to decode.
pub struct Buffer {
    pub buf: Vec<u8>,
    pub idx: usize,
}

/// The number that `varint_at` reads, computed from position `p` of `buf`.
fn varint_from(buf: &Vec<u8>, p: usize) -> (r: Result<(usize, usize), DecodeError>)
    ensures
        match varint_at(buf@, p as int) {
            None => r == Err::<(usize, usize), DecodeError>(DecodeError::UnexpectedEnd),
            Some((n, q)) => if n <= usize::MAX {
                r == Ok::<(usize, usize), DecodeError>((n as usize, q as usize))
            } else {
                r == Err::<(usize, usize), DecodeError>(DecodeError::TooLarge)
            },
        },
    decreases buf@.len() - p,
{
    if p >= buf.len() {
        return Err(DecodeError::UnexpectedEnd);
    }
    let b = buf[p];
    if b < 128 {
        Ok((b as usize, p + 1))
    } else {
        let low = (b - 128) as usize;
        match varint_from(buf, p + 1) {
            Err(e) => {
                proof {
                    if e == DecodeError::TooLarge {
                        let (rest, _) = varint_at(buf@, p + 1).unwrap();
                        assert(rest * 128 + low > usize::MAX) by (nonlinear_arith)
                            requires
                                rest > usize::MAX,
                        ;
                    }
                }
                Err(e)
            },
            Ok((rest, q)) => {
                if rest > (usize::MAX - low) / 128 {
                    assert(rest * 128 + low > usize::MAX) by (nonlinear_arith)
                        requires
                            rest > (usize::MAX - low) / 128,
                            low < 128,
                    ;
                    Err(DecodeError::TooLarge)
                } else {
                    assert(rest * 128 + low <= usize::MAX) by (nonlinear_arith)
                        requires
                            rest <= (usize::MAX - low) / 128,
                            low < 128,
                    ;
                    Ok((rest * 128 + low, q))
                }
            },
        }
    }
}

pub proof fn lemma_varint_advances(s: Seq<u8>, p: int)
    ensures
        varint_at(s, p) matches Some((_, q)) ==> p < q <= s.len(),
    decreases s.len() - p,
{
    if 0 <= p < s.len() && s[p] >= 128 {
        lemma_varint_advances(s, p + 1);
    }
}

/// Decoding the bytes of a natural, wherever they stand in a stream, gives that natural
/// back and stops right after them.
pub proof fn lemma_varint_round_trip(n: nat, s: Seq<u8>, p: int)
    requires
        0 <= p,
        p + varint_bytes(n).len() <= s.len(),
        s.subrange(p, p + varint_bytes(n).len()) == varint_bytes(n),
    ensures
        varint_at(s, p) == Some((n, p + varint_bytes(n).len())),
    decreases n,
{
    let b = varint_bytes(n);
    assert(s[p] == s.subrange(p, p + b.len())[0]);
    if n >= 128 {
        let tail = varint_bytes(n / 128);
        assert(b == seq![(n % 128 + 128) as u8] + tail);
        assert(s.subrange(p + 1, p + 1 + tail.len()) =~= s.subrange(p, p + b.len()).subrange(
            1,
            b.len() as int,
        ));
        assert(b.subrange(1, b.len() as int) =~= tail);
        lemma_varint_round_trip(n / 128, s, p + 1);
        assert(s[p] == (n % 128 + 128) as u8);
    }
}

/// The bytes of a natural, decoded on their own, give that natural.
pub proof fn lemma_varint_decode_encode(n: nat)
    ensures
        varint_at(varint_bytes(n), 0) == Some((n, varint_bytes(n).len() as int)),
{
    let b = varint_bytes(n);
    assert(b.subrange(0, b.len() as int) =~= b);
    lemma_varint_round_trip(n, b, 0);
}

/// The bytes of a variable-length natural.
pub fn encode_varint(n: usize) -> (r: Vec<u8>)
    ensures
        r@ == varint_bytes(n as nat),
{
    let mut out: Vec<u8> = Vec::new();
    let mut m: usize = n;
    while m >= 128
        invariant
            out@ + varint_bytes(m as nat) == varint_bytes(n as nat),
        decreases m,
    {
        let b: u8 = (m % 128 + 128) as u8;
        proof {
            assert(varint_bytes(m as nat) == seq![b] + varint_bytes((m / 128) as nat));
            assert(out@.push(b) + varint_bytes((m / 128) as nat) =~= out@ + (seq![b]
                + varint_bytes((m / 128) as nat)));
        }
        out.push(b);
        m = m / 128;
    }
    proof {
        assert(varint_bytes(m as nat) == seq![m as u8]);
        assert(out@.push(m as u8) =~= out@ + varint_bytes(m as nat));
    }
    out.push(m as u8);
    out
}

impl Buffer {
    /// A buffer positioned at the first byte of `buf`.
    pub fn new(buf: Vec<u8>) -> (r: Buffer)
        ensures
            r.buf == buf,
            r.idx == 0,
    {
        Buffer { buf, idx: 0 }
    }

    /// Whether every byte has been consumed.
    pub fn at_end(&self) -> (r: bool)
        ensures
            r == (self.idx >= self.buf@.len()),
    {
        self.idx >= self.buf.len()
    }

    /// Moves past `count` bytes and returns where they start.
    fn get_n(&mut self, count: usize) -> (r: Result<usize, DecodeError>)
        ensures
            final(self).buf == old(self).buf,
            old(self).idx + count <= old(self).buf@.len() ==> r == Ok::<usize, DecodeError>(
                old(self).idx,
            ) && final(self).idx == old(self).idx + count,
            old(self).idx + count > old(self).buf@.len() ==> r == Err::<usize, DecodeError>(
                DecodeError::UnexpectedEnd,
            ),
    {
        if count > self.buf.len() || self.idx > self.buf.len() - count {
            return Err(DecodeError::UnexpectedEnd);
        }
        let at = self.idx;
        self.idx = self.idx + count;
        Ok(at)
    }

    pub fn get_u8(&mut self) -> (r: Result<u8, DecodeError>)
        ensures
            final(self).buf == old(self).buf,
            r is Ok ==> old(self).idx < final(self).idx <= old(self).buf@.len(),
            match parse_u8(old(self).buf@, old(self).idx as int) {
                Ok((v, q)) => r == Ok::<u8, DecodeError>(v) && final(self).idx == q,
                Err(e) => r == Err::<u8, DecodeError>(e),
            },
    {
        let at = self.get_n(1)?;
        Ok(self.buf[at])
    }

    pub fn get_usize(&mut self) -> (r: Result<usize, DecodeError>)
        ensures
            final(self).buf == old(self).buf,
            r is Ok ==> old(self).idx < final(self).idx <= old(self).buf@.len(),
            match parse_usize(old(self).buf@, old(self).idx as int) {
                Ok((v, q)) => r == Ok::<usize, DecodeError>(v) && final(self).idx == q,
                Err(e) => r == Err::<usize, DecodeError>(e),
            },
    {
        proof {
            lemma_varint_advances(self.buf@, self.idx as int);
            assert(self.buf.len() == self.buf@.len());
        }
        let (n, q) = varint_from(&self.buf, self.idx)?;
        self.idx = q;
        Ok(n)
    }

    pub fn get_u64(&mut self) -> (r: Result<u64, DecodeError>)
        ensures
            final(self).buf == old(self).buf,
            r is Ok ==> old(self).idx < final(self).idx <= old(self).buf@.len(),
            match parse_u64(old(self).buf@, old(self).idx as int) {
                Ok((v, q)) => r == Ok::<u64, DecodeError>(v) && final(self).idx == q,
                Err(e) => r == Err::<u64, DecodeError>(e),
            },
    {
        let at = self.get_n(8)?;
        Ok(read_be_u64(&self.buf, at))
    }

    pub fn get_i64(&mut self) -> (r: Result<i64, DecodeError>)
        ensures
            final(self).buf == old(self).buf,
            r is Ok ==> old(self).idx < final(self).idx <= old(self).buf@.len(),
            match parse_i64(old(self).buf@, old(self).idx as int) {
                Ok((v, q)) => r == Ok::<i64, DecodeError>(v) && final(self).idx == q,
                Err(e) => r == Err::<i64, DecodeError>(e),
            },
    {
        let w = self.get_u64()?;
        Ok(w as i64)
    }

    pub fn get_bool(&mut self) -> (r: Result<bool, DecodeError>)
        ensures
            final(self).buf == old(self).buf,
            r is Ok ==> old(self).idx < final(self).idx <= old(self).buf@.len(),
            match parse_bool(old(self).buf@, old(self).idx as int) {
                Ok((v, q)) => r == Ok::<bool, DecodeError>(v) && final(self).idx == q,
                Err(e) => r == Err::<bool, DecodeError>(e),
            },
    {
        let b = self.get_u8()?;
        Ok(b == 1)
    }

    pub fn get_char(&mut self) -> (r: Result<char, DecodeError>)
        ensures
            final(self).buf == old(self).buf,
            r is Ok ==> old(self).idx < final(self).idx <= old(self).buf@.len(),
            match parse_char(old(self).buf@, old(self).idx as int) {
                Ok((v, q)) => r == Ok::<char, DecodeError>(v) && final(self).idx == q,
                Err(e) => r == Err::<char, DecodeError>(e),
            },
    {
        let b = self.get_u8()?;
        Ok(b as char)
    }

    /// A length-prefixed run of raw bytes.
    pub fn get_bytes(&mut self) -> (r: Result<Vec<u8>, DecodeError>)
        ensures
            final(self).buf == old(self).buf,
            r is Ok ==> old(self).idx < final(self).idx <= old(self).buf@.len(),
            match parse_bytes(old(self).buf@, old(self).idx as int) {
                Ok((v, q)) => r matches Ok(b) && b@ == v && final(self).idx == q,
                Err(e) => r == Err::<Vec<u8>, DecodeError>(e),
            },
    {
        let n = self.get_usize()?;
        let at = self.get_n(n)?;
        let mut out: Vec<u8> = Vec::new();
        let mut i: usize = 0;
        while i < n
            invariant
                at + n <= self.buf@.len(),
                self.buf.len() == self.buf@.len(),
                i <= n,
                out@ == self.buf@.subrange(at as int, at + i),
            decreases n - i,
        {
            out.push(self.buf[at + i]);
            i = i + 1;
            assert(out@ =~= self.buf@.subrange(at as int, at + i));
        }
        Ok(out)
    }

    pub fn get_text(&mut self) -> (r: Result<String, DecodeError>)
        ensures
            final(self).buf == old(self).buf,
            r is Ok ==> old(self).idx < final(self).idx <= old(self).buf@.len(),
            match parse_text(old(self).buf@, old(self).idx as int) {
                Ok((v, q)) => r matches Ok(t) && t@ == v && final(self).idx == q,
                Err(e) => r == Err::<String, DecodeError>(e),
            },
    {
        let b = self.get_bytes()?;
        match utf8_text(b) {
            Some(t) => Ok(t),
            None => Err(DecodeError::InvalidText),
        }
    }

    pub fn get_symbol(&mut self) -> (r: Result<Symbol, DecodeError>)
        ensures
            final(self).buf == old(self).buf,
            r is Ok ==> old(self).idx < final(self).idx <= old(self).buf@.len(),
            match parse_symbol(old(self).buf@, old(self).idx as int) {
                Ok((v, q)) => r matches Ok(t) && t@ == v && final(self).idx == q,
                Err(e) => r == Err::<Symbol, DecodeError>(e),
            },
    {
        let num = self.get_usize()?;
        let text = self.get_text()?;
        Ok(Symbol { num, text })
    }

    pub fn get_hash(&mut self) -> (r: Result<crate::types::Hash, DecodeError>)
        ensures
            final(self).buf == old(self).buf,
            r is Ok ==> old(self).idx < final(self).idx <= old(self).buf@.len(),
            match parse_bytes(old(self).buf@, old(self).idx as int) {
                Ok((v, q)) => r matches Ok(h) && h@ == v && final(self).idx == q,
                Err(e) => r == Err::<crate::types::Hash, DecodeError>(e),
            },
    {
        let b = self.get_bytes()?;
        Ok(crate::types::Hash(b))
    }
}

} // verus!
