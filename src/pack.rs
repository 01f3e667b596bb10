//! Packing a set of encoded definitions and the hash of an entry point into one text:
//! serialised with bincode's fixed-width format, then written as base64.
use vstd::prelude::*;
use vstd::utf8::encode_utf8;

verus! {

/// Eight bytes of `n`, least significant first.
pub open spec fn le_u64(n: nat) -> Seq<u8> {
    Seq::new(8, |i: int| ((n / pow256(i as nat)) % 256) as u8)
}

pub open spec fn pow256(k: nat) -> nat
    decreases k,
{
    if k == 0 {
        1
    } else {
        256 * pow256((k - 1) as nat)
    }
}

/// A length-prefixed run of bytes.
pub open spec fn framed(b: Seq<u8>) -> Seq<u8> {
    le_u64(b.len()) + b
}

/// The serialised form of definitions `defs[i..]`: each name and its bytes, framed.
pub open spec fn framed_defs(defs: Seq<(Seq<char>, Seq<u8>)>) -> Seq<u8>
    decreases defs.len(),
{
    if defs.len() == 0 {
        Seq::empty()
    } else {
        framed(encode_utf8(defs[0].0)) + framed(defs[0].1) + framed_defs(defs.drop_first())
    }
}

/// The serialised form of a pack: the number of definitions, the definitions, and the
/// entry point's hash text.
pub open spec fn packed(defs: Seq<(Seq<char>, Seq<u8>)>, hash: Seq<char>) -> Seq<u8> {
    le_u64(defs.len()) + framed_defs(defs) + framed(encode_utf8(hash))
}

pub open spec fn defs_v(defs: Seq<(String, Vec<u8>)>) -> Seq<(Seq<char>, Seq<u8>)> {
    defs.map_values(|d: (String, Vec<u8>)| (d.0@, d.1@))
}

/// The base64 text of `b`, in the standard alphabet with padding.
pub uninterp spec fn base64_text(b: Seq<u8>) -> Seq<char>;

/// The bytes that the base64 text `s` stands for, if it is valid base64.
pub uninterp spec fn base64_bytes(s: Seq<char>) -> Option<Seq<u8>>;

/// Relies on bincode's `serialize`: with its default fixed-width options a sequence or a
/// text is its length as eight little-endian bytes and then its items, and a tuple is
/// its fields one after another.
#[verifier::external_body]
fn bincode_pack(defs: &Vec<(String, Vec<u8>)>, hash: &str) -> (r: Option<Vec<u8>>)
    ensures
        r matches Some(b) ==> b@ == packed(defs_v(defs@), hash@),
{
    bincode::serialize(&(defs, hash)).ok()
}

/// Relies on bincode's `deserialize`, the inverse of `serialize` on the same options; it
/// reads a prefix of the bytes and allows bytes after it.
#[verifier::external_body]
fn bincode_unpack(b: &Vec<u8>) -> (r: Option<(Vec<(String, Vec<u8>)>, String)>)
    ensures
        r matches Some((defs, hash)) ==> {
            let p = packed(defs_v(defs@), hash@);
            p.len() <= b@.len() && b@.subrange(0, p.len() as int) == p
        },
{
    bincode::deserialize::<(Vec<(String, Vec<u8>)>, String)>(b).ok()
}

/// Relies on base64's `encode`: standard alphabet, padded to whole groups of four.
#[verifier::external_body]
fn to_base64(b: &Vec<u8>) -> (r: String)
    ensures
        r@ == base64_text(b@),
        r@.len() == 4 * ((b@.len() + 2) / 3),
{
    base64::encode(b)
}

/// Relies on base64's `decode`: the bytes of valid standard base64, or an error.
#[verifier::external_body]
fn from_base64(s: &str) -> (r: Option<Vec<u8>>)
    ensures
        match base64_bytes(s@) {
            Some(b) => r matches Some(x) && x@ == b,
            None => r is None,
        },
{
    base64::decode(s).ok()
}

/// The definitions `defs` and the entry point `hash`, serialised and written as base64.
pub fn pack(defs: &Vec<(String, Vec<u8>)>, hash: &str) -> (r: Option<String>)
    ensures
        r matches Some(t) ==> t@ == base64_text(packed(defs_v(defs@), hash@)),
{
    match bincode_pack(defs, hash) {
        Some(b) => Some(to_base64(&b)),
        None => None,
    }
}

/// What the base64 text `data` packs: definitions and an entry point whose serialised
/// form opens the bytes that `data` stands for.
pub fn unpack(data: &str) -> (r: Option<(Vec<(String, Vec<u8>)>, String)>)
    ensures
        r matches Some((defs, hash)) ==> (base64_bytes(data@) matches Some(b) && {
            let p = packed(defs_v(defs@), hash@);
            p.len() <= b.len() && b.subrange(0, p.len() as int) == p
        }),
        base64_bytes(data@) is None ==> r is None,
{
    match from_base64(data) {
        Some(b) => bincode_unpack(&b),
        None => None,
    }
}

} // verus!
