//! Namespaces: paths, the text form of hashes, branches and their merging, and the name
//! index of a codebase.
use vstd::prelude::*;
use std::rc::Rc;
use crate::types::{Reference, Referent, Symbol, ABT, Type, Id};
use crate::pattern::same_bytes;
use vstd::string::{StringSliceAdditionalSpecFns, StrSliceExecFns};

verus! {

broadcast use vstd::std_specs::vec::group_vec_axioms;

/// Relies on std's `String::push`: the character is appended at the end.
#[verifier::external_body]
fn push_char(s: &mut String, c: char)
    ensures
        final(s)@ == old(s)@.push(c),
{
    s.push(c)
}

/// Relies on std's `String::push_str`: the slice's characters are appended at the end.
#[verifier::external_body]
fn push_text(s: &mut String, t: &str)
    ensures
        final(s)@ == old(s)@ + t@,
{
    s.push_str(t)
}

// ---------------------------------------------------------------- paths

/// `part` appended to the path `base` as a further component: an absolute `part`
/// replaces `base`, and a separator stands between them unless `base` is empty or
/// already ends with one.
pub open spec fn path_join(base: Seq<char>, part: Seq<char>) -> Seq<char> {
    if part.len() > 0 && part[0] == '/' {
        part
    } else if base.len() == 0 || base.last() == '/' {
        base + part
    } else {
        base + seq!['/'] + part
    }
}

/// The path `path` with `part` appended as a further component.
pub fn path_with(path: &str, part: &str) -> (r: String)
    ensures
        r@ == path_join(path@, part@),
{
    let n = path.unicode_len();
    let m = part.unicode_len();
    if m > 0 && part.get_char(0) == '/' {
        return part.to_owned();
    }
    let mut out = path.to_owned();
    if n > 0 && path.get_char(n - 1) != '/' {
        push_char(&mut out, '/');
    }
    push_text(&mut out, part);
    out
}

/// The directory that holds the head of a codebase rooted at `root`.
pub fn head_dir(root: &str) -> (r: String)
    ensures
        r@ == path_join(path_join(root@, "paths"@), "_head"@),
{
    let paths = path_with(root, "paths");
    path_with(paths.as_str(), "_head")
}

// ---------------------------------------------------------------- hash text

/// The digit for `d` (below 32) in the hash alphabet `0-9a-v`.
pub open spec fn digit_char(d: nat) -> char {
    if d < 10 {
        ((48 + d) as u8) as char
    } else {
        ((87 + d) as u8) as char
    }
}

/// The value of a byte that is a digit of the hash alphabet.
pub open spec fn digit_value(b: u8) -> Option<nat> {
    if 48 <= b <= 57 {
        Some((b - 48) as nat)
    } else if 97 <= b <= 118 {
        Some((b - 87) as nat)
    } else {
        None
    }
}

pub open spec fn byte_at(b: Seq<u8>, k: int) -> nat {
    if 0 <= k < b.len() {
        b[k] as nat
    } else {
        0
    }
}

/// 2 to the power `k`, for `k` below 16.
pub open spec fn pow2(k: nat) -> nat
    decreases k,
{
    if k == 0 {
        1
    } else {
        2 * pow2((k - 1) as nat)
    }
}

/// The `i`-th digit of the text of `b`: the five bits that start at bit `5 i`, most
/// significant bit first, with zero bits past the end.
pub open spec fn hash_digit(b: Seq<u8>, i: int) -> nat {
    let p = 5 * i;
    let w = byte_at(b, p / 8) * 256 + byte_at(b, p / 8 + 1);
    (w / pow2((11 - p % 8) as nat)) % 32
}

/// The number of digits in the text of `n` bytes.
pub open spec fn text_len(n: nat) -> nat {
    (8 * n + 4) / 5
}

/// The text of a hash: five bits a digit, most significant first, the last digit padded
/// with zero bits.
pub open spec fn hash_text(b: Seq<u8>) -> Seq<char> {
    Seq::new(text_len(b.len()), |i: int| digit_char(hash_digit(b, i)))
}

/// Whether every byte of `s` is a digit of the hash alphabet.
pub open spec fn all_digits(s: Seq<u8>) -> bool {
    forall|i: int| 0 <= i < s.len() ==> (#[trigger] digit_value(s[i])) is Some
}

pub open spec fn digit_at(s: Seq<u8>, q: int) -> nat {
    if 0 <= q < s.len() {
        match digit_value(s[q]) {
            Some(d) => d,
            None => 0,
        }
    } else {
        0
    }
}

/// The `k`-th byte that the digits `s` stand for: the eight bits that start at bit `8 k`.
pub open spec fn text_byte(s: Seq<u8>, k: int) -> u8 {
    let p = 8 * k;
    let q = p / 5;
    let w = digit_at(s, q) * 1024 + digit_at(s, q + 1) * 32 + digit_at(s, q + 2);
    ((w / pow2((7 - p % 5) as nat)) % 256) as u8
}

/// The bytes that the digits `s` stand for; bits left over after the last whole byte are
/// dropped.
pub open spec fn text_bytes(s: Seq<u8>) -> Seq<u8> {
    Seq::new((5 * s.len()) / 8, |k: int| text_byte(s, k))
}

fn pow2_exec(k: u32) -> (r: u32)
    requires
        k < 16,
    ensures
        r as nat == pow2(k as nat),
        r >= 1,
{
    let mut r: u32 = 1;
    let mut i: u32 = 0;
    while i < k
        invariant
            i <= k < 16,
            r as nat == pow2(i as nat),
            1 <= r <= 32768,
        decreases k - i,
    {
        proof {
            assert(pow2((i + 1) as nat) == 2 * pow2(i as nat));
            if i < 15 {
                assert(r <= 16384) by {
                    lemma_pow2_bound(i as nat);
                }
            }
        }
        r = r * 2;
        i = i + 1;
    }
    r
}

proof fn lemma_pow2_bound(k: nat)
    requires
        k < 15,
    ensures
        pow2(k) <= pow2(14),
        pow2(14) == 16384,
    decreases k,
{
    reveal_with_fuel(pow2, 15);
    if k > 0 {
        lemma_pow2_bound((k - 1) as nat);
        assert(pow2(k) == 2 * pow2((k - 1) as nat));
        if k < 14 {
            lemma_pow2_mono(k, 14);
        }
    }
}

proof fn lemma_pow2_mono(a: nat, b: nat)
    requires
        a <= b,
    ensures
        pow2(a) <= pow2(b),
    decreases b,
{
    if a < b {
        lemma_pow2_mono(a, (b - 1) as nat);
        assert(pow2(b) == 2 * pow2((b - 1) as nat));
    }
}

fn byte_at_exec(b: &Vec<u8>, k: usize) -> (r: u32)
    ensures
        r as nat == byte_at(b@, k as int),
        r < 256,
{
    if k < b.len() {
        b[k] as u32
    } else {
        0
    }
}

/// The text of the hash bytes `b` (see `hash_text`).
pub fn encode_hash(b: &Vec<u8>) -> (r: String)
    requires
        8 * b@.len() + 4 <= usize::MAX,
    ensures
        r@ == hash_text(b@),
{
    let n = b.len();
    let m = (8 * n + 4) / 5;
    let mut out = String::new();
    let mut i: usize = 0;
    while i < m
        invariant
            m == text_len(b@.len()),
            n == b@.len(),
            8 * n + 4 <= usize::MAX,
            i <= m,
            out@ == hash_text(b@).subrange(0, i as int),
        decreases m - i,
    {
        let p = 5 * i;
        let w = byte_at_exec(b, p / 8) * 256 + byte_at_exec(b, p / 8 + 1);
        let sh = pow2_exec((11 - p % 8) as u32);
        let d = (w / sh) % 32;
        assert(d as nat == hash_digit(b@, i as int));
        let c: char = if d < 10 {
            ((48 + d) as u8) as char
        } else {
            ((87 + d) as u8) as char
        };
        push_char(&mut out, c);
        i = i + 1;
        assert(out@ =~= hash_text(b@).subrange(0, i as int));
    }
    assert(out@ =~= hash_text(b@));
    out
}

fn digit_at_exec(s: &[u8], q: usize) -> (r: u32)
    requires
        all_digits(s@),
    ensures
        r as nat == digit_at(s@, q as int),
        r < 32,
{
    if q < s.len() {
        let c = s[q];
        assert(digit_value(s@[q as int]) is Some);
        if c <= 57 {
            (c - 48) as u32
        } else {
            (c - 87) as u32
        }
    } else {
        0
    }
}

/// The hash bytes that the text `s` stands for, or `None` when it holds a character
/// outside the hash alphabet.
pub fn decode_hash(s: &str) -> (r: Option<crate::types::Hash>)
    ensures
        all_digits(s.spec_bytes()) ==> (r matches Some(h) && h@ == text_bytes(s.spec_bytes())),
        !all_digits(s.spec_bytes()) ==> r is None,
{
    let bytes = s.as_bytes();
    let m = bytes.len();
    let mut j: usize = 0;
    while j < m
        invariant
            m == bytes@.len(),
            bytes@ == s.spec_bytes(),
            j <= m,
            forall|i: int| 0 <= i < j ==> (#[trigger] digit_value(bytes@[i])) is Some,
        decreases m - j,
    {
        let c = bytes[j];
        if !((48 <= c && c <= 57) || (97 <= c && c <= 118)) {
            assert(digit_value(bytes@[j as int]) is None);
            assert(!all_digits(bytes@));
            return None;
        }
        j = j + 1;
    }
    let n = m / 8 * 5 + (m % 8) * 5 / 8;
    assert(n == (5 * m) / 8) by (nonlinear_arith)
        requires
            n == m / 8 * 5 + (m % 8) * 5 / 8,
    ;
    let mut out: Vec<u8> = Vec::new();
    let mut k: usize = 0;
    while k < n
        invariant
            m == bytes@.len(),
            bytes@ == s.spec_bytes(),
            all_digits(bytes@),
            n == (5 * m) / 8,
            k <= n,
            out@ == text_bytes(bytes@).subrange(0, k as int),
        decreases n - k,
    {
        assert(k < m) by (nonlinear_arith)
            requires
                k < n,
                n == (5 * m) / 8,
        ;
        let q = k / 5 * 8 + (k % 5) * 8 / 5;
        let o = (k % 5) * 3 % 5;
        assert(q == (8 * k) / 5 && o == (8 * k) % 5) by (nonlinear_arith)
            requires
                q == k / 5 * 8 + (k % 5) * 8 / 5,
                o == (k % 5) * 3 % 5,
        ;
        let w = digit_at_exec(bytes, q) * 1024 + digit_at_exec(bytes, q + 1) * 32 + digit_at_exec(
            bytes,
            q + 2,
        );
        let sh = pow2_exec((7 - o) as u32);
        let v = ((w / sh) % 256) as u8;
        assert(v == text_byte(bytes@, k as int));
        out.push(v);
        k = k + 1;
        assert(out@ =~= text_bytes(bytes@).subrange(0, k as int));
    }
    assert(out@ =~= text_bytes(bytes@));
    Some(crate::types::Hash(out))
}

impl crate::types::Hash {
    /// The hash that the text `s` stands for.
    pub fn from_string(s: &str) -> (r: Option<crate::types::Hash>)
        ensures
            all_digits(s.spec_bytes()) ==> (r matches Some(h) && h@ == text_bytes(s.spec_bytes())),
            !all_digits(s.spec_bytes()) ==> r is None,
    {
        decode_hash(s)
    }

    /// The text of this hash.
    pub fn to_text(&self) -> (r: String)
        requires
            8 * self@.len() + 4 <= usize::MAX,
        ensures
            r@ == hash_text(self@),
    {
        encode_hash(&self.0)
    }
}

impl Reference {
    /// The reference to the single definition whose hash has the text `hash`.
    pub fn from_hash(hash: &str) -> (r: Option<Reference>)
        ensures
            all_digits(hash.spec_bytes()) ==> (r matches Some(Reference::DerivedId(Id(h, i, n)))
                && h@ == text_bytes(hash.spec_bytes()) && i == 0 && n == 1),
            !all_digits(hash.spec_bytes()) ==> r is None,
    {
        match crate::types::Hash::from_string(hash) {
            Some(h) => Some(Reference::DerivedId(Id(h, 0, 1))),
            None => None,
        }
    }
}

// ---------------------------------------------------------------- namespaces

/// One segment of a dotted name.
#[derive(Clone, Debug)]
pub struct NameSegment {
    pub text: String,
}

/// How a type's identity is fixed: by its structure, by a unique tag, or opaquely.
#[derive(Clone, Debug)]
pub enum Modifier {
    ByStructure,
    Unique(String),
    Opaque,
}

/// A data or ability declaration: its modifier, its type parameters and its
/// constructors with their types.
#[derive(Debug)]
pub struct DataDecl {
    pub modifier: Modifier,
    pub bound: Vec<Symbol>,
    pub constructors: Vec<(Symbol, ABT<Type>)>,
}

#[derive(Debug)]
pub enum TypeDecl {
    Effect(DataDecl),
    Data(DataDecl),
}

/// A history node: a first version, a successor of one version, or a merge of several.
#[derive(Clone, Debug)]
pub enum Causal<Contents> {
    One(Contents),
    Cons(crate::types::Hash, Contents),
    Merge(Vec<crate::types::Hash>, Contents),
}

/// The entries under one key kind of a branch. Each table lists its entries in the order
/// they were added; a later entry for a key takes precedence over an earlier one.
#[derive(Clone, Debug)]
pub struct Star<K, V> {
    pub fact: Vec<K>,
    pub d1: Vec<(K, V)>,
    pub d2: Vec<(K, Reference)>,
    pub d3: Vec<(K, (Reference, Reference))>,
}

impl<K, V> Star<K, V> {
    /// Adds the entries of `other` after this star's own.
    pub fn merge(&mut self, other: Star<K, V>)
        ensures
            final(self).fact@ == old(self).fact@ + other.fact@,
            final(self).d1@ == old(self).d1@ + other.d1@,
            final(self).d2@ == old(self).d2@ + other.d2@,
            final(self).d3@ == old(self).d3@ + other.d3@,
    {
        let mut other = other;
        self.fact.append(&mut other.fact);
        self.d1.append(&mut other.d1);
        self.d2.append(&mut other.d2);
        self.d3.append(&mut other.d3);
    }
}

/// The hash bound last to the segment `name` in `entries`.
pub open spec fn entry_for(entries: Seq<(NameSegment, crate::types::Hash)>, name: Seq<char>) -> Option<
    Seq<u8>,
>
    decreases entries.len(),
{
    if entries.len() == 0 {
        None
    } else if entries.last().0.text@ == name {
        Some(entries.last().1@)
    } else {
        entry_for(entries.drop_last(), name)
    }
}

/// After `b` is added to `a`, a segment names what `b` binds it to, and otherwise what `a`
/// binds it to.
pub proof fn lemma_entry_for_concat(
    a: Seq<(NameSegment, crate::types::Hash)>,
    b: Seq<(NameSegment, crate::types::Hash)>,
    name: Seq<char>,
)
    ensures
        entry_for(a + b, name) == match entry_for(b, name) {
            Some(h) => Some(h),
            None => entry_for(a, name),
        },
    decreases b.len(),
{
    if b.len() == 0 {
        assert(a + b =~= a);
    } else {
        assert((a + b).drop_last() =~= a + b.drop_last());
        assert((a + b).last() == b.last());
        lemma_entry_for_concat(a, b.drop_last(), name);
    }
}

/// The raw contents of a namespace: its terms and types by name, and the hashes of its
/// children and of its edits by segment.
#[derive(Clone, Debug)]
pub struct RawBranch {
    pub terms: Star<Referent, NameSegment>,
    pub types: Star<Reference, NameSegment>,
    pub children: Vec<(NameSegment, crate::types::Hash)>,
    pub edits: Vec<(NameSegment, crate::types::Hash)>,
}

impl RawBranch {
    /// Adds everything `other` holds; where both bind a segment, `other`'s entry wins.
    pub fn merge(&mut self, other: RawBranch)
        ensures
            final(self).terms.d1@ == old(self).terms.d1@ + other.terms.d1@,
            final(self).terms.fact@ == old(self).terms.fact@ + other.terms.fact@,
            final(self).terms.d2@ == old(self).terms.d2@ + other.terms.d2@,
            final(self).terms.d3@ == old(self).terms.d3@ + other.terms.d3@,
            final(self).types.d1@ == old(self).types.d1@ + other.types.d1@,
            final(self).types.fact@ == old(self).types.fact@ + other.types.fact@,
            final(self).types.d2@ == old(self).types.d2@ + other.types.d2@,
            final(self).types.d3@ == old(self).types.d3@ + other.types.d3@,
            final(self).children@ == old(self).children@ + other.children@,
            final(self).edits@ == old(self).edits@ + other.edits@,
            forall|n: Seq<char>|
                #![trigger entry_for(final(self).children@, n)]
                entry_for(final(self).children@, n) == match entry_for(other.children@, n) {
                    Some(h) => Some(h),
                    None => entry_for(old(self).children@, n),
                },
            forall|n: Seq<char>|
                #![trigger entry_for(final(self).edits@, n)]
                entry_for(final(self).edits@, n) == match entry_for(other.edits@, n) {
                    Some(h) => Some(h),
                    None => entry_for(old(self).edits@, n),
                },
    {
        let mut other = other;
        let ghost old_children = self.children@;
        let ghost old_edits = self.edits@;
        let ghost new_children = other.children@;
        let ghost new_edits = other.edits@;
        self.terms.merge(other.terms);
        self.types.merge(other.types);
        self.children.append(&mut other.children);
        self.edits.append(&mut other.edits);
        assert forall|n: Seq<char>|
            #![trigger entry_for(self.children@, n)]
            entry_for(self.children@, n) == match entry_for(new_children, n) {
                Some(h) => Some(h),
                None => entry_for(old_children, n),
            } by {
            lemma_entry_for_concat(old_children, new_children, n);
        }
        assert forall|n: Seq<char>|
            #![trigger entry_for(self.edits@, n)]
            entry_for(self.edits@, n) == match entry_for(new_edits, n) {
                Some(h) => Some(h),
                None => entry_for(old_edits, n),
            } by {
            lemma_entry_for_concat(old_edits, new_edits, n);
        }
    }
}

/// A namespace with its child namespaces loaded.
#[derive(Debug)]
pub struct Branch {
    pub raw: RawBranch,
    pub children: Vec<(NameSegment, Branch)>,
}

// ---------------------------------------------------------------- name index

/// The names under which something is known, each a list of segments.
pub type Paths = Rc<Vec<Vec<String>>>;

/// The names of a type's constructors, by constructor position.
pub type ConstrPaths = Rc<Vec<(usize, Vec<Vec<String>>)>>;

/// The names of terms, constructors and types, keyed by hash or by hash text.
#[derive(Clone, Debug)]
pub struct Names<K> {
    pub terms: Vec<(K, Paths)>,
    pub constrs: Vec<(K, ConstrPaths)>,
    pub types: Vec<(K, Paths)>,
}

/// The entry stored first under hash `h`.
pub open spec fn lookup_hash<T>(entries: Seq<(crate::types::Hash, Rc<T>)>, h: Seq<u8>) -> Option<Rc<T>>
    decreases entries.len(),
{
    if entries.len() == 0 {
        None
    } else if entries[0].0@ == h {
        Some(entries[0].1)
    } else {
        lookup_hash(entries.drop_first(), h)
    }
}

/// Entries keyed by hash, keyed instead by the hash's text.
pub open spec fn keyed_by_text<T>(entries: Seq<(crate::types::Hash, Rc<T>)>) -> Seq<(Seq<char>, Rc<T>)> {
    entries.map_values(|e: (crate::types::Hash, Rc<T>)| (hash_text(e.0@), e.1))
}

/// Entries keyed by text, with the keys seen as characters.
pub open spec fn text_keys<T>(entries: Seq<(String, Rc<T>)>) -> Seq<(Seq<char>, Rc<T>)> {
    entries.map_values(|e: (String, Rc<T>)| (e.0@, e.1))
}

/// Whether each hash is short enough for its text to be built.
pub open spec fn short_hashes(hs: Seq<crate::types::Hash>) -> bool {
    forall|i: int| 0 <= i < hs.len() ==> 8 * (#[trigger] hs[i])@.len() + 4 <= usize::MAX
}

pub open spec fn short_keys<T>(entries: Seq<(crate::types::Hash, Rc<T>)>) -> bool {
    forall|i: int| 0 <= i < entries.len() ==> 8 * (#[trigger] entries[i]).0@.len() + 4 <= usize::MAX
}

/// For each of `keys` in order that `entries` holds, the key's text and its entry.
pub open spec fn pick<T>(entries: Seq<(crate::types::Hash, Rc<T>)>, keys: Seq<crate::types::Hash>) -> Seq<
    (Seq<char>, Rc<T>),
>
    decreases keys.len(),
{
    if keys.len() == 0 {
        Seq::empty()
    } else {
        let k = keys.last();
        pick(entries, keys.drop_last()) + match lookup_hash(entries, k@) {
            Some(v) => seq![(hash_text(k@), v)],
            None => Seq::empty(),
        }
    }
}

fn find_entry<T>(entries: &Vec<(crate::types::Hash, Rc<T>)>, h: &crate::types::Hash) -> (r: Option<Rc<T>>)
    ensures
        r == lookup_hash(entries@, h@),
{
    let mut i: usize = 0;
    assert(entries@.skip(0) =~= entries@);
    while i < entries.len()
        invariant
            i <= entries@.len(),
            lookup_hash(entries@, h@) == lookup_hash(entries@.skip(i as int), h@),
        decreases entries@.len() - i,
    {
        assert(entries@.skip(i as int).drop_first() =~= entries@.skip(i + 1));
        if same_bytes(&entries[i].0.0, &h.0) {
            return Some(Rc::clone(&entries[i].1));
        }
        i = i + 1;
    }
    None
}

fn rekey<T>(entries: &Vec<(crate::types::Hash, Rc<T>)>) -> (r: Vec<(String, Rc<T>)>)
    requires
        short_keys(entries@),
    ensures
        text_keys(r@) == keyed_by_text(entries@),
{
    let mut out: Vec<(String, Rc<T>)> = Vec::new();
    let mut i: usize = 0;
    while i < entries.len()
        invariant
            i <= entries@.len(),
            short_keys(entries@),
            text_keys(out@) == keyed_by_text(entries@.take(i as int)),
        decreases entries@.len() - i,
    {
        let e = &entries[i];
        assert(8 * entries@[i as int].0@.len() + 4 <= usize::MAX);
        let k = e.0.to_text();
        let ghost before = out@;
        out.push((k, Rc::clone(&e.1)));
        assert(entries@.take(i + 1) =~= entries@.take(i as int).push(entries@[i as int]));
        assert(text_keys(out@) =~= text_keys(before).push((hash_text(e.0@), e.1)));
        assert(keyed_by_text(entries@.take(i + 1)) =~= keyed_by_text(entries@.take(i as int)).push(
            (hash_text(e.0@), e.1),
        ));
        i = i + 1;
    }
    assert(entries@.take(i as int) =~= entries@);
    out
}

fn pick_exec<T>(entries: &Vec<(crate::types::Hash, Rc<T>)>, keys: &Vec<crate::types::Hash>) -> (r: Vec<
    (String, Rc<T>),
>)
    requires
        short_hashes(keys@),
    ensures
        text_keys(r@) == pick(entries@, keys@),
{
    let mut out: Vec<(String, Rc<T>)> = Vec::new();
    let mut i: usize = 0;
    while i < keys.len()
        invariant
            i <= keys@.len(),
            short_hashes(keys@),
            text_keys(out@) == pick(entries@, keys@.take(i as int)),
        decreases keys@.len() - i,
    {
        let k = &keys[i];
        let ghost before = out@;
        assert(keys@.take(i + 1).drop_last() =~= keys@.take(i as int));
        assert(keys@.take(i + 1).last() == keys@[i as int]);
        match find_entry(entries, k) {
            Some(v) => {
                assert(8 * keys@[i as int]@.len() + 4 <= usize::MAX);
                out.push((k.to_text(), v));
                assert(text_keys(out@) =~= text_keys(before) + seq![(hash_text(k@), v)]);
            },
            None => {
                assert(text_keys(out@) =~= text_keys(before) + Seq::empty());
            },
        }
        i = i + 1;
    }
    assert(keys@.take(i as int) =~= keys@);
    out
}

impl Names<crate::types::Hash> {
    /// The same names keyed by hash text.
    pub fn serialize(self) -> (r: Names<String>)
        requires
            short_keys(self.terms@),
            short_keys(self.constrs@),
            short_keys(self.types@),
        ensures
            text_keys(r.terms@) == keyed_by_text(self.terms@),
            text_keys(r.constrs@) == keyed_by_text(self.constrs@),
            text_keys(r.types@) == keyed_by_text(self.types@),
    {
        Names { terms: rekey(&self.terms), constrs: rekey(&self.constrs), types: rekey(&self.types) }
    }
}

/// The names of the terms `terms` and of the types `types` (with their constructors) that
/// `names` knows, keyed by hash text, in the order of the two lists.
pub fn env_names(
    names: &Names<crate::types::Hash>,
    terms: &Vec<crate::types::Hash>,
    types: &Vec<crate::types::Hash>,
) -> (r: Names<String>)
    requires
        short_hashes(terms@),
        short_hashes(types@),
    ensures
        text_keys(r.terms@) == pick(names.terms@, terms@),
        text_keys(r.types@) == pick(names.types@, types@),
        text_keys(r.constrs@) == pick(names.constrs@, types@),
{
    Names {
        terms: pick_exec(&names.terms, terms),
        constrs: pick_exec(&names.constrs, types),
        types: pick_exec(&names.types, types),
    }
}

/// A name's segments joined with dots.
pub open spec fn dotted(path: Seq<Seq<char>>) -> Seq<char>
    decreases path.len(),
{
    if path.len() == 0 {
        Seq::empty()
    } else if path.len() == 1 {
        path[0]
    } else {
        dotted(path.drop_last()) + seq!['.'] + path.last()
    }
}

pub open spec fn segments(path: Vec<String>) -> Seq<Seq<char>> {
    path@.map_values(|s: String| s@)
}

/// Whether one of `paths`, joined with dots, is `name`.
pub open spec fn has_name(paths: Vec<Vec<String>>, name: Seq<char>) -> bool {
    exists|j: int| 0 <= j < paths@.len() && dotted(segments(#[trigger] paths@[j])) == name
}

/// The hash of the first entry known by the dotted name `name`.
pub open spec fn named(entries: Seq<(crate::types::Hash, Paths)>, name: Seq<char>) -> Option<Seq<u8>>
    decreases entries.len(),
{
    if entries.len() == 0 {
        None
    } else if has_name(*entries[0].1, name) {
        Some(entries[0].0@)
    } else {
        named(entries.drop_first(), name)
    }
}

fn join_dotted(path: &Vec<String>) -> (r: String)
    ensures
        r@ == dotted(segments(*path)),
{
    let mut out = String::new();
    let mut i: usize = 0;
    while i < path.len()
        invariant
            i <= path@.len(),
            out@ == dotted(segments(*path).take(i as int)),
        decreases path@.len() - i,
    {
        let ghost before = out@;
        assert(segments(*path).take(i + 1).drop_last() =~= segments(*path).take(i as int));
        if i > 0 {
            push_char(&mut out, '.');
        }
        push_text(&mut out, path[i].as_str());
        i = i + 1;
        if i == 1 {
            assert(out@ =~= segments(*path).take(1)[0]);
        }
    }
    assert(segments(*path).take(i as int) =~= segments(*path));
    out
}

fn has_name_exec(paths: &Vec<Vec<String>>, name: &String) -> (r: bool)
    ensures
        r == has_name(*paths, name@),
{
    let mut j: usize = 0;
    while j < paths.len()
        invariant
            j <= paths@.len(),
            forall|k: int| 0 <= k < j ==> dotted(segments(#[trigger] paths@[k])) != name@,
        decreases paths@.len() - j,
    {
        let joined = join_dotted(&paths[j]);
        if joined.eq(name) {
            return true;
        }
        j = j + 1;
    }
    false
}

fn copy_hash(h: &crate::types::Hash) -> (r: crate::types::Hash)
    ensures
        r@ == h@,
{
    let mut out: Vec<u8> = Vec::new();
    let mut i: usize = 0;
    while i < h.0.len()
        invariant
            i <= h@.len(),
            out@ == h@.subrange(0, i as int),
        decreases h@.len() - i,
    {
        out.push(h.0[i]);
        i = i + 1;
        assert(out@ =~= h@.subrange(0, i as int));
    }
    assert(out@ =~= h@);
    crate::types::Hash(out)
}

/// The hash that `term` names: a name when it starts with a dot (looked up among the
/// names of terms), else the text of a hash.
pub fn find_term(names: &Names<crate::types::Hash>, term: &str) -> (r: Option<crate::types::Hash>)
    ensures
        term@.len() > 0 && term@[0] == '.' ==> match named(names.terms@, term@.drop_first()) {
            Some(h) => r matches Some(x) && x@ == h,
            None => r is None,
        },
        !(term@.len() > 0 && term@[0] == '.') ==> (all_digits(term.spec_bytes()) ==> (r matches Some(
            h,
        ) && h@ == text_bytes(term.spec_bytes()))) && (!all_digits(term.spec_bytes()) ==> r is None),
{
    let n = term.unicode_len();
    if n > 0 && term.get_char(0) == '.' {
        let rest = term.substring_char(1, n).to_owned();
        assert(rest@ =~= term@.drop_first());
        let entries = &names.terms;
        let mut i: usize = 0;
        assert(entries@.skip(0) =~= entries@);
        while i < entries.len()
            invariant
                i <= entries@.len(),
                entries@ == names.terms@,
                term@.len() > 0 && term@[0] == '.',
                rest@ == term@.drop_first(),
                named(entries@, rest@) == named(entries@.skip(i as int), rest@),
            decreases entries@.len() - i,
        {
            assert(entries@.skip(i as int).drop_first() =~= entries@.skip(i + 1));
            if has_name_exec(&entries[i].1, &rest) {
                return Some(copy_hash(&entries[i].0));
            }
            i = i + 1;
        }
        None
    } else {
        crate::types::Hash::from_string(term)
    }
}

} // verus!
