//! Widget identifiers, derived by hashing names along the widget path, and
//! the string hash used to detect changed text.

use vstd::prelude::*;
use core::hash::Hash;
use core::hash::Hasher;
use rapidhash::fast::RapidHasher;
use vstd::string::StringSliceAdditionalSpecFns;

verus! {

/// A seed for rapidhash's fast hasher.
pub const WIDGET_ID_SEED: u64 = 1234;

/// The value `rapidhash::v3::rapidhash_v3` computes for a byte string.
pub uninterp spec fn rapidhash_v3_of(data: Seq<u8>) -> u64;

/// Calls `rapidhash::v3::rapidhash_v3`, the portable rapidhash V3 of a byte
/// string with the default seed and secrets. Claimed: the result is that
/// function of the bytes alone (`rapidhash_v3_of`).
#[verifier::external_body]
fn rapidhash_v3_bytes(data: &[u8]) -> (r: u64)
    ensures
        r == rapidhash_v3_of(data@),
{
    rapidhash::v3::rapidhash_v3(data)
}

/// Hashes a string with `rapidhash::fast::RapidHasher` seeded with `seed`,
/// as `str`'s `Hash` impl feeds it (its bytes, then a terminator). Nothing
/// is claimed of the result: this hasher's output differs between machine
/// architectures.
#[verifier::external_body]
fn fast_hash_str(seed: u64, name: &str) -> u64 {
    let mut hasher = RapidHasher::new(seed);
    name.hash(&mut hasher);
    hasher.finish()
}

/// Hashes a `u64` and then a string with `rapidhash::fast::RapidHasher`
/// seeded with `seed`, through their `Hash` impls. Nothing is claimed of
/// the result: this hasher's output differs between machine architectures.
#[verifier::external_body]
fn fast_hash_u64_str(seed: u64, first: u64, name: &str) -> u64 {
    let mut hasher = RapidHasher::new(seed);
    first.hash(&mut hasher);
    name.hash(&mut hasher);
    hasher.finish()
}

/// Hashes a `u64` and then a `usize` with `rapidhash::fast::RapidHasher`
/// seeded with `seed`, through their `Hash` impls. Nothing is claimed of
/// the result: this hasher's output differs between machine architectures.
#[verifier::external_body]
fn fast_hash_u64_usize(seed: u64, first: u64, index: usize) -> u64 {
    let mut hasher = RapidHasher::new(seed);
    first.hash(&mut hasher);
    index.hash(&mut hasher);
    hasher.finish()
}

/// A hash of a string, used to notice when a widget's text changed.
pub fn hash_string(text: &str) -> (r: u64)
    ensures
        r == rapidhash_v3_of(text.spec_bytes()),
{
    rapidhash_v3_bytes(text.as_bytes())
}

/// The eight bytes of `v`, least significant first.
pub open spec fn le_bytes(v: u64) -> Seq<u8> {
    seq![
        (v & 0xffu64) as u8,
        ((v >> 8u64) & 0xffu64) as u8,
        ((v >> 16u64) & 0xffu64) as u8,
        ((v >> 24u64) & 0xffu64) as u8,
        ((v >> 32u64) & 0xffu64) as u8,
        ((v >> 40u64) & 0xffu64) as u8,
        ((v >> 48u64) & 0xffu64) as u8,
        ((v >> 56u64) & 0xffu64) as u8,
    ]
}

/// The bytes a root widget's identifier hashes: its name, then the byte
/// `0xff` that ends a string as `str`'s `Hash` writes it.
pub open spec fn root_key(name: Seq<u8>) -> Seq<u8> {
    name.push(0xffu8)
}

/// The bytes a named child's identifier hashes: the parent's identifier,
/// then the name as a root's identifier hashes it.
pub open spec fn child_key(parent: u64, name: Seq<u8>) -> Seq<u8> {
    le_bytes(parent) + root_key(name)
}

/// The bytes an unnamed child's identifier hashes: the parent's
/// identifier, then the child's index.
pub open spec fn index_key(parent: u64, index: u64) -> Seq<u8> {
    le_bytes(parent) + le_bytes(index)
}

/// The identifier value for a hash: the hash itself, or 1 in place of zero.
pub open spec fn id_value(hash: u64) -> u64 {
    if hash == 0 {
        1
    } else {
        hash
    }
}

/// Different numbers have different bytes.
pub proof fn lemma_le_bytes_injective(a: u64, b: u64)
    requires
        le_bytes(a) == le_bytes(b),
    ensures
        a == b,
{
    let x = le_bytes(a);
    let y = le_bytes(b);
    assert(x[0] == y[0] && x[1] == y[1] && x[2] == y[2] && x[3] == y[3]);
    assert(x[4] == y[4] && x[5] == y[5] && x[6] == y[6] && x[7] == y[7]);
    assert(forall|v: u64| #![auto]
        (v & 0xffu64) < 256 && ((v >> 8u64) & 0xffu64) < 256 && ((v >> 16u64) & 0xffu64) < 256
            && ((v >> 24u64) & 0xffu64) < 256 && ((v >> 32u64) & 0xffu64) < 256 && ((v >> 40u64)
            & 0xffu64) < 256 && ((v >> 48u64) & 0xffu64) < 256 && ((v >> 56u64) & 0xffu64) < 256)
        by (bit_vector);
    assert(
        (a & 0xffu64) == (b & 0xffu64)
        && ((a >> 8u64) & 0xffu64) == ((b >> 8u64) & 0xffu64)
        && ((a >> 16u64) & 0xffu64) == ((b >> 16u64) & 0xffu64)
        && ((a >> 24u64) & 0xffu64) == ((b >> 24u64) & 0xffu64)
        && ((a >> 32u64) & 0xffu64) == ((b >> 32u64) & 0xffu64)
        && ((a >> 40u64) & 0xffu64) == ((b >> 40u64) & 0xffu64)
        && ((a >> 48u64) & 0xffu64) == ((b >> 48u64) & 0xffu64)
        && ((a >> 56u64) & 0xffu64) == ((b >> 56u64) & 0xffu64)
    );
    assert(
        ((a & 0xffu64) == (b & 0xffu64)
        && ((a >> 8u64) & 0xffu64) == ((b >> 8u64) & 0xffu64)
        && ((a >> 16u64) & 0xffu64) == ((b >> 16u64) & 0xffu64)
        && ((a >> 24u64) & 0xffu64) == ((b >> 24u64) & 0xffu64)
        && ((a >> 32u64) & 0xffu64) == ((b >> 32u64) & 0xffu64)
        && ((a >> 40u64) & 0xffu64) == ((b >> 40u64) & 0xffu64)
        && ((a >> 48u64) & 0xffu64) == ((b >> 48u64) & 0xffu64)
        && ((a >> 56u64) & 0xffu64) == ((b >> 56u64) & 0xffu64)) ==> a == b
    ) by (bit_vector);
}

/// Children of different parents, or with different names, hash different
/// bytes: a child's identifier depends on its parent's and on its name, and
/// two children share one only when the hash collides.
pub proof fn lemma_child_key_injective(p1: u64, n1: Seq<u8>, p2: u64, n2: Seq<u8>)
    requires
        child_key(p1, n1) == child_key(p2, n2),
    ensures
        p1 == p2,
        n1 == n2,
{
    let k1 = child_key(p1, n1);
    let k2 = child_key(p2, n2);
    assert(le_bytes(p1) =~= k1.subrange(0, 8));
    assert(le_bytes(p2) =~= k2.subrange(0, 8));
    lemma_le_bytes_injective(p1, p2);
    assert(le_bytes(p1).len() == 8 && le_bytes(p2).len() == 8);
    assert(k1.len() == 9 + n1.len() && k2.len() == 9 + n2.len());
    assert(n1.len() == n2.len());
    assert(n1 =~= k1.subrange(8, 8 + n1.len() as int));
    assert(n2 =~= k2.subrange(8, 8 + n2.len() as int));
}

/// Unnamed children of different parents, or at different indices, hash
/// different bytes.
pub proof fn lemma_index_key_injective(p1: u64, i1: u64, p2: u64, i2: u64)
    requires
        index_key(p1, i1) == index_key(p2, i2),
    ensures
        p1 == p2,
        i1 == i2,
{
    let k1 = index_key(p1, i1);
    let k2 = index_key(p2, i2);
    assert(le_bytes(p1) =~= k1.subrange(0, 8));
    assert(le_bytes(p2) =~= k2.subrange(0, 8));
    lemma_le_bytes_injective(p1, p2);
    assert(le_bytes(i1) =~= k1.subrange(8, 16));
    assert(le_bytes(i2) =~= k2.subrange(8, 16));
    lemma_le_bytes_injective(i1, i2);
}

/// Roots with different names hash different bytes, and a child never
/// hashes the bytes of a root with its own name.
pub proof fn lemma_root_key_injective(n1: Seq<u8>, n2: Seq<u8>, parent: u64)
    ensures
        root_key(n1) == root_key(n2) ==> n1 == n2,
        child_key(parent, n1) != root_key(n1),
{
    if root_key(n1) == root_key(n2) {
        assert(n1 =~= root_key(n1).drop_last());
        assert(n2 =~= root_key(n2).drop_last());
    }
    assert(child_key(parent, n1).len() != root_key(n1).len());
}

/// Append the eight bytes of `v`, least significant first.
fn push_le_bytes(out: &mut Vec<u8>, v: u64)
    ensures
        final(out)@ == old(out)@ + le_bytes(v),
{
    out.push((v & 0xffu64) as u8);
    out.push(((v >> 8u64) & 0xffu64) as u8);
    out.push(((v >> 16u64) & 0xffu64) as u8);
    out.push(((v >> 24u64) & 0xffu64) as u8);
    out.push(((v >> 32u64) & 0xffu64) as u8);
    out.push(((v >> 40u64) & 0xffu64) as u8);
    out.push(((v >> 48u64) & 0xffu64) as u8);
    out.push(((v >> 56u64) & 0xffu64) as u8);
    assert(final(out)@ =~= old(out)@ + le_bytes(v));
}

/// Append `bytes`.
fn push_bytes(out: &mut Vec<u8>, bytes: &[u8])
    ensures
        final(out)@ == old(out)@ + bytes@,
{
    let ghost start = out@;
    let mut i: usize = 0;
    while i < bytes.len()
        invariant
            i <= bytes@.len(),
            out@ == start + bytes@.subrange(0, i as int),
        decreases bytes@.len() - i,
    {
        out.push(bytes[i]);
        assert(bytes@.subrange(0, i + 1) =~= bytes@.subrange(0, i as int).push(bytes@[i as int]));
        i += 1;
    }
    assert(bytes@.subrange(0, bytes@.len() as int) =~= bytes@);
}

/// Identifies a widget across frames. Never zero.
#[derive(Clone, Copy, Debug, PartialEq, Eq, Hash, Structural)]
pub struct WidgetId {
    value: u64,
}

impl View for WidgetId {
    type V = u64;

    closed spec fn view(&self) -> u64 {
        self.value
    }
}

impl WidgetId {
    /// The identifier for a hash value: the value itself, or 1 in place of
    /// zero.
    pub fn from_hash(hash: u64) -> (r: WidgetId)
        ensures
            r@ == (if hash == 0 {
                1
            } else {
                hash
            }),
    {
        if hash == 0 {
            WidgetId { value: 1 }
        } else {
            WidgetId { value: hash }
        }
    }

    /// The identifier of a root widget with the given name: the hash of
    /// the name's bytes and the string terminator.
    pub fn new(name: &str) -> (r: WidgetId)
        ensures
            r@ == id_value(rapidhash_v3_of(root_key(name.spec_bytes()))),
            r@ != 0,
    {
        let mut key: Vec<u8> = Vec::new();
        push_bytes(&mut key, name.as_bytes());
        key.push(0xffu8);
        assert(key@ =~= root_key(name.spec_bytes()));
        WidgetId::from_hash(rapidhash_v3_bytes(key.as_slice()))
    }

    /// The identifier of the child named `name` of this widget: the hash of
    /// this identifier's bytes followed by the name's.
    pub fn then(self, name: &str) -> (r: WidgetId)
        ensures
            r@ == id_value(rapidhash_v3_of(child_key(self@, name.spec_bytes()))),
            r@ != 0,
    {
        let mut key: Vec<u8> = Vec::new();
        push_le_bytes(&mut key, self.value);
        push_bytes(&mut key, name.as_bytes());
        key.push(0xffu8);
        assert(key@ =~= child_key(self@, name.spec_bytes()));
        WidgetId::from_hash(rapidhash_v3_bytes(key.as_slice()))
    }

    /// The identifier of the `index`-th unnamed child of this widget: the
    /// hash of this identifier's bytes followed by the index's.
    pub fn then_index(self, index: usize) -> (r: WidgetId)
        ensures
            r@ == id_value(rapidhash_v3_of(index_key(self@, index as u64))),
            r@ != 0,
    {
        let mut key: Vec<u8> = Vec::new();
        push_le_bytes(&mut key, self.value);
        push_le_bytes(&mut key, index as u64);
        WidgetId::from_hash(rapidhash_v3_bytes(key.as_slice()))
    }

    /// The identifier's numeric value.
    pub fn value(&self) -> (r: u64)
        ensures
            r == self@,
    {
        self.value
    }
}

} // verus!
