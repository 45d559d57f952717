//! Identities: values that name an account or a block and can key an
//! ordered table.

use vstd::prelude::*;
use vstd::utf8::{encode_utf8, encode_utf8_decode_utf8};

verus! {

/// A value that identifies something. Two values name the same thing exactly
/// when their views are equal, and the views are strictly and totally
/// ordered by `precedes`.
pub trait Identity: View + Sized {
    /// The strict order in which identities are kept.
    spec fn precedes(a: Self::V, b: Self::V) -> bool;

    /// Of two different identities one precedes the other.
    proof fn order_is_total(a: Self::V, b: Self::V)
        ensures
            Self::precedes(a, b) || a == b || Self::precedes(b, a),
    ;

    /// No identity precedes itself.
    proof fn order_is_irreflexive(a: Self::V)
        ensures
            !Self::precedes(a, a),
    ;

    /// The order is transitive.
    proof fn order_is_transitive(a: Self::V, b: Self::V, c: Self::V)
        requires
            Self::precedes(a, b),
            Self::precedes(b, c),
        ensures
            Self::precedes(a, c),
    ;

    /// Whether both values name the same thing.
    fn same(&self, other: &Self) -> (r: bool)
        ensures
            r == (self@ == other@),
    ;

    /// Whether `self` comes strictly before `other`.
    fn before(&self, other: &Self) -> (r: bool)
        ensures
            r == Self::precedes(self@, other@),
    ;

    /// A second value with the same identity.
    fn duplicate(&self) -> (r: Self)
        ensures
            r@ == self@,
    ;
}

impl Identity for u32 {
    open spec fn precedes(a: u32, b: u32) -> bool {
        a < b
    }

    proof fn order_is_total(a: u32, b: u32) {
    }

    proof fn order_is_irreflexive(a: u32) {
    }

    proof fn order_is_transitive(a: u32, b: u32, c: u32) {
    }

    fn same(&self, other: &Self) -> (r: bool) {
        *self == *other
    }

    fn before(&self, other: &Self) -> (r: bool) {
        *self < *other
    }

    fn duplicate(&self) -> (r: Self) {
        *self
    }
}

impl Identity for u64 {
    open spec fn precedes(a: u64, b: u64) -> bool {
        a < b
    }

    proof fn order_is_total(a: u64, b: u64) {
    }

    proof fn order_is_irreflexive(a: u64) {
    }

    proof fn order_is_transitive(a: u64, b: u64, c: u64) {
    }

    fn same(&self, other: &Self) -> (r: bool) {
        *self == *other
    }

    fn before(&self, other: &Self) -> (r: bool) {
        *self < *other
    }

    fn duplicate(&self) -> (r: Self) {
        *self
    }
}

impl Identity for u128 {
    open spec fn precedes(a: u128, b: u128) -> bool {
        a < b
    }

    proof fn order_is_total(a: u128, b: u128) {
    }

    proof fn order_is_irreflexive(a: u128) {
    }

    proof fn order_is_transitive(a: u128, b: u128, c: u128) {
    }

    fn same(&self, other: &Self) -> (r: bool) {
        *self == *other
    }

    fn before(&self, other: &Self) -> (r: bool) {
        *self < *other
    }

    fn duplicate(&self) -> (r: Self) {
        *self
    }
}

/// Lexicographic order on byte strings: at the first place where they
/// differ the smaller byte decides, and a proper prefix comes first.
pub open spec fn bytes_precede(x: Seq<u8>, y: Seq<u8>) -> bool
    decreases x.len(),
{
    if y.len() == 0 {
        false
    } else if x.len() == 0 {
        true
    } else if x[0] != y[0] {
        x[0] < y[0]
    } else {
        bytes_precede(x.drop_first(), y.drop_first())
    }
}

/// Of two different byte strings one precedes the other.
pub proof fn bytes_order_is_total(x: Seq<u8>, y: Seq<u8>)
    ensures
        bytes_precede(x, y) || x == y || bytes_precede(y, x),
    decreases x.len(),
{
    if x.len() == 0 || y.len() == 0 {
        if x.len() == 0 && y.len() == 0 {
            assert(x =~= y);
        }
    } else if x[0] == y[0] {
        bytes_order_is_total(x.drop_first(), y.drop_first());
        if x.drop_first() == y.drop_first() {
            assert(x =~= seq![x[0]] + x.drop_first());
            assert(y =~= seq![y[0]] + y.drop_first());
        }
    }
}

/// No byte string precedes itself.
pub proof fn bytes_order_is_irreflexive(x: Seq<u8>)
    ensures
        !bytes_precede(x, x),
    decreases x.len(),
{
    if x.len() > 0 {
        bytes_order_is_irreflexive(x.drop_first());
    }
}

/// The order on byte strings is transitive.
pub proof fn bytes_order_is_transitive(x: Seq<u8>, y: Seq<u8>, z: Seq<u8>)
    requires
        bytes_precede(x, y),
        bytes_precede(y, z),
    ensures
        bytes_precede(x, z),
    decreases x.len(),
{
    if x.len() > 0 && y.len() > 0 && z.len() > 0 && x[0] == y[0] && y[0] == z[0] {
        bytes_order_is_transitive(x.drop_first(), y.drop_first(), z.drop_first());
    }
}

/// Compares two byte slices in the lexicographic order.
fn slice_precedes(a: &[u8], b: &[u8]) -> (r: bool)
    ensures
        r == bytes_precede(a@, b@),
{
    let mut i: usize = 0;
    assert(a@.skip(0) =~= a@ && b@.skip(0) =~= b@);
    while i < a.len() && i < b.len()
        invariant
            i <= a@.len(),
            i <= b@.len(),
            bytes_precede(a@, b@) == bytes_precede(a@.skip(i as int), b@.skip(i as int)),
        decreases a@.len() - i,
    {
        let ghost x = a@.skip(i as int);
        let ghost y = b@.skip(i as int);
        assert(x[0] == a@[i as int] && y[0] == b@[i as int]);
        if a[i] != b[i] {
            return a[i] < b[i];
        }
        assert(x.drop_first() =~= a@.skip(i + 1));
        assert(y.drop_first() =~= b@.skip(i + 1));
        i = i + 1;
    }
    a.len() < b.len()
}

/// Text identities are ordered by their UTF-8 bytes, as `str` is.
impl Identity for String {
    open spec fn precedes(a: Seq<char>, b: Seq<char>) -> bool {
        bytes_precede(encode_utf8(a), encode_utf8(b))
    }

    proof fn order_is_total(a: Seq<char>, b: Seq<char>) {
        bytes_order_is_total(encode_utf8(a), encode_utf8(b));
        if encode_utf8(a) == encode_utf8(b) {
            encode_utf8_decode_utf8(a);
            encode_utf8_decode_utf8(b);
        }
    }

    proof fn order_is_irreflexive(a: Seq<char>) {
        bytes_order_is_irreflexive(encode_utf8(a));
    }

    proof fn order_is_transitive(a: Seq<char>, b: Seq<char>, c: Seq<char>) {
        bytes_order_is_transitive(encode_utf8(a), encode_utf8(b), encode_utf8(c));
    }

    fn same(&self, other: &Self) -> (r: bool) {
        *self == *other
    }

    fn before(&self, other: &Self) -> (r: bool) {
        slice_precedes(self.as_str().as_bytes(), other.as_str().as_bytes())
    }

    fn duplicate(&self) -> (r: Self) {
        self.clone()
    }
}

} // verus!
