//! Lexicographic order on sequences, and the keys that are ordered by it.

use vstd::prelude::*;
use vstd::utf8::*;

verus! {

/// `a` and `b` both reach position `n` and are the same before it.
pub open spec fn agree<A>(a: Seq<A>, b: Seq<A>, n: int) -> bool {
    &&& 0 <= n <= a.len()
    &&& n <= b.len()
    &&& forall|i: int| 0 <= i < n ==> a[i] == b[i]
}

/// `a` comes before `b` when, where they first part, `a` has ended or has the
/// earlier item.
pub open spec fn lex_before<A>(lt: spec_fn(A, A) -> bool, a: Seq<A>, b: Seq<A>) -> bool {
    exists|n: int| #[trigger]
        agree(a, b, n) && n < b.len() && (n == a.len() || lt(a[n], b[n]))
}

/// `lt` puts any two different values in exactly one order.
pub open spec fn strict_total<A>(lt: spec_fn(A, A) -> bool) -> bool {
    &&& forall|x: A| !(#[trigger] lt(x, x))
    &&& forall|x: A, y: A, z: A| #[trigger] lt(x, y) && #[trigger] lt(y, z) ==> lt(x, z)
    &&& forall|x: A, y: A| x == y || #[trigger] lt(x, y) || lt(y, x)
}

/// Bytes in numeric order.
pub open spec fn byte_order() -> spec_fn(u8, u8) -> bool {
    |a: u8, b: u8| a < b
}

/// Byte strings in lexicographic order.
pub open spec fn bytes_order() -> spec_fn(Seq<u8>, Seq<u8>) -> bool {
    |a: Seq<u8>, b: Seq<u8>| lex_before(byte_order(), a, b)
}

/// Sequences of byte strings in lexicographic order.
pub open spec fn path_order() -> spec_fn(Seq<Seq<u8>>, Seq<Seq<u8>>) -> bool {
    |a: Seq<Seq<u8>>, b: Seq<Seq<u8>>| lex_before(bytes_order(), a, b)
}

/// The position at which two sequences part, or at which the shorter one ends.
proof fn lemma_parting<A>(a: Seq<A>, b: Seq<A>, from: int) -> (n: int)
    requires
        agree(a, b, from),
    ensures
        agree(a, b, n),
        n == a.len() || n == b.len() || a[n] != b[n],
    decreases a.len() - from,
{
    if from == a.len() || from == b.len() || a[from] != b[from] {
        from
    } else {
        lemma_parting(a, b, from + 1)
    }
}

/// Lexicographic order is a strict total order when the order of the items is one.
pub proof fn lemma_lex_strict_total<A>(lt: spec_fn(A, A) -> bool)
    requires
        strict_total(lt),
    ensures
        strict_total(|a: Seq<A>, b: Seq<A>| lex_before(lt, a, b)),
{
    let lex = |a: Seq<A>, b: Seq<A>| lex_before(lt, a, b);
    assert forall|x: Seq<A>, y: Seq<A>, z: Seq<A>| #[trigger] lex(x, y) && #[trigger] lex(y, z)
        implies lex(x, z) by {
        let n = choose|n: int| #[trigger]
            agree(x, y, n) && n < y.len() && (n == x.len() || lt(x[n], y[n]));
        let m = choose|m: int| #[trigger]
            agree(y, z, m) && m < z.len() && (m == y.len() || lt(y[m], z[m]));
        let k = if n <= m { n } else { m };
        assert(agree(x, z, k));
    }
    assert forall|x: Seq<A>, y: Seq<A>| x == y || #[trigger] lex(x, y) || lex(y, x) by {
        let n = lemma_parting(x, y, 0);
        assert(agree(y, x, n));
        if n == x.len() && n == y.len() {
            assert(x =~= y);
        }
    }
}

/// Byte strings are strictly and totally ordered.
pub proof fn lemma_bytes_strict_total()
    ensures
        strict_total(bytes_order()),
{
    lemma_lex_strict_total(byte_order());
    assert(bytes_order() =~= |a: Seq<u8>, b: Seq<u8>| lex_before(byte_order(), a, b));
}

/// Sequences of byte strings are strictly and totally ordered.
pub proof fn lemma_path_strict_total()
    ensures
        strict_total(path_order()),
{
    lemma_bytes_strict_total();
    lemma_lex_strict_total(bytes_order());
    assert(path_order() =~= |a: Seq<Seq<u8>>, b: Seq<Seq<u8>>| lex_before(bytes_order(), a, b));
}

/// How one key stands to another.
#[derive(Clone, Copy, Debug, PartialEq, Eq, Structural)]
pub enum Relation {
    Before,
    Same,
    After,
}

/// A key of a sorted map: two keys with the same model are one key, and the
/// models are strictly and totally ordered.
pub trait Key: DeepView + Sized {
    spec fn order() -> spec_fn(<Self as DeepView>::V, <Self as DeepView>::V) -> bool;

    proof fn order_is_strict_total()
        ensures
            strict_total(Self::order()),
    ;

    fn compare(&self, other: &Self) -> (relation: Relation)
        ensures
            match relation {
                Relation::Before => (Self::order())(self.deep_view(), other.deep_view()),
                Relation::Same => self.deep_view() == other.deep_view(),
                Relation::After => (Self::order())(other.deep_view(), self.deep_view()),
            },
    ;
}

/// Compares two byte strings.
pub fn compare_bytes(a: &[u8], b: &[u8]) -> (relation: Relation)
    ensures
        match relation {
            Relation::Before => (bytes_order())(a@, b@),
            Relation::Same => a@ == b@,
            Relation::After => (bytes_order())(b@, a@),
        },
{
    let mut n: usize = 0;
    while n < a.len() && n < b.len()
        invariant
            agree(a@, b@, n as int),
        decreases a.len() - n,
    {
        if a[n] < b[n] {
            return Relation::Before;
        }
        if b[n] < a[n] {
            assert(agree(b@, a@, n as int));
            return Relation::After;
        }
        n = n + 1;
    }
    if n < b.len() {
        Relation::Before
    } else if n < a.len() {
        assert(agree(b@, a@, n as int));
        Relation::After
    } else {
        assert(a@ =~= b@);
        Relation::Same
    }
}

/// Strings in the order of their bytes.
pub open spec fn string_order() -> spec_fn(Seq<char>, Seq<char>) -> bool {
    |a: Seq<char>, b: Seq<char>| (bytes_order())(encode_utf8(a), encode_utf8(b))
}

/// Two strings with the same bytes are the same string.
proof fn lemma_encoding_is_injective(a: Seq<char>, b: Seq<char>)
    requires
        encode_utf8(a) == encode_utf8(b),
    ensures
        a == b,
{
    encode_utf8_decode_utf8(a);
    encode_utf8_decode_utf8(b);
}

impl Key for String {
    open spec fn order() -> spec_fn(Seq<char>, Seq<char>) -> bool {
        string_order()
    }

    proof fn order_is_strict_total() {
        lemma_bytes_strict_total();
        let lt = string_order();
        assert forall|x: Seq<char>, y: Seq<char>| x == y || #[trigger] lt(x, y) || lt(y, x) by {
            if encode_utf8(x) == encode_utf8(y) {
                lemma_encoding_is_injective(x, y);
            }
        }
    }

    fn compare(&self, other: &Self) -> (relation: Relation) {
        let relation = compare_bytes(self.as_str().as_bytes(), other.as_str().as_bytes());
        proof {
            if relation is Same {
                lemma_encoding_is_injective(self@, other@);
            }
        }
        relation
    }
}

/// Of two byte strings that part after a common front, the one with the lesser byte
/// comes first, whatever follows. One that ends where the other goes on comes first.
pub proof fn the_first_byte_that_differs_decides(
    front: Seq<u8>,
    x: u8,
    y: u8,
    a: Seq<u8>,
    b: Seq<u8>,
)
    ensures
        x < y ==> (bytes_order())(front + seq![x] + a, front + seq![y] + b),
        (bytes_order())(front, front + seq![x] + a),
{
    let n = front.len() as int;
    assert(agree(front + seq![x] + a, front + seq![y] + b, n));
    assert(agree(front, front + seq![x] + a, n));
}

/// Of two paths that part after a common front, the one with the lesser element comes
/// first, whatever follows. A path comes before those that lead on from it.
pub proof fn the_first_element_that_differs_decides(
    front: Seq<Seq<u8>>,
    x: Seq<u8>,
    y: Seq<u8>,
    a: Seq<Seq<u8>>,
    b: Seq<Seq<u8>>,
)
    ensures
        (bytes_order())(x, y) ==> (path_order())(front + seq![x] + a, front + seq![y] + b),
        (path_order())(front, front + seq![x] + a),
{
    let n = front.len() as int;
    assert(agree(front + seq![x] + a, front + seq![y] + b, n));
    assert(agree(front, front + seq![x] + a, n));
}

/// Two strings stand to each other as their encodings do.
pub proof fn strings_are_ordered_as_their_encodings(a: Seq<char>, b: Seq<char>)
    ensures
        (<String as Key>::order())(a, b) <==> (bytes_order())(encode_utf8(a), encode_utf8(b)),
{
}

} // verus!
