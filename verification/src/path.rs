//! Paths inside a repository.

use vstd::prelude::*;
use vstd::utf8::*;

use crate::order::{
    agree, bytes_order, compare_bytes, lemma_path_strict_total, path_order, Key, Relation,
};

verus! {

/// The elements one after another, with a slash between any two.
pub open spec fn slash_joined(elements: Seq<Seq<u8>>) -> Seq<u8>
    decreases elements.len(),
{
    if elements.len() == 0 {
        Seq::empty()
    } else if elements.len() == 1 {
        elements[0]
    } else {
        slash_joined(elements.drop_last()) + seq![47u8] + elements.last()
    }
}

/// The text that `String::from_utf8_lossy` makes of the bytes.
pub uninterp spec fn utf8_lossy(bytes: Seq<u8>) -> Seq<char>;

/// Calls `String::from_utf8_lossy`. Its result depends on the bytes alone; bytes
/// that are UTF-8 are decoded as such. What stands in for other bytes is left to
/// the name `utf8_lossy`.
#[verifier::external_body]
fn decode_lossy(bytes: &[u8]) -> (text: String)
    ensures
        text@ == utf8_lossy(bytes@),
        valid_utf8(bytes@) ==> text@ == decode_utf8(bytes@),
{
    String::from_utf8_lossy(bytes).into_owned()
}

/// A path inside a repository: its elements, from the root down.
#[derive(Debug)]
pub struct MPath {
    pub elements: Vec<Vec<u8>>,
}

impl DeepView for MPath {
    type V = Seq<Seq<u8>>;

    open spec fn deep_view(&self) -> Seq<Seq<u8>> {
        self.elements.deep_view()
    }
}

impl View for MPath {
    type V = Seq<Seq<u8>>;

    open spec fn view(&self) -> Seq<Seq<u8>> {
        self.elements.deep_view()
    }
}

impl Clone for MPath {
    fn clone(&self) -> (copy: Self)
        ensures
            copy@ == self@,
    {
        let mut elements: Vec<Vec<u8>> = Vec::new();
        extend(&mut elements, &self.elements);
        assert(elements.deep_view() =~= self@);
        MPath { elements }
    }
}

/// Appends copies of `more` to `elements`.
fn extend(elements: &mut Vec<Vec<u8>>, more: &Vec<Vec<u8>>)
    ensures
        final(elements).deep_view() == old(elements).deep_view() + more.deep_view(),
{
    let ghost before = elements.deep_view();
    let mut i: usize = 0;
    while i < more.len()
        invariant
            i <= more@.len(),
            elements.deep_view() == before + more.deep_view().take(i as int),
        decreases more.len() - i,
    {
        let element = more[i].clone();
        assert(element@ =~= more@[i as int]@);
        assert(element.deep_view() =~= more.deep_view()[i as int]);
        let ghost current = elements.deep_view();
        elements.push(element);
        assert(elements.deep_view() =~= current.push(more.deep_view()[i as int]));
        assert(elements.deep_view() =~= before + more.deep_view().take(i + 1));
        i = i + 1;
    }
    assert(more.deep_view().take(i as int) =~= more.deep_view());
}

impl MPath {
    /// The path that leads on from this one along `suffix`.
    pub fn join(&self, suffix: &MPath) -> (path: MPath)
        ensures
            path@ == self@ + suffix@,
    {
        let mut elements: Vec<Vec<u8>> = Vec::new();
        extend(&mut elements, &self.elements);
        extend(&mut elements, &suffix.elements);
        assert(elements.deep_view() =~= self@ + suffix@);
        MPath { elements }
    }

    /// The elements with slashes between them.
    pub fn to_bytes(&self) -> (bytes: Vec<u8>)
        ensures
            bytes@ == slash_joined(self@),
    {
        let mut bytes: Vec<u8> = Vec::new();
        let ghost elements = self@;
        let mut i: usize = 0;
        while i < self.elements.len()
            invariant
                elements == self@,
                i <= elements.len(),
                bytes@ == slash_joined(elements.take(i as int)),
            decreases self.elements.len() - i,
        {
            let ghost longer = elements.take(i + 1);
            assert(longer.drop_last() =~= elements.take(i as int));
            assert(longer.last() =~= self.elements@[i as int]@);
            if i > 0 {
                bytes.push(47u8);
            }
            bytes.extend_from_slice(self.elements[i].as_slice());
            assert(bytes@ =~= slash_joined(longer));
            i = i + 1;
        }
        assert(elements.take(i as int) =~= elements);
        bytes
    }

    /// The path as text, with slashes between the elements.
    pub fn text(&self) -> (text: String)
        ensures
            text@ == utf8_lossy(slash_joined(self@)),
            valid_utf8(slash_joined(self@)) ==> text@ == decode_utf8(slash_joined(self@)),
    {
        let bytes = self.to_bytes();
        decode_lossy(bytes.as_slice())
    }
}

impl Key for MPath {
    open spec fn order() -> spec_fn(Seq<Seq<u8>>, Seq<Seq<u8>>) -> bool {
        path_order()
    }

    proof fn order_is_strict_total() {
        lemma_path_strict_total();
    }

    fn compare(&self, other: &Self) -> (relation: Relation) {
        let ghost a = self@;
        let ghost b = other@;
        let mut n: usize = 0;
        while n < self.elements.len() && n < other.elements.len()
            invariant
                a == self@,
                b == other@,
                agree(a, b, n as int),
            decreases self.elements.len() - n,
        {
            let relation = compare_bytes(
                self.elements[n].as_slice(),
                other.elements[n].as_slice(),
            );
            assert(a[n as int] =~= self.elements@[n as int]@);
            assert(b[n as int] =~= other.elements@[n as int]@);
            assert(agree(b, a, n as int));
            match relation {
                Relation::Same => {},
                _ => {
                    return relation;
                },
            }
            n = n + 1;
        }
        assert(agree(b, a, n as int));
        if n < other.elements.len() {
            Relation::Before
        } else if n < self.elements.len() {
            Relation::After
        } else {
            assert(a =~= b);
            Relation::Same
        }
    }
}

/// Two suffixes that lead from one directory to the same path are the same.
pub proof fn join_is_injective(dir: Seq<Seq<u8>>, a: Seq<Seq<u8>>, b: Seq<Seq<u8>>)
    requires
        dir + a == dir + b,
    ensures
        a == b,
{
    assert(a =~= (dir + a).skip(dir.len() as int));
    assert(b =~= (dir + b).skip(dir.len() as int));
}

/// A directory leads its suffixes on in their own order.
pub proof fn join_keeps_the_order(dir: Seq<Seq<u8>>, a: Seq<Seq<u8>>, b: Seq<Seq<u8>>)
    requires
        (path_order())(a, b),
    ensures
        (path_order())(dir + a, dir + b),
{
    let lt = bytes_order();
    let n = choose|n: int| #[trigger]
        agree(a, b, n) && n < b.len() && (n == a.len() || lt(a[n], b[n]));
    let m = dir.len() + n;
    assert forall|i: int| 0 <= i < m implies (dir + a)[i] == (dir + b)[i] by {
        if i >= dir.len() {
            assert((dir + a)[i] == a[i - dir.len()]);
            assert((dir + b)[i] == b[i - dir.len()]);
        }
    }
    assert(agree(dir + a, dir + b, m));
}

/// The joined path is written as the directory, a slash and the suffix.
pub proof fn join_is_written_with_a_slash(dir: Seq<Seq<u8>>, suffix: Seq<Seq<u8>>)
    requires
        dir.len() > 0,
        suffix.len() > 0,
    ensures
        slash_joined(dir + suffix) == slash_joined(dir) + seq![47u8] + slash_joined(suffix),
    decreases suffix.len(),
{
    let whole = dir + suffix;
    assert(whole.drop_last() =~= dir + suffix.drop_last());
    assert(whole.last() == suffix.last());
    if suffix.len() == 1 {
        assert(dir + suffix.drop_last() =~= dir);
    } else {
        join_is_written_with_a_slash(dir, suffix.drop_last());
        assert(slash_joined(whole) =~= slash_joined(dir) + seq![47u8] + slash_joined(suffix));
    }
}

/// A path of one element is written as that element, and the empty path as nothing.
pub proof fn one_element_is_written_as_it_is(element: Seq<u8>)
    ensures
        slash_joined(seq![element]) == element,
        slash_joined(Seq::empty()) == Seq::<u8>::empty(),
{
}

/// The model of a path is its elements, one by one, and paths are ordered by it.
pub proof fn a_path_is_modelled_by_its_elements(path: MPath, i: int)
    ensures
        path@.len() == path.elements@.len(),
        0 <= i < path@.len() ==> path@[i] == path.elements@[i]@,
        path.deep_view() == path@,
        <MPath as Key>::order() == path_order(),
{
}

} // verus!
