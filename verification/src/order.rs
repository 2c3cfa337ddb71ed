//! The order of names, and sorting by it.

use vstd::prelude::*;

verus! {

/// Lexicographic order of bytes.
pub open spec fn bytes_le(a: Seq<u8>, b: Seq<u8>) -> bool
    decreases a.len(),
{
    if a.len() == 0 {
        true
    } else if b.len() == 0 {
        false
    } else if a.first() != b.first() {
        a.first() < b.first()
    } else {
        bytes_le(a.drop_first(), b.drop_first())
    }
}

/// The order of names: that of the bytes of their UTF-8 encodings.
pub open spec fn name_le(a: Seq<char>, b: Seq<char>) -> bool {
    bytes_le(vstd::utf8::encode_utf8(a), vstd::utf8::encode_utf8(b))
}

/// The order of names as a relation.
pub open spec fn name_order() -> spec_fn(Seq<char>, Seq<char>) -> bool {
    |a: Seq<char>, b: Seq<char>| name_le(a, b)
}

/// `names` sorted.
pub open spec fn in_order(names: Seq<Seq<char>>) -> Seq<Seq<char>> {
    names.sort_by(name_order())
}

/// One name stands before another, or is equal to it, where its bytes begin
/// those of the other, or are smaller where the two first differ.
pub proof fn law_name_le(a: Seq<char>, b: Seq<char>)
    ensures
        ({
            let left = vstd::utf8::encode_utf8(a);
            let right = vstd::utf8::encode_utf8(b);
            name_le(a, b) <==> left.is_prefix_of(right) || exists|i: int|
                0 <= i < left.len() && i < right.len() && #[trigger] left.take(i) == right.take(i)
                    && left[i] < right[i]
        }),
{
    lemma_bytes_le(vstd::utf8::encode_utf8(a), vstd::utf8::encode_utf8(b));
}

proof fn lemma_bytes_le(a: Seq<u8>, b: Seq<u8>)
    ensures
        bytes_le(a, b) <==> a.is_prefix_of(b) || exists|i: int|
            0 <= i < a.len() && i < b.len() && #[trigger] a.take(i) == b.take(i) && a[i] < b[i],
    decreases a.len(),
{
    if a.len() == 0 {
        assert(a =~= b.subrange(0, 0));
    } else if b.len() > 0 && a.first() != b.first() {
        assert(a.take(0) =~= b.take(0));
        if a.is_prefix_of(b) {
            assert(a[0] == b[0]);
        }
        if exists|i: int|
            0 <= i < a.len() && i < b.len() && #[trigger] a.take(i) == b.take(i) && a[i] < b[i] {
            let i = choose|i: int|
                0 <= i < a.len() && i < b.len() && #[trigger] a.take(i) == b.take(i) && a[i] < b[i];
            if i > 0 {
                assert(a.take(i)[0] == b.take(i)[0]);
            }
        }
    } else if b.len() > 0 {
        let c = a.drop_first();
        let d = b.drop_first();
        lemma_bytes_le(c, d);
        if c.is_prefix_of(d) {
            assert(a =~= b.subrange(0, a.len() as int)) by {
                assert forall|i: int| 0 <= i < a.len() implies a[i] == b[i] by {
                    if i > 0 {
                        assert(c[i - 1] == d.subrange(0, c.len() as int)[i - 1]);
                    }
                }
            }
        }
        if a.is_prefix_of(b) {
            assert(c =~= d.subrange(0, c.len() as int)) by {
                assert forall|i: int| 0 <= i < c.len() implies c[i] == d[i] by {
                    assert(a[i + 1] == b.subrange(0, a.len() as int)[i + 1]);
                }
            }
        }
        if exists|i: int|
            0 <= i < c.len() && i < d.len() && #[trigger] c.take(i) == d.take(i) && c[i] < d[i] {
            let i = choose|i: int|
                0 <= i < c.len() && i < d.len() && #[trigger] c.take(i) == d.take(i) && c[i] < d[i];
            assert(a.take(i + 1) =~= seq![a[0]] + c.take(i));
            assert(b.take(i + 1) =~= seq![b[0]] + d.take(i));
            assert(a[i + 1] < b[i + 1]);
        }
        if exists|i: int|
            0 <= i < a.len() && i < b.len() && #[trigger] a.take(i) == b.take(i) && a[i] < b[i] {
            let i = choose|i: int|
                0 <= i < a.len() && i < b.len() && #[trigger] a.take(i) == b.take(i) && a[i] < b[i];
            assert(c.take(i - 1) =~= a.take(i).drop_first());
            assert(d.take(i - 1) =~= b.take(i).drop_first());
            assert(c[i - 1] < d[i - 1]);
        }
    }
}

proof fn lemma_bytes_le_total(a: Seq<u8>, b: Seq<u8>)
    ensures
        bytes_le(a, b) || bytes_le(b, a),
        bytes_le(a, b) && bytes_le(b, a) ==> a == b,
    decreases a.len(),
{
    if a.len() == 0 || b.len() == 0 {
        if bytes_le(a, b) && bytes_le(b, a) {
            assert(a =~= b);
        }
    } else if a.first() == b.first() {
        lemma_bytes_le_total(a.drop_first(), b.drop_first());
        if bytes_le(a, b) && bytes_le(b, a) {
            assert(a =~= seq![a.first()] + a.drop_first());
            assert(b =~= seq![b.first()] + b.drop_first());
        }
    }
}

proof fn lemma_bytes_le_transitive(a: Seq<u8>, b: Seq<u8>, c: Seq<u8>)
    requires
        bytes_le(a, b),
        bytes_le(b, c),
    ensures
        bytes_le(a, c),
    decreases a.len(),
{
    if a.len() > 0 && a.first() == b.first() && b.first() == c.first() {
        lemma_bytes_le_transitive(a.drop_first(), b.drop_first(), c.drop_first());
    }
}

/// The order of names is a total order.
pub proof fn law_name_order_total()
    ensures
        vstd::relations::total_ordering(name_order()),
{
    let le = name_order();
    assert forall|a: Seq<char>| #[trigger] le(a, a) by {
        lemma_bytes_le_total(vstd::utf8::encode_utf8(a), vstd::utf8::encode_utf8(a));
    }
    assert forall|a: Seq<char>, b: Seq<char>| #[trigger] le(a, b) && #[trigger] le(b, a) implies a
        == b by {
        lemma_bytes_le_total(vstd::utf8::encode_utf8(a), vstd::utf8::encode_utf8(b));
        vstd::utf8::encode_utf8_decode_utf8(a);
        vstd::utf8::encode_utf8_decode_utf8(b);
    }
    assert forall|a: Seq<char>, b: Seq<char>, c: Seq<char>| #[trigger]
        le(a, b) && #[trigger] le(b, c) implies le(a, c) by {
        lemma_bytes_le_transitive(
            vstd::utf8::encode_utf8(a),
            vstd::utf8::encode_utf8(b),
            vstd::utf8::encode_utf8(c),
        );
    }
    assert forall|a: Seq<char>, b: Seq<char>| #[trigger] le(a, b) || #[trigger] le(b, a) by {
        lemma_bytes_le_total(vstd::utf8::encode_utf8(a), vstd::utf8::encode_utf8(b));
    }
}

/// Sorting changes nothing but the order: each name stands in the sorted list
/// as often as before, and no name stands before a smaller one.
pub proof fn law_in_order(names: Seq<Seq<char>>)
    ensures
        in_order(names).to_multiset() == names.to_multiset(),
        in_order(names).len() == names.len(),
        forall|i: int, j: int|
            0 <= i < j < in_order(names).len() ==> name_le(
                #[trigger] in_order(names)[i],
                #[trigger] in_order(names)[j],
            ),
{
    law_name_order_total();
    names.lemma_sort_by_ensures(name_order());
    names.to_multiset_ensures();
    in_order(names).to_multiset_ensures();
    let le = name_order();
    assert forall|i: int, j: int| 0 <= i < j < in_order(names).len() implies name_le(
        #[trigger] in_order(names)[i],
        #[trigger] in_order(names)[j],
    ) by {
        assert(le(in_order(names)[i], in_order(names)[j]));
    }
}

/// Tests whether `a` stands before `b` or is equal to it.
pub fn not_after(a: &str, b: &str) -> (yes: bool)
    ensures
        yes == name_le(a@, b@),
{
    let left = a.as_bytes();
    let right = b.as_bytes();
    let mut i: usize = 0;
    assert(left@.skip(0) =~= left@);
    assert(right@.skip(0) =~= right@);
    while i < left.len() && i < right.len() && left[i] == right[i]
        invariant
            i <= left@.len(),
            i <= right@.len(),
            bytes_le(left@, right@) == bytes_le(left@.skip(i as int), right@.skip(i as int)),
        decreases left@.len() - i,
    {
        assert(left@.skip(i as int).drop_first() =~= left@.skip(i + 1));
        assert(right@.skip(i as int).drop_first() =~= right@.skip(i + 1));
        i += 1;
    }
    if i == left.len() {
        true
    } else if i == right.len() {
        false
    } else {
        left[i] < right[i]
    }
}

/// Where `name` belongs in a sorted list: behind the names that are not
/// greater.
fn insertion_point(sorted: &Vec<String>, name: &str) -> (place: usize)
    requires
        vstd::relations::sorted_by(sorted.deep_view(), name_order()),
    ensures
        place <= sorted@.len(),
        forall|i: int| 0 <= i < place ==> name_le(#[trigger] sorted@[i]@, name@),
        forall|i: int| place <= i < sorted@.len() ==> name_le(name@, #[trigger] sorted@[i]@),
{
    let mut place: usize = sorted.len();
    proof {
        law_name_order_total();
    }
    let ghost le = name_order();
    while place > 0 && !not_after(sorted[place - 1].as_str(), name)
        invariant
            place <= sorted@.len(),
            le == name_order(),
            vstd::relations::total_ordering(name_order()),
            forall|i: int| place <= i < sorted@.len() ==> name_le(name@, #[trigger] sorted@[i]@),
        decreases place,
    {
        assert(le(sorted@[place - 1]@, name@) || le(name@, sorted@[place - 1]@));
        place -= 1;
    }
    assert forall|i: int| 0 <= i < place implies name_le(#[trigger] sorted@[i]@, name@) by {
        let names = sorted.deep_view();
        if i < place - 1 {
            assert(le(names[i], names[place - 1]));
        }
        assert(le(names[place - 1], name@));
    }
    place
}

/// Sorts `names`.
pub fn sort_names(names: Vec<String>) -> (sorted: Vec<String>)
    ensures
        sorted.deep_view() == in_order(names.deep_view()),
        sorted.deep_view().to_multiset() == names.deep_view().to_multiset(),
        forall|i: int, j: int|
            0 <= i < j < sorted@.len() ==> name_le(#[trigger] sorted@[i]@, #[trigger] sorted@[j]@),
{
    let ghost le = name_order();
    let ghost given = names.deep_view();
    let mut sorted: Vec<String> = Vec::new();
    assert(sorted.deep_view() =~= given.take(0));
    for name in rest: names
        invariant
            le == name_order(),
            given == names.deep_view(),
            rest.seq() == names@,
            vstd::relations::sorted_by(sorted.deep_view(), le),
            sorted.deep_view().to_multiset() == given.take(rest.index() as int).to_multiset(),
    {
        let ghost before = sorted.deep_view();
        let ghost k = rest.index();
        let place = insertion_point(&sorted, name.as_str());
        let ghost text = name@;
        sorted.insert(place, name);
        proof {
            let after = sorted.deep_view();
            assert(after =~= before.insert(place as int, text));
            assert forall|i: int, j: int| 0 <= i < j < after.len() implies #[trigger] le(
                after[i],
                after[j],
            ) by {
                let i0 = if i < place { i } else { i - 1 };
                let j0 = if j < place { j } else { j - 1 };
                if i != place && j != place {
                    assert(le(before[i0], before[j0]));
                }
            }
            assert(given.take(k + 1) =~= given.take(k as int).push(text));
            broadcast use vstd::seq_lib::group_to_multiset_ensures;
            assert(after.remove(place as int) =~= before);
            assert(after.to_multiset() =~= before.to_multiset().insert(text));
        }
    }
    proof {
        assert(given.take(names@.len() as int) =~= given);
        law_name_order_total();
        given.lemma_sort_by_ensures(le);
        vstd::seq_lib::lemma_sorted_unique(sorted.deep_view(), in_order(given), le);
        law_in_order(given);
        assert forall|i: int, j: int| 0 <= i < j < sorted@.len() implies name_le(
            #[trigger] sorted@[i]@,
            #[trigger] sorted@[j]@,
        ) by {
            assert(in_order(given)[i] == sorted@[i]@ && in_order(given)[j] == sorted@[j]@);
        }
    }
    sorted
}

} // verus!
