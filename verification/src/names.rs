//! Names of files, in order.

use vstd::prelude::*;

use crate::text;

verus! {

/// Whether one name comes before another: at the first character in which they differ it has the
/// smaller one, or it is the beginning of the other.
pub open spec fn precedes(a: Seq<char>, b: Seq<char>) -> bool
    decreases a.len(),
{
    if b.len() == 0 {
        false
    } else if a.len() == 0 {
        true
    } else if a[0] != b[0] {
        a[0] < b[0]
    } else {
        precedes(a.drop_first(), b.drop_first())
    }
}

/// Whether no name comes before one in front of it.
pub open spec fn in_order(names: Seq<Seq<char>>) -> bool {
    forall|i: int, j: int|
        0 <= i < j < names.len() ==> !precedes(#[trigger] names[j], #[trigger] names[i])
}

/// The names as texts.
pub open spec fn texts(names: Seq<String>) -> Seq<Seq<char>> {
    Seq::new(names.len(), |i: int| names[i]@)
}

/// Whether `sorted` are the same names, in order.
pub open spec fn sorts(names: Seq<Seq<char>>, sorted: Seq<Seq<char>>) -> bool {
    &&& in_order(sorted)
    &&& sorted.to_multiset() == names.to_multiset()
}

/// Of two names at most one comes before the other.
pub proof fn lemma_precedes_one_way(a: Seq<char>, b: Seq<char>)
    requires
        precedes(a, b),
    ensures
        !precedes(b, a),
    decreases a.len(),
{
    if a.len() > 0 && a[0] == b[0] {
        lemma_precedes_one_way(a.drop_first(), b.drop_first());
    }
}

/// What comes before a name comes before all that this one comes before.
pub proof fn lemma_precedes_on(a: Seq<char>, b: Seq<char>, c: Seq<char>)
    requires
        precedes(a, b),
        precedes(b, c),
    ensures
        precedes(a, c),
    decreases a.len(),
{
    if a.len() > 0 && a[0] == b[0] && b[0] == c[0] {
        lemma_precedes_on(a.drop_first(), b.drop_first(), c.drop_first());
    }
}

/// Two different names are in one order or the other.
pub proof fn lemma_precedes_some_way(a: Seq<char>, b: Seq<char>)
    requires
        a != b,
    ensures
        precedes(a, b) || precedes(b, a),
    decreases a.len(),
{
    if a.len() > 0 && b.len() > 0 && a[0] == b[0] {
        if a.drop_first() == b.drop_first() {
            assert(a =~= seq![a[0]] + a.drop_first());
            assert(b =~= seq![b[0]] + b.drop_first());
        }
        lemma_precedes_some_way(a.drop_first(), b.drop_first());
    } else if a.len() == 0 && b.len() == 0 {
        assert(a =~= b);
    }
}

/// A list of names can be put in order in one way only.
pub proof fn names_have_one_order(names: Seq<Seq<char>>, a: Seq<Seq<char>>, b: Seq<Seq<char>>)
    requires
        sorts(names, a),
        sorts(names, b),
    ensures
        a == b,
    decreases a.len(),
{
    broadcast use vstd::seq_lib::group_to_multiset_ensures;

    assert(a.len() == a.to_multiset().len());
    assert(b.len() == b.to_multiset().len());
    if a.len() > 0 {
        assert(a.to_multiset().count(b[0]) > 0) by {
            assert(b.contains(b[0]));
        }
        assert(b.to_multiset().count(a[0]) > 0) by {
            assert(a.contains(a[0]));
        }
        let i = choose|i: int| 0 <= i < a.len() && a[i] == b[0];
        let j = choose|j: int| 0 <= j < b.len() && b[j] == a[0];
        if a[0] != b[0] {
            lemma_precedes_some_way(a[0], b[0]);
            assert(!precedes(a[i], a[0]));
            assert(!precedes(b[j], b[0]));
        }
        assert(a.remove(0).to_multiset() == b.remove(0).to_multiset());
        assert(a.remove(0) =~= a.drop_first());
        assert(b.remove(0) =~= b.drop_first());
        names_have_one_order(a.remove(0), a.remove(0), b.remove(0));
        assert(a =~= seq![a[0]] + a.remove(0));
        assert(b =~= seq![b[0]] + b.remove(0));
    } else {
        assert(a =~= b);
    }
}

proof fn lemma_precedes_from(a: Seq<char>, b: Seq<char>, n: int)
    requires
        0 <= n <= a.len(),
        n <= b.len(),
        a.take(n) == b.take(n),
    ensures
        precedes(a, b) == precedes(a.skip(n), b.skip(n)),
    decreases n,
{
    if n == 0 {
        assert(a.skip(0) =~= a);
        assert(b.skip(0) =~= b);
    } else {
        assert(a[0] == a.take(n)[0] && b[0] == b.take(n)[0]);
        assert(a.drop_first().take(n - 1) =~= a.take(n).drop_first());
        assert(b.drop_first().take(n - 1) =~= b.take(n).drop_first());
        assert(a.drop_first().skip(n - 1) =~= a.skip(n));
        assert(b.drop_first().skip(n - 1) =~= b.skip(n));
        lemma_precedes_from(a.drop_first(), b.drop_first(), n - 1);
    }
}

/// Whether one name comes before another.
pub fn is_before(a: &str, b: &str) -> (r: bool)
    ensures
        r == precedes(a@, b@),
{
    let a_chars = text::chars_of(a);
    let b_chars = text::chars_of(b);
    let mut n: usize = 0;
    while n < a_chars.len() && n < b_chars.len() && a_chars[n] == b_chars[n]
        invariant
            n <= a_chars@.len(),
            n <= b_chars@.len(),
            a_chars@ == a@,
            b_chars@ == b@,
            a@.take(n as int) == b@.take(n as int),
        decreases a_chars@.len() - n,
    {
        proof {
            assert(a@.take(n + 1) =~= a@.take(n as int).push(a@[n as int]));
            assert(b@.take(n + 1) =~= b@.take(n as int).push(b@[n as int]));
        }
        n = n + 1;
    }
    proof {
        lemma_precedes_from(a@, b@, n as int);
    }
    if n == b_chars.len() {
        false
    } else if n == a_chars.len() {
        true
    } else {
        a_chars[n] < b_chars[n]
    }
}

/// The names, in order.
pub fn sorted(names: Vec<String>) -> (r: Vec<String>)
    ensures
        sorts(texts(names@), texts(r@)),
{
    let mut r: Vec<String> = Vec::new();
    let mut i: usize = 0;
    assert(texts(r@) =~= texts(names@).take(0));
    while i < names.len()
        invariant
            i <= names@.len(),
            sorts(texts(names@).take(i as int), texts(r@)),
        decreases names@.len() - i,
    {
        let ghost before = texts(r@);
        let ghost name = names@[i as int]@;
        let mut at: usize = 0;
        while at < r.len() && !is_before(names[i].as_str(), r[at].as_str())
            invariant
                i < names@.len(),
                at <= r@.len(),
                name == names@[i as int]@,
                before == texts(r@),
                forall|k: int| 0 <= k < at ==> !precedes(name, #[trigger] before[k]),
            decreases r@.len() - at,
        {
            assert(before[at as int] == r@[at as int]@);
            at = at + 1;
        }
        proof {
            if at < r@.len() {
                assert(before[at as int] == r@[at as int]@);
                assert forall|k: int| at <= k < before.len() implies !precedes(
                    #[trigger] before[k],
                    name,
                ) by {
                    if precedes(before[k], name) {
                        lemma_precedes_on(before[k], name, before[at as int]);
                        if k == at {
                            lemma_precedes_one_way(before[k], before[at as int]);
                        }
                    }
                }
            }
        }
        r.insert(at, names[i].clone());
        proof {
            assert(texts(r@) =~= before.insert(at as int, name));
            vstd::seq_lib::to_multiset_insert(before, at as int, name);
            assert(texts(names@).take(i + 1) =~= texts(names@).take(i as int).push(name));
            vstd::seq_lib::to_multiset_build(texts(names@).take(i as int), name);
            let after = texts(r@);
            assert forall|k: int, l: int| 0 <= k < l < after.len() implies !precedes(
                #[trigger] after[l],
                #[trigger] after[k],
            ) by {
                let from = |n: int| if n < at { n } else { n - 1 };
                if k != at && l != at {
                    assert(after[k] == before[from(k)]);
                    assert(after[l] == before[from(l)]);
                } else if k == at {
                    assert(after[l] == before[l - 1]);
                } else {
                    assert(after[k] == before[k]);
                }
            }
        }
        i = i + 1;
    }
    assert(texts(names@).take(names@.len() as int) =~= texts(names@));
    r
}

/// The order of names is that of a dictionary: what two names have in front in common does not
/// count, behind it the smaller character comes first, and a name comes before all that go on from
/// it.
pub proof fn names_are_in_the_order_of_a_dictionary(
    front: Seq<char>,
    a: Seq<char>,
    b: Seq<char>,
)
    ensures
        precedes(front + a, front + b) == precedes(a, b),
        a.len() > 0 && b.len() > 0 && a[0] < b[0] ==> precedes(front + a, front + b),
        a.len() > 0 ==> precedes(front, front + a) && !precedes(front + a, front),
        !precedes(a, a),
{
    let n = front.len() as int;
    assert((front + a).take(n) =~= front && (front + b).take(n) =~= front);
    assert((front + a).skip(n) =~= a && (front + b).skip(n) =~= b);
    lemma_precedes_from(front + a, front + b, n);
    assert(front.take(n) =~= front && front.skip(n) =~= seq![]);
    lemma_precedes_from(front, front + a, n);
    lemma_precedes_from(front + a, front, n);
    assert(a.skip(a.len() as int) =~= seq![]);
    lemma_precedes_from(a, a, a.len() as int);
}

} // verus!
