//! Ordering by a text key: by recency, which is newest first by the text of a
//! timestamp, or by name. Items of equal key keep the order in which they
//! came.

use vstd::prelude::*;
use vstd::seq_lib::*;
use crate::model::{views, Message, MessageModel, Project, ProjectModel, Session, SessionModel};
use crate::text::chars_of;

verus! {

/// The order of strings: character by character, a proper prefix first.
pub open spec fn lex_lt(a: Seq<char>, b: Seq<char>) -> bool
    decreases a.len(),
{
    if b.len() == 0 {
        false
    } else if a.len() == 0 {
        true
    } else if a[0] == b[0] {
        lex_lt(a.drop_first(), b.drop_first())
    } else {
        a[0] < b[0]
    }
}

/// No two strings are each before the other.
pub proof fn lemma_lex_lt_asymmetric(a: Seq<char>, b: Seq<char>)
    ensures
        !(lex_lt(a, b) && lex_lt(b, a)),
    decreases a.len(),
{
    if a.len() > 0 && b.len() > 0 && a[0] == b[0] {
        lemma_lex_lt_asymmetric(a.drop_first(), b.drop_first());
    }
}

/// A string that is before another is before any third or has the third
/// before the other.
pub proof fn lemma_lex_lt_cotransitive(a: Seq<char>, b: Seq<char>, c: Seq<char>)
    requires
        lex_lt(a, c),
    ensures
        lex_lt(a, b) || lex_lt(b, c),
    decreases a.len(),
{
    if a.len() > 0 && b.len() > 0 && c.len() > 0 && a[0] == b[0] && b[0] == c[0] {
        lemma_lex_lt_cotransitive(a.drop_first(), b.drop_first(), c.drop_first());
    }
}

/// Of two different strings one is before the other.
pub proof fn lemma_lex_lt_total(a: Seq<char>, b: Seq<char>)
    requires
        a != b,
    ensures
        lex_lt(a, b) || lex_lt(b, a),
    decreases a.len(),
{
    if a.len() > 0 && b.len() > 0 && a[0] == b[0] {
        if a.drop_first() == b.drop_first() {
            assert(a =~= seq![a[0]] + a.drop_first());
            assert(b =~= seq![b[0]] + b.drop_first());
        }
        lemma_lex_lt_total(a.drop_first(), b.drop_first());
    } else if a.len() == 0 && b.len() == 0 {
        assert(a =~= b);
    }
}

/// Whether `a` is before `b` in the order of strings.
pub fn str_lt(a: &str, b: &str) -> (r: bool)
    ensures
        r == lex_lt(a@, b@),
{
    let x = chars_of(a);
    let y = chars_of(b);
    let mut i: usize = 0;
    assert(x@.skip(0) =~= x@ && y@.skip(0) =~= y@);
    while i < x.len() && i < y.len()
        invariant
            i <= x.len(),
            i <= y.len(),
            x@ == a@,
            y@ == b@,
            lex_lt(a@, b@) == lex_lt(x@.skip(i as int), y@.skip(i as int)),
        decreases x.len() - i,
    {
        proof {
            assert(x@.skip(i as int)[0] == x@[i as int]);
            assert(y@.skip(i as int)[0] == y@[i as int]);
            assert(x@.skip(i as int).drop_first() =~= x@.skip(i + 1));
            assert(y@.skip(i as int).drop_first() =~= y@.skip(i + 1));
        }
        if x[i] != y[i] {
            return x[i] < y[i];
        }
        i = i + 1;
    }
    i < y.len()
}

/// Something that carries the text by which it is ordered: a timestamp or a
/// name.
pub trait Keyed: View {
    /// The key of a view.
    spec fn key_of(m: Self::V) -> Seq<char>;

    /// The key.
    fn key_str(&self) -> (r: &str)
        ensures
            r@ == Self::key_of(self@),
    ;
}

impl Keyed for Project {
    open spec fn key_of(m: ProjectModel) -> Seq<char> {
        m.last_modified
    }

    fn key_str(&self) -> (r: &str) {
        self.last_modified.as_str()
    }
}

impl Keyed for Session {
    open spec fn key_of(m: SessionModel) -> Seq<char> {
        m.last_modified
    }

    fn key_str(&self) -> (r: &str) {
        self.last_modified.as_str()
    }
}

impl Keyed for Message {
    open spec fn key_of(m: MessageModel) -> Seq<char> {
        m.timestamp
    }

    fn key_str(&self) -> (r: &str) {
        self.timestamp.as_str()
    }
}

/// Whether the key `a` has its place before the key `b`: in ascending order
/// the smaller key, in descending order the greater.
pub open spec fn precedes(a: Seq<char>, b: Seq<char>, ascending: bool) -> bool {
    if ascending {
        lex_lt(a, b)
    } else {
        lex_lt(b, a)
    }
}

/// No item stands behind one whose key has its place after its own.
pub open spec fn in_order<T: Keyed>(s: Seq<T::V>, ascending: bool) -> bool {
    forall|i: int, j: int|
        0 <= i < j < s.len() ==> !precedes(T::key_of(s[j]), T::key_of(s[i]), ascending)
}

/// The items of `s` whose key is `key`, in their order in `s`.
pub open spec fn with_key<T: Keyed>(s: Seq<T::V>, key: Seq<char>) -> Seq<T::V> {
    s.filter(|m: T::V| T::key_of(m) == key)
}

/// `sorted` holds the items of `given` in order, and among the items of one
/// key the order of `given` is kept. For each `given` exactly one sequence
/// does: the one that `ordered` gives.
pub open spec fn is_sorted_of<T: Keyed>(sorted: Seq<T::V>, given: Seq<T::V>, ascending: bool) -> bool {
    &&& in_order::<T>(sorted, ascending)
    &&& forall|key: Seq<char>| #[trigger] with_key::<T>(sorted, key) == with_key::<T>(given, key)
    &&& sorted.to_multiset() == given.to_multiset()
    &&& sorted.len() == given.len()
}

/// `sorted` holds the items of `given` newest first, and among the items of
/// one timestamp the order of `given` is kept.
pub open spec fn is_by_recency<T: Keyed>(sorted: Seq<T::V>, given: Seq<T::V>) -> bool {
    is_sorted_of::<T>(sorted, given, false)
}

proof fn lemma_with_key_none<T: Keyed>(s: Seq<T::V>, key: Seq<char>)
    requires
        forall|i: int| 0 <= i < s.len() ==> T::key_of(s[i]) != key,
    ensures
        with_key::<T>(s, key) == Seq::<T::V>::empty(),
    decreases s.len(),
{
    reveal(Seq::filter);
    if s.len() > 0 {
        lemma_with_key_none::<T>(s.drop_last(), key);
    }
}

proof fn lemma_precedes_asymmetric(a: Seq<char>, b: Seq<char>, ascending: bool)
    ensures
        !(precedes(a, b, ascending) && precedes(b, a, ascending)),
{
    lemma_lex_lt_asymmetric(a, b);
}

proof fn lemma_precedes_cotransitive(a: Seq<char>, b: Seq<char>, c: Seq<char>, ascending: bool)
    requires
        precedes(a, c, ascending),
    ensures
        precedes(a, b, ascending) || precedes(b, c, ascending),
{
    if ascending {
        lemma_lex_lt_cotransitive(a, b, c);
    } else {
        lemma_lex_lt_cotransitive(c, b, a);
    }
}

proof fn lemma_insert_keeps_order<T: Keyed>(
    sorted: Seq<T::V>,
    rest: Seq<T::V>,
    x: T::V,
    p: int,
    ascending: bool,
)
    requires
        is_sorted_of::<T>(sorted, rest, ascending),
        0 <= p <= sorted.len(),
        forall|i: int| 0 <= i < p ==> precedes(T::key_of(sorted[i]), T::key_of(x), ascending),
        p < sorted.len() ==> !precedes(T::key_of(sorted[p]), T::key_of(x), ascending),
    ensures
        is_sorted_of::<T>(sorted.insert(p, x), seq![x] + rest, ascending),
{
    let grown = sorted.insert(p, x);
    let head = sorted.subrange(0, p);
    let tail = sorted.subrange(p, sorted.len() as int);
    sorted.insert_ensures(p, x);
    assert(sorted =~= head + tail);
    assert forall|i: int, j: int| 0 <= i < j < grown.len() implies !precedes(
        T::key_of(grown[j]),
        T::key_of(grown[i]),
        ascending,
    ) by {
        if j < p {
            assert(grown[i] == sorted[i] && grown[j] == sorted[j]);
        } else if j == p {
            assert(grown[i] == sorted[i]);
            lemma_precedes_asymmetric(T::key_of(x), T::key_of(sorted[i]), ascending);
        } else if i < p {
            assert(grown[i] == sorted[i] && grown[j] == sorted[j - 1]);
        } else if i == p {
            assert(grown[j] == sorted[j - 1]);
            if precedes(T::key_of(sorted[j - 1]), T::key_of(x), ascending) {
                lemma_precedes_cotransitive(
                    T::key_of(sorted[j - 1]),
                    T::key_of(sorted[p]),
                    T::key_of(x),
                    ascending,
                );
            }
        } else {
            assert(grown[i] == sorted[i - 1] && grown[j] == sorted[j - 1]);
        }
    }
    assert forall|key: Seq<char>| #[trigger]
        with_key::<T>(grown, key) == with_key::<T>(seq![x] + rest, key) by {
        let pred = |m: T::V| T::key_of(m) == key;
        Seq::filter_distributes_over_add(head, tail, pred);
        Seq::filter_distributes_over_add(head.push(x), tail, pred);
        head.lemma_filter_push(x, pred);
        rest.lemma_filter_prepend(x, pred);
        assert(with_key::<T>(sorted, key) == with_key::<T>(rest, key));
        if T::key_of(x) == key {
            assert forall|i: int| 0 <= i < head.len() implies T::key_of(head[i]) != key by {
                assert(head[i] == sorted[i]);
                lemma_precedes_asymmetric(T::key_of(x), T::key_of(sorted[i]), ascending);
            }
            lemma_with_key_none::<T>(head, key);
            assert(head.filter(pred).push(x) + tail.filter(pred) =~= seq![x] + (head.filter(pred)
                + tail.filter(pred)));
        } else {
            assert(Seq::<T::V>::empty() + rest.filter(pred) =~= rest.filter(pred));
        }
    }
    to_multiset_insert(sorted, p, x);
    assert((seq![x] + rest).to_multiset() =~= rest.to_multiset().insert(x)) by {
        assert(seq![x] + rest =~= rest.insert(0, x));
        to_multiset_insert(rest, 0, x);
    }
}

proof fn lemma_with_key_last<T: Keyed>(s: Seq<T::V>, key: Seq<char>)
    requires
        s.len() > 0,
    ensures
        with_key::<T>(s, key) == if T::key_of(s.last()) == key {
            with_key::<T>(s.drop_last(), key).push(s.last())
        } else {
            with_key::<T>(s.drop_last(), key)
        },
{
    reveal(Seq::filter);
}

proof fn lemma_with_key_member<T: Keyed>(s: Seq<T::V>, key: Seq<char>, i: int)
    requires
        0 <= i < with_key::<T>(s, key).len(),
    ensures
        exists|j: int| 0 <= j < s.len() && s[j] == with_key::<T>(s, key)[i],
    decreases s.len(),
{
    reveal(Seq::filter);
    if s.len() > 0 {
        lemma_with_key_last::<T>(s, key);
        let shorter = with_key::<T>(s.drop_last(), key);
        if i < shorter.len() {
            lemma_with_key_member::<T>(s.drop_last(), key, i);
            let j = choose|j: int|
                0 <= j < s.drop_last().len() && s.drop_last()[j] == shorter[i];
            assert(s[j] == with_key::<T>(s, key)[i]);
        } else {
            assert(s[s.len() - 1] == with_key::<T>(s, key)[i]);
        }
    }
}

/// There is one way to order a sequence: two sequences that are both in
/// order and hold the same items under each key, in the same order, are
/// equal.
pub proof fn lemma_order_is_unique<T: Keyed>(a: Seq<T::V>, b: Seq<T::V>, ascending: bool)
    requires
        in_order::<T>(a, ascending),
        in_order::<T>(b, ascending),
        a.len() == b.len(),
        forall|key: Seq<char>| #[trigger] with_key::<T>(a, key) == with_key::<T>(b, key),
    ensures
        a == b,
    decreases a.len(),
{
    if a.len() == 0 {
        assert(a =~= b);
    } else {
        let ka = T::key_of(a.last());
        let kb = T::key_of(b.last());
        lemma_with_key_last::<T>(a, ka);
        lemma_with_key_last::<T>(b, ka);
        lemma_with_key_last::<T>(a, kb);
        lemma_with_key_last::<T>(b, kb);
        assert(with_key::<T>(a, ka) == with_key::<T>(b, ka));
        assert(with_key::<T>(a, kb) == with_key::<T>(b, kb));
        if ka != kb {
            // each sequence holds the last item of the other before its own
            let in_b = with_key::<T>(b.drop_last(), ka);
            assert(in_b.last() == a.last());
            lemma_with_key_member::<T>(b.drop_last(), ka, in_b.len() - 1);
            let j = choose|j: int| 0 <= j < b.drop_last().len() && b.drop_last()[j] == in_b.last();
            assert(b[j] == a.last());
            assert(!precedes(kb, ka, ascending));
            let in_a = with_key::<T>(a.drop_last(), kb);
            assert(in_a.last() == b.last());
            lemma_with_key_member::<T>(a.drop_last(), kb, in_a.len() - 1);
            let i = choose|i: int| 0 <= i < a.drop_last().len() && a.drop_last()[i] == in_a.last();
            assert(a[i] == b.last());
            assert(!precedes(ka, kb, ascending));
            lemma_lex_lt_total(ka, kb);
            assert(false);
        }
        assert(a.last() == b.last()) by {
            assert(with_key::<T>(a, ka).last() == a.last());
            assert(with_key::<T>(b, ka).last() == b.last());
        }
        assert forall|key: Seq<char>| #[trigger]
            with_key::<T>(a.drop_last(), key) == with_key::<T>(b.drop_last(), key) by {
            lemma_with_key_last::<T>(a, key);
            lemma_with_key_last::<T>(b, key);
            assert(with_key::<T>(a, key) == with_key::<T>(b, key));
            if key == ka {
                let x = with_key::<T>(a.drop_last(), key);
                let y = with_key::<T>(b.drop_last(), key);
                assert(x.push(a.last()).drop_last() =~= x);
                assert(y.push(b.last()).drop_last() =~= y);
            }
        }
        assert forall|i: int, j: int| 0 <= i < j < a.drop_last().len() implies !precedes(
            T::key_of(a.drop_last()[j]),
            T::key_of(a.drop_last()[i]),
            ascending,
        ) by {
            assert(a.drop_last()[i] == a[i] && a.drop_last()[j] == a[j]);
        }
        assert forall|i: int, j: int| 0 <= i < j < b.drop_last().len() implies !precedes(
            T::key_of(b.drop_last()[j]),
            T::key_of(b.drop_last()[i]),
            ascending,
        ) by {
            assert(b.drop_last()[i] == b[i] && b.drop_last()[j] == b[j]);
        }
        lemma_order_is_unique::<T>(a.drop_last(), b.drop_last(), ascending);
        assert(a =~= a.drop_last().push(a.last()));
        assert(b =~= b.drop_last().push(b.last()));
    }
}

/// Where `x` goes in `sorted`: the number of items at the front of `sorted`
/// whose key has its place before that of `x`.
pub open spec fn place_of<T: Keyed>(sorted: Seq<T::V>, x: T::V, ascending: bool) -> int
    decreases sorted.len(),
{
    if sorted.len() == 0 {
        0
    } else if precedes(T::key_of(sorted[0]), T::key_of(x), ascending) {
        1 + place_of::<T>(sorted.drop_first(), x, ascending)
    } else {
        0
    }
}

/// The items of `s` in order: each item, from the last to the first, is put
/// into the order of those behind it, before every item of equal key.
/// `lemma_ordered_is_sorted` says what this comes to.
pub open spec fn ordered<T: Keyed>(s: Seq<T::V>, ascending: bool) -> Seq<T::V>
    decreases s.len(),
{
    if s.len() == 0 {
        Seq::empty()
    } else {
        let rest = ordered::<T>(s.drop_first(), ascending);
        rest.insert(place_of::<T>(rest, s[0], ascending), s[0])
    }
}

/// The items of `s` by recency: newest first, items of one timestamp in the
/// order of `s`.
pub open spec fn by_recency<T: Keyed>(s: Seq<T::V>) -> Seq<T::V> {
    ordered::<T>(s, false)
}

proof fn lemma_place_of<T: Keyed>(sorted: Seq<T::V>, x: T::V, ascending: bool)
    ensures
        0 <= place_of::<T>(sorted, x, ascending) <= sorted.len(),
        forall|i: int|
            0 <= i < place_of::<T>(sorted, x, ascending) ==> precedes(
                T::key_of(sorted[i]),
                T::key_of(x),
                ascending,
            ),
        place_of::<T>(sorted, x, ascending) < sorted.len() ==> !precedes(
            T::key_of(sorted[place_of::<T>(sorted, x, ascending)]),
            T::key_of(x),
            ascending,
        ),
    decreases sorted.len(),
{
    if sorted.len() > 0 && precedes(T::key_of(sorted[0]), T::key_of(x), ascending) {
        let rest = sorted.drop_first();
        lemma_place_of::<T>(rest, x, ascending);
        let p = place_of::<T>(rest, x, ascending);
        assert forall|i: int| 0 <= i < p + 1 implies precedes(
            T::key_of(sorted[i]),
            T::key_of(x),
            ascending,
        ) by {
            if i > 0 {
                assert(sorted[i] == rest[i - 1]);
            }
        }
        if p + 1 < sorted.len() {
            assert(sorted[p + 1] == rest[p]);
        }
    }
}

proof fn lemma_place_is<T: Keyed>(sorted: Seq<T::V>, x: T::V, ascending: bool, p: int)
    requires
        0 <= p <= sorted.len(),
        forall|i: int| 0 <= i < p ==> precedes(T::key_of(sorted[i]), T::key_of(x), ascending),
        p < sorted.len() ==> !precedes(T::key_of(sorted[p]), T::key_of(x), ascending),
    ensures
        place_of::<T>(sorted, x, ascending) == p,
    decreases sorted.len(),
{
    if p > 0 {
        let rest = sorted.drop_first();
        assert forall|i: int| 0 <= i < p - 1 implies precedes(
            T::key_of(rest[i]),
            T::key_of(x),
            ascending,
        ) by {
            assert(rest[i] == sorted[i + 1]);
        }
        if p - 1 < rest.len() {
            assert(rest[p - 1] == sorted[p]);
        }
        lemma_place_is::<T>(rest, x, ascending, p - 1);
    }
}

/// `ordered` sorts: what it gives is in order, holds the same items, and
/// keeps the items of one key in the order in which they were given.
pub proof fn lemma_ordered_is_sorted<T: Keyed>(s: Seq<T::V>, ascending: bool)
    ensures
        is_sorted_of::<T>(ordered::<T>(s, ascending), s, ascending),
    decreases s.len(),
{
    if s.len() == 0 {
        assert(ordered::<T>(s, ascending) =~= s);
    } else {
        let rest = s.drop_first();
        let sorted = ordered::<T>(rest, ascending);
        lemma_ordered_is_sorted::<T>(rest, ascending);
        lemma_place_of::<T>(sorted, s[0], ascending);
        lemma_insert_keeps_order::<T>(
            sorted,
            rest,
            s[0],
            place_of::<T>(sorted, s[0], ascending),
            ascending,
        );
        assert(seq![s[0]] + rest =~= s);
    }
}

/// Whatever `is_sorted_of` a sequence is what `ordered` gives for it.
pub proof fn lemma_sorted_is_ordered<T: Keyed>(sorted: Seq<T::V>, given: Seq<T::V>, ascending: bool)
    requires
        is_sorted_of::<T>(sorted, given, ascending),
    ensures
        sorted == ordered::<T>(given, ascending),
{
    lemma_ordered_is_sorted::<T>(given, ascending);
    assert forall|key: Seq<char>| #[trigger]
        with_key::<T>(sorted, key) == with_key::<T>(ordered::<T>(given, ascending), key) by {
        assert(with_key::<T>(sorted, key) == with_key::<T>(given, key));
        assert(with_key::<T>(ordered::<T>(given, ascending), key) == with_key::<T>(given, key));
    }
    lemma_order_is_unique::<T>(sorted, ordered::<T>(given, ascending), ascending);
}

/// Ordering keeps items apart: where no two items of a sequence agree in
/// what `f` takes from them, no two items of the ordered sequence do.
pub proof fn lemma_ordered_keeps_distinct<T: Keyed, X>(
    s: Seq<T::V>,
    ascending: bool,
    f: spec_fn(T::V) -> X,
)
    requires
        forall|i: int, j: int| 0 <= i < j < s.len() ==> f(s[i]) != f(s[j]),
    ensures
        forall|i: int, j: int|
            0 <= i < j < ordered::<T>(s, ascending).len() ==> f(ordered::<T>(s, ascending)[i])
                != f(ordered::<T>(s, ascending)[j]),
{
    let sorted = ordered::<T>(s, ascending);
    lemma_ordered_is_sorted::<T>(s, ascending);
    assert(s.no_duplicates()) by {
        assert forall|i: int, j: int| 0 <= i < s.len() && 0 <= j < s.len() && i != j implies s[i]
            != s[j] by {
            if i < j {
                assert(f(s[i]) != f(s[j]));
            } else {
                assert(f(s[j]) != f(s[i]));
            }
        }
    }
    s.lemma_multiset_has_no_duplicates();
    sorted.lemma_multiset_has_no_duplicates_conv();
    assert forall|i: int, j: int| 0 <= i < j < sorted.len() implies f(sorted[i]) != f(
        sorted[j],
    ) by {
        assert(sorted[i] != sorted[j]);
        assert(sorted.contains(sorted[i]));
        assert(sorted.contains(sorted[j]));
        to_multiset_contains(sorted, sorted[i]);
        to_multiset_contains(sorted, sorted[j]);
        to_multiset_contains(s, sorted[i]);
        to_multiset_contains(s, sorted[j]);
        let a = choose|a: int| 0 <= a < s.len() && s[a] == sorted[i];
        let b = choose|b: int| 0 <= b < s.len() && s[b] == sorted[j];
        if a < b {
            assert(f(s[a]) != f(s[b]));
        } else {
            assert(f(s[b]) != f(s[a]));
        }
    }
}

/// Ordering keeps what holds of every item: the ordered sequence holds no
/// item that the given one does not hold.
pub proof fn lemma_ordered_keeps_all<T: Keyed>(
    s: Seq<T::V>,
    ascending: bool,
    p: spec_fn(T::V) -> bool,
)
    requires
        forall|i: int| 0 <= i < s.len() ==> p(s[i]),
    ensures
        forall|i: int| 0 <= i < ordered::<T>(s, ascending).len() ==> p(ordered::<T>(s, ascending)[i]),
{
    let sorted = ordered::<T>(s, ascending);
    lemma_ordered_is_sorted::<T>(s, ascending);
    assert forall|i: int| 0 <= i < sorted.len() implies p(sorted[i]) by {
        assert(sorted.contains(sorted[i]));
        to_multiset_contains(sorted, sorted[i]);
        to_multiset_contains(s, sorted[i]);
        let a = choose|a: int| 0 <= a < s.len() && s[a] == sorted[i];
        assert(p(s[a]));
    }
}

/// Where `item` goes in `sorted`.
fn insertion_point<T: Keyed>(sorted: &Vec<T>, item: &T, ascending: bool) -> (p: usize)
    ensures
        p == place_of::<T>(views(sorted@), item@, ascending),
        p <= sorted.len(),
{
    let mut p: usize = 0;
    while p < sorted.len()
        invariant
            p <= sorted.len(),
            forall|i: int|
                0 <= i < p ==> precedes(
                    T::key_of(views(sorted@)[i]),
                    T::key_of(item@),
                    ascending,
                ),
        decreases sorted.len() - p,
    {
        let before = if ascending {
            str_lt(sorted[p].key_str(), item.key_str())
        } else {
            str_lt(item.key_str(), sorted[p].key_str())
        };
        assert(views(sorted@)[p as int] == sorted[p as int]@);
        if !before {
            proof {
                lemma_place_is::<T>(views(sorted@), item@, ascending, p as int);
            }
            return p;
        }
        p = p + 1;
    }
    proof {
        lemma_place_is::<T>(views(sorted@), item@, ascending, p as int);
    }
    p
}

/// Orders `items` by their keys, ascending or descending; items of equal key
/// stay in the order in which they were given.
pub fn sort_by_key<T: Keyed>(items: Vec<T>, ascending: bool) -> (sorted: Vec<T>)
    ensures
        views(sorted@) == ordered::<T>(views(items@), ascending),
        is_sorted_of::<T>(views(sorted@), views(items@), ascending),
{
    let ghost given = views(items@);
    let mut items = items;
    let mut sorted: Vec<T> = Vec::new();
    proof {
        assert(given.skip(given.len() as int) =~= Seq::<T::V>::empty());
        assert(views(sorted@) =~= Seq::<T::V>::empty());
    }
    while items.len() > 0
        invariant
            views(items@) == given.take(items.len() as int),
            items.len() <= given.len(),
            views(sorted@) == ordered::<T>(given.skip(items.len() as int), ascending),
        decreases items.len(),
    {
        let ghost n = items.len() as int;
        let ghost before = items@;
        let ghost placed = sorted@;
        let item = items.pop().unwrap();
        let p = insertion_point(&sorted, &item, ascending);
        proof {
            assert(item@ == views(before)[n - 1]);
            assert(item@ == given[n - 1]);
            assert(given.skip(n - 1).drop_first() =~= given.skip(n));
            assert(given.skip(n - 1)[0] == item@);
            assert(views(items@) =~= given.take(n - 1));
        }
        sorted.insert(p, item);
        assert(views(sorted@) =~= views(placed).insert(p as int, item@));
    }
    proof {
        assert(given.skip(0) =~= given);
        lemma_ordered_is_sorted::<T>(given, ascending);
    }
    sorted
}

/// Orders `items` by recency: newest first, and items of equal timestamp in
/// the order in which they were given.
pub fn sort_by_recency<T: Keyed>(items: Vec<T>) -> (sorted: Vec<T>)
    ensures
        views(sorted@) == by_recency::<T>(views(items@)),
        is_by_recency::<T>(views(sorted@), views(items@)),
{
    sort_by_key(items, false)
}

} // verus!
