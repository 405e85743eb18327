//! References to columns, and the insertion-ordered set and map of column
//! references that expressions report and that verification reads from.
use vstd::prelude::*;
use crate::column::ColumnType;
use crate::scalar::Scalar;

verus! {

/// A reference to a column: the table it belongs to, its name, and its type.
#[derive(Clone, Debug, PartialEq, Eq)]
pub struct ColumnRef {
    table_ref: String,
    column_id: String,
    column_type: ColumnType,
}

impl View for ColumnRef {
    type V = (Seq<char>, Seq<char>, ColumnType);

    open spec fn view(&self) -> (Seq<char>, Seq<char>, ColumnType) {
        (self.spec_table_ref(), self.spec_column_id(), self.spec_column_type())
    }
}

impl ColumnRef {
    pub closed spec fn spec_table_ref(&self) -> Seq<char> {
        self.table_ref@
    }

    pub closed spec fn spec_column_id(&self) -> Seq<char> {
        self.column_id@
    }

    pub closed spec fn spec_column_type(&self) -> ColumnType {
        self.column_type
    }

    /// A reference to column `column_id` of table `table_ref`.
    pub fn new(table_ref: String, column_id: String, column_type: ColumnType) -> (r: ColumnRef)
        ensures
            r@ == (table_ref@, column_id@, column_type),
    {
        ColumnRef { table_ref, column_id, column_type }
    }

    /// The table the column belongs to.
    pub fn table_ref(&self) -> (r: &String)
        ensures
            r@ == self@.0,
    {
        &self.table_ref
    }

    /// The column's name.
    pub fn column_id(&self) -> (r: &String)
        ensures
            r@ == self@.1,
    {
        &self.column_id
    }

    /// The column's type.
    pub fn column_type(&self) -> (r: ColumnType)
        ensures
            r == self@.2,
    {
        self.column_type
    }

    /// A reference equal to this one.
    pub fn duplicate(&self) -> (r: ColumnRef)
        ensures
            r@ == self@,
    {
        ColumnRef {
            table_ref: self.table_ref.clone(),
            column_id: self.column_id.clone(),
            column_type: self.column_type,
        }
    }

    /// Whether two references name the same column.
    pub fn same_as(&self, other: &ColumnRef) -> (r: bool)
        ensures
            r == (self@ == other@),
    {
        self.table_ref == other.table_ref && self.column_id == other.column_id
            && self.column_type == other.column_type
    }
}

/// A set that keeps its elements in the order they were first inserted.
#[derive(Clone, Debug)]
pub struct IndexSet<T> {
    items: Vec<T>,
}

/// The sequence `s` with `x` appended, unless `s` already holds `x`.
pub open spec fn seq_insert<A>(s: Seq<A>, x: A) -> Seq<A> {
    if s.contains(x) {
        s
    } else {
        s.push(x)
    }
}

/// The sequence `s` after inserting each element of `xs` in turn.
pub open spec fn seq_insert_all<A>(s: Seq<A>, xs: Seq<A>) -> Seq<A>
    decreases xs.len(),
{
    if xs.len() == 0 {
        s
    } else {
        seq_insert_all(seq_insert(s, xs[0]), xs.drop_first())
    }
}

/// Inserting the elements of `a + b` is inserting those of `a`, then those of
/// `b`.
pub proof fn lemma_seq_insert_all_append<A>(s: Seq<A>, a: Seq<A>, b: Seq<A>)
    ensures
        seq_insert_all(s, a + b) == seq_insert_all(seq_insert_all(s, a), b),
    decreases a.len(),
{
    if a.len() == 0 {
        assert(a + b =~= b);
    } else {
        assert((a + b).drop_first() =~= a.drop_first() + b);
        assert((a + b)[0] == a[0]);
        lemma_seq_insert_all_append(seq_insert(s, a[0]), a.drop_first(), b);
    }
}

/// Inserting the elements of `xs` in turn into `s` keeps `s` as a prefix,
/// gives exactly the elements of `s` and of `xs`, and adds no repeat.
pub proof fn lemma_seq_insert_all_members<A>(s: Seq<A>, xs: Seq<A>)
    ensures
        seq_insert_all(s, xs).len() >= s.len(),
        seq_insert_all(s, xs).subrange(0, s.len() as int) == s,
        forall|x: A| #[trigger] seq_insert_all(s, xs).contains(x) <==> (s.contains(x) || xs.contains(x)),
        s.no_duplicates() ==> seq_insert_all(s, xs).no_duplicates(),
    decreases xs.len(),
{
    if xs.len() == 0 {
        assert(s.subrange(0, s.len() as int) =~= s);
    } else {
        let s1 = seq_insert(s, xs[0]);
        lemma_seq_insert_all_members(s1, xs.drop_first());
        let r = seq_insert_all(s, xs);
        assert(r == seq_insert_all(s1, xs.drop_first()));
        assert(s1.subrange(0, s.len() as int) =~= s);
        assert(r.subrange(0, s.len() as int) =~= s1.subrange(0, s.len() as int)) by {
            assert(r.subrange(0, s1.len() as int) == s1);
            assert forall|j: int| 0 <= j < s.len() implies r.subrange(0, s.len() as int)[j] == s1.subrange(0, s.len() as int)[j] by {
                assert(r.subrange(0, s1.len() as int)[j] == r[j]);
            }
        }
        assert forall|x: A| #[trigger] r.contains(x) <==> (s.contains(x) || xs.contains(x)) by {
            if xs.drop_first().contains(x) {
                let k = choose|k: int| 0 <= k < xs.drop_first().len() && xs.drop_first()[k] == x;
                assert(xs[k + 1] == x);
            }
            if xs.contains(x) && x != xs[0] {
                let k = choose|k: int| 0 <= k < xs.len() && xs[k] == x;
                assert(xs.drop_first()[k - 1] == x);
            }
            if s1.contains(x) && !s.contains(x) {
                let k = choose|k: int| 0 <= k < s1.len() && s1[k] == x;
                assert(x == xs[0]);
                assert(xs[0] == x);
            }
            if x == xs[0] {
                if !s.contains(x) {
                    assert(s1[s.len() as int] == x);
                }
            }
            if s.contains(x) {
                let k = choose|k: int| 0 <= k < s.len() && s[k] == x;
                assert(s1[k] == x);
            }
        }
        if s.no_duplicates() {
            if !s.contains(xs[0]) {
                assert(s1.no_duplicates()) by {
                    assert forall|i: int, j: int| 0 <= i < s1.len() && 0 <= j < s1.len() && i != j implies s1[i] != s1[j] by {
                        if i == s.len() as int {
                            assert(!s.contains(s1[i]));
                        } else if j == s.len() as int {
                            assert(!s.contains(s1[j]));
                            assert(s.contains(s1[i]));
                        }
                    }
                }
            }
        }
    }
}

impl View for IndexSet<ColumnRef> {
    type V = Seq<(Seq<char>, Seq<char>, ColumnType)>;

    closed spec fn view(&self) -> Seq<(Seq<char>, Seq<char>, ColumnType)> {
        self.items@.map_values(|c: ColumnRef| c@)
    }
}

impl IndexSet<ColumnRef> {
    /// The empty set.
    pub fn new() -> (r: IndexSet<ColumnRef>)
        ensures
            r@ == Seq::<(Seq<char>, Seq<char>, ColumnType)>::empty(),
    {
        let r = IndexSet { items: Vec::new() };
        assert(r@ =~= Seq::<(Seq<char>, Seq<char>, ColumnType)>::empty());
        r
    }

    /// The number of elements.
    pub fn len(&self) -> (r: usize)
        ensures
            r == self@.len(),
    {
        self.items.len()
    }

    /// The element at position `i` in insertion order.
    pub fn get_index(&self, i: usize) -> (r: &ColumnRef)
        requires
            i < self@.len(),
        ensures
            r@ == self@[i as int],
    {
        &self.items[i]
    }

    /// Whether the set holds a reference to the same column as `value`.
    pub fn contains(&self, value: &ColumnRef) -> (r: bool)
        ensures
            r == self@.contains(value@),
    {
        let n = self.items.len();
        for i in 0..n
            invariant
                n == self.items@.len(),
                forall|j: int| 0 <= j < i ==> self.items@[j]@ != value@,
        {
            if self.items[i].same_as(value) {
                assert(self@[i as int] == value@);
                return true;
            }
        }
        assert forall|j: int| 0 <= j < self@.len() implies self@[j] != value@ by {
            assert(self@[j] == self.items@[j]@);
        }
        false
    }

    /// Inserts `value` unless the set already holds it; says whether it was
    /// inserted.
    pub fn insert(&mut self, value: ColumnRef) -> (r: bool)
        ensures
            r == !old(self)@.contains(value@),
            final(self)@ == seq_insert(old(self)@, value@),
    {
        if self.contains(&value) {
            false
        } else {
            let ghost v = value@;
            self.items.push(value);
            assert(self@ =~= old(self)@.push(v));
            true
        }
    }
}

/// No two pairs have the same key.
pub open spec fn keys_distinct<K, V>(pairs: Seq<(K, V)>) -> bool {
    forall|i: int, j: int|
        0 <= i < pairs.len() && 0 <= j < pairs.len() && i != j ==> #[trigger] pairs[i].0
            != #[trigger] pairs[j].0
}

/// The map from each key of `pairs` to the value paired with it.
pub open spec fn map_of<K, V>(pairs: Seq<(K, V)>) -> Map<K, V> {
    Map::new(
        |k: K| exists|i: int| 0 <= i < pairs.len() && #[trigger] pairs[i].0 == k,
        |k: K| pairs[choose|i: int| 0 <= i < pairs.len() && #[trigger] pairs[i].0 == k].1,
    )
}

/// With distinct keys, the map holds each pair.
proof fn lemma_map_of_index<K, V>(pairs: Seq<(K, V)>, i: int)
    requires
        keys_distinct(pairs),
        0 <= i < pairs.len(),
    ensures
        map_of(pairs).contains_key(pairs[i].0),
        map_of(pairs)[pairs[i].0] == pairs[i].1,
{
    let k = pairs[i].0;
    assert(map_of(pairs).dom().contains(k));
    let j = choose|j: int| 0 <= j < pairs.len() && #[trigger] pairs[j].0 == k;
    assert(j == i);
}

/// Replacing the pair of key `k` stores the new value under `k`.
proof fn lemma_map_of_update<K, V>(pairs: Seq<(K, V)>, i: int, v: V)
    requires
        keys_distinct(pairs),
        0 <= i < pairs.len(),
    ensures
        keys_distinct(pairs.update(i, (pairs[i].0, v))),
        map_of(pairs.update(i, (pairs[i].0, v))) == map_of(pairs).insert(pairs[i].0, v),
{
    let k = pairs[i].0;
    let p2 = pairs.update(i, (k, v));
    assert forall|a: int, b: int| 0 <= a < p2.len() && 0 <= b < p2.len() && a != b implies #[trigger] p2[a].0 != #[trigger] p2[b].0 by {
        assert(p2[a].0 == pairs[a].0);
        assert(p2[b].0 == pairs[b].0);
    }
    let m2 = map_of(p2);
    let m1 = map_of(pairs).insert(k, v);
    assert forall|kk: K| #[trigger] m2.contains_key(kk) <==> m1.contains_key(kk) by {
        if m2.contains_key(kk) {
            let j = choose|j: int| 0 <= j < p2.len() && #[trigger] p2[j].0 == kk;
            assert(pairs[j].0 == kk);
        }
        if m1.contains_key(kk) && kk != k {
            let j = choose|j: int| 0 <= j < pairs.len() && #[trigger] pairs[j].0 == kk;
            assert(p2[j].0 == kk);
        }
        if kk == k {
            assert(p2[i].0 == kk);
        }
    }
    assert forall|kk: K| #[trigger] m2.contains_key(kk) implies m2[kk] == m1[kk] by {
        let j = choose|j: int| 0 <= j < p2.len() && #[trigger] p2[j].0 == kk;
        lemma_map_of_index(p2, j);
        if j != i {
            lemma_map_of_index(pairs, j);
        }
    }
    assert(m2 =~= m1);
}

/// Appending a pair with a new key stores its value under the key.
proof fn lemma_map_of_push<K, V>(pairs: Seq<(K, V)>, k: K, v: V)
    requires
        keys_distinct(pairs),
        forall|i: int| 0 <= i < pairs.len() ==> #[trigger] pairs[i].0 != k,
    ensures
        keys_distinct(pairs.push((k, v))),
        map_of(pairs.push((k, v))) == map_of(pairs).insert(k, v),
{
    let p2 = pairs.push((k, v));
    let n = pairs.len() as int;
    assert forall|a: int, b: int| 0 <= a < p2.len() && 0 <= b < p2.len() && a != b implies #[trigger] p2[a].0 != #[trigger] p2[b].0 by {
        if a < n && b < n {
            assert(p2[a].0 == pairs[a].0);
            assert(p2[b].0 == pairs[b].0);
        } else if a < n {
            assert(p2[a].0 == pairs[a].0);
        } else {
            assert(p2[b].0 == pairs[b].0);
        }
    }
    let m2 = map_of(p2);
    let m1 = map_of(pairs).insert(k, v);
    assert forall|kk: K| #[trigger] m2.contains_key(kk) <==> m1.contains_key(kk) by {
        if m2.contains_key(kk) && kk != k {
            let j = choose|j: int| 0 <= j < p2.len() && #[trigger] p2[j].0 == kk;
            assert(j < n);
            assert(pairs[j].0 == kk);
        }
        if m1.contains_key(kk) && kk != k {
            let j = choose|j: int| 0 <= j < pairs.len() && #[trigger] pairs[j].0 == kk;
            assert(p2[j].0 == kk);
        }
        if kk == k {
            assert(p2[n].0 == kk);
        }
    }
    assert forall|kk: K| #[trigger] m2.contains_key(kk) implies m2[kk] == m1[kk] by {
        let j = choose|j: int| 0 <= j < p2.len() && #[trigger] p2[j].0 == kk;
        lemma_map_of_index(p2, j);
        if j < n {
            assert(p2[j] == pairs[j]);
            lemma_map_of_index(pairs, j);
        }
    }
    assert(m2 =~= m1);
}

/// A map from column references to scalars that keeps its keys in insertion
/// order.
pub struct IndexMap<K, V> {
    entries: Vec<(K, V)>,
}

/// The pairs of a map's entries, each key and value by its view.
pub open spec fn entries_view(entries: Seq<(ColumnRef, Scalar)>) -> Seq<((Seq<char>, Seq<char>, ColumnType), nat)> {
    entries.map_values(|e: (ColumnRef, Scalar)| (e.0@, e.1@))
}

impl View for IndexMap<ColumnRef, Scalar> {
    type V = Map<(Seq<char>, Seq<char>, ColumnType), nat>;

    closed spec fn view(&self) -> Map<(Seq<char>, Seq<char>, ColumnType), nat> {
        map_of(entries_view(self.entries@))
    }
}

impl IndexMap<ColumnRef, Scalar> {
    /// The map holds distinct keys.
    pub closed spec fn well_formed(&self) -> bool {
        keys_distinct(entries_view(self.entries@))
    }

    /// The empty map.
    pub fn new() -> (r: IndexMap<ColumnRef, Scalar>)
        ensures
            r.well_formed(),
            r@ == Map::<(Seq<char>, Seq<char>, ColumnType), nat>::empty(),
    {
        let r = IndexMap { entries: Vec::new() };
        assert(r@ =~= Map::<(Seq<char>, Seq<char>, ColumnType), nat>::empty());
        r
    }

    /// The position of the entry with key `key`, if any.
    fn position(&self, key: &ColumnRef) -> (r: Option<usize>)
        ensures
            match r {
                Some(i) => i < self.entries@.len() && entries_view(self.entries@)[i as int].0 == key@,
                None => forall|i: int|
                    0 <= i < self.entries@.len() ==> #[trigger] entries_view(self.entries@)[i].0 != key@,
            },
    {
        let n = self.entries.len();
        for i in 0..n
            invariant
                n == self.entries@.len(),
                forall|j: int| 0 <= j < i ==> #[trigger] entries_view(self.entries@)[j].0 != key@,
        {
            if self.entries[i].0.same_as(key) {
                return Some(i);
            }
        }
        None
    }

    /// The scalar stored under `key`, if any.
    pub fn get(&self, key: &ColumnRef) -> (r: Option<Scalar>)
        requires
            self.well_formed(),
        ensures
            match r {
                Some(v) => self@.contains_key(key@) && self@[key@] == v@,
                None => !self@.contains_key(key@),
            },
    {
        match self.position(key) {
            Some(i) => {
                proof {
                    lemma_map_of_index(entries_view(self.entries@), i as int);
                }
                Some(self.entries[i].1)
            },
            None => None,
        }
    }

    /// Stores `value` under `key`, replacing what was stored there.
    pub fn insert(&mut self, key: ColumnRef, value: Scalar)
        requires
            old(self).well_formed(),
        ensures
            final(self).well_formed(),
            final(self)@ == old(self)@.insert(key@, value@),
    {
        let ghost k = key@;
        let ghost before = entries_view(self.entries@);
        match self.position(&key) {
            Some(i) => {
                self.entries.set(i, (key, value));
                proof {
                    lemma_map_of_update(before, i as int, value@);
                    assert(entries_view(self.entries@) =~= before.update(i as int, (k, value@)));
                }
            },
            None => {
                self.entries.push((key, value));
                proof {
                    lemma_map_of_push(before, k, value@);
                    assert(entries_view(self.entries@) =~= before.push((k, value@)));
                }
            },
        }
    }
}

} // verus!
