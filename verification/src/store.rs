//! The columns of the database, held in memory.
//!
//! A column maps keys to values and is walked in key order. It remembers which keys
//! have changed since they were last handed out, so that whoever owns the disk can
//! write exactly those rows.

use crate::order::{
    lemma_str_irreflexive, lemma_str_transitive, rank_str, same_str, str_before, Rank,
};
use vstd::prelude::*;

verus! {

/// A row's key: up to three strings and two counters. The parts that a column does not
/// use are empty.
pub struct Key {
    pub first: String,
    pub second: String,
    pub third: String,
    pub count: u64,
    pub minor: u64,
}

/// The mathematical value of a [`Key`].
pub struct KeyView {
    pub first: Seq<char>,
    pub second: Seq<char>,
    pub third: Seq<char>,
    pub count: u64,
    pub minor: u64,
}

impl View for Key {
    type V = KeyView;

    open spec fn view(&self) -> KeyView {
        KeyView {
            first: self.first@,
            second: self.second@,
            third: self.third@,
            count: self.count,
            minor: self.minor,
        }
    }
}

/// The key made of three strings and a counter.
pub open spec fn full_key(
    first: Seq<char>,
    second: Seq<char>,
    third: Seq<char>,
    count: u64,
) -> KeyView {
    KeyView { first, second, third, count, minor: 0 }
}

/// The key made of one string.
pub open spec fn key1(first: Seq<char>) -> KeyView {
    full_key(first, Seq::empty(), Seq::empty(), 0)
}

/// The key made of two strings.
pub open spec fn key2(first: Seq<char>, second: Seq<char>) -> KeyView {
    full_key(first, second, Seq::empty(), 0)
}

/// The key made of three strings.
pub open spec fn key3(first: Seq<char>, second: Seq<char>, third: Seq<char>) -> KeyView {
    full_key(first, second, third, 0)
}

/// The key made of one string and a counter.
pub open spec fn counted_key1(first: Seq<char>, count: u64) -> KeyView {
    full_key(first, Seq::empty(), Seq::empty(), count)
}

/// The key made of two strings and a counter.
pub open spec fn counted_key2(first: Seq<char>, second: Seq<char>, count: u64) -> KeyView {
    full_key(first, second, Seq::empty(), count)
}

/// The key made of two counters.
pub open spec fn counter_key(count: u64, minor: u64) -> KeyView {
    KeyView { first: Seq::empty(), second: Seq::empty(), third: Seq::empty(), count, minor }
}

/// The order in which rows are kept: by the strings, one after the other, then by the
/// counters.
pub open spec fn key_before(a: KeyView, b: KeyView) -> bool {
    ||| str_before(a.first, b.first)
    ||| a.first == b.first && str_before(a.second, b.second)
    ||| a.first == b.first && a.second == b.second && str_before(a.third, b.third)
    ||| a.first == b.first && a.second == b.second && a.third == b.third && (a.count < b.count
        || a.count == b.count && a.minor < b.minor)
}

/// The order of keys is irreflexive.
pub proof fn lemma_key_irreflexive(a: KeyView)
    ensures
        !key_before(a, a),
{
    lemma_str_irreflexive(a.first);
    lemma_str_irreflexive(a.second);
    lemma_str_irreflexive(a.third);
}

/// The order of keys is transitive.
pub proof fn lemma_key_transitive(a: KeyView, b: KeyView, c: KeyView)
    requires
        key_before(a, b),
        key_before(b, c),
    ensures
        key_before(a, c),
{
    if str_before(a.first, b.first) && str_before(b.first, c.first) {
        lemma_str_transitive(a.first, b.first, c.first);
    }
    if str_before(a.second, b.second) && str_before(b.second, c.second) {
        lemma_str_transitive(a.second, b.second, c.second);
    }
    if str_before(a.third, b.third) && str_before(b.third, c.third) {
        lemma_str_transitive(a.third, b.third, c.third);
    }
}

impl Key {
    pub fn new(first: &str, second: &str, third: &str, count: u64) -> (r: Key)
        ensures
            r@ == full_key(first@, second@, third@, count),
    {
        Key {
            first: first.to_owned(),
            second: second.to_owned(),
            third: third.to_owned(),
            count,
            minor: 0,
        }
    }

    pub fn of(first: &str) -> (r: Key)
        ensures
            r@ == key1(first@),
    {
        Key { first: first.to_owned(), second: String::new(), third: String::new(), count: 0, minor: 0 }
    }

    pub fn pair(first: &str, second: &str) -> (r: Key)
        ensures
            r@ == key2(first@, second@),
    {
        Key { first: first.to_owned(), second: second.to_owned(), third: String::new(), count: 0, minor: 0 }
    }

    pub fn triple(first: &str, second: &str, third: &str) -> (r: Key)
        ensures
            r@ == key3(first@, second@, third@),
    {
        Key::new(first, second, third, 0)
    }

    pub fn counted(first: &str, count: u64) -> (r: Key)
        ensures
            r@ == counted_key1(first@, count),
    {
        Key { first: first.to_owned(), second: String::new(), third: String::new(), count, minor: 0 }
    }

    pub fn counted_pair(first: &str, second: &str, count: u64) -> (r: Key)
        ensures
            r@ == counted_key2(first@, second@, count),
    {
        Key { first: first.to_owned(), second: second.to_owned(), third: String::new(), count, minor: 0 }
    }

    pub fn counters(count: u64, minor: u64) -> (r: Key)
        ensures
            r@ == counter_key(count, minor),
    {
        Key { first: String::new(), second: String::new(), third: String::new(), count, minor }
    }

    pub fn duplicate(&self) -> (r: Key)
        ensures
            r@ == self@,
    {
        Key {
            first: self.first.clone(),
            second: self.second.clone(),
            third: self.third.clone(),
            count: self.count,
            minor: self.minor,
        }
    }

    /// Compares two keys in the order of the rows.
    pub fn rank(&self, other: &Key) -> (r: Rank)
        ensures
            r is Before <==> key_before(self@, other@),
            r is Same <==> self@ == other@,
            r is After <==> key_before(other@, self@),
    {
        proof {
            lemma_key_irreflexive(self@);
            if key_before(self@, other@) && key_before(other@, self@) {
                lemma_key_transitive(self@, other@, self@);
            }
        }
        match rank_str(&self.first, &other.first) {
            Rank::Before => Rank::Before,
            Rank::After => Rank::After,
            Rank::Same => match rank_str(&self.second, &other.second) {
                Rank::Before => Rank::Before,
                Rank::After => Rank::After,
                Rank::Same => match rank_str(&self.third, &other.third) {
                    Rank::Before => Rank::Before,
                    Rank::After => Rank::After,
                    Rank::Same => {
                        if self.count < other.count {
                            Rank::Before
                        } else if other.count < self.count {
                            Rank::After
                        } else if self.minor < other.minor {
                            Rank::Before
                        } else if other.minor < self.minor {
                            Rank::After
                        } else {
                            Rank::Same
                        }
                    },
                },
            },
        }
    }
}

/// One row of a column.
pub struct Row<V> {
    pub key: Key,
    pub value: V,
}

spec fn sorted<V>(rows: Seq<Row<V>>) -> bool {
    forall|i: int, j: int|
        0 <= i < j < rows.len() ==> key_before(#[trigger] rows[i].key@, #[trigger] rows[j].key@)
}

spec fn holds<V>(rows: Seq<Row<V>>, key: KeyView) -> bool {
    exists|i: int| 0 <= i < rows.len() && #[trigger] rows[i].key@ == key
}

spec fn position<V>(rows: Seq<Row<V>>, key: KeyView) -> int {
    choose|i: int| 0 <= i < rows.len() && #[trigger] rows[i].key@ == key
}

spec fn contents<V: View>(rows: Seq<Row<V>>) -> Map<KeyView, V::V> {
    Map::new(|k: KeyView| holds(rows, k), |k: KeyView| rows[position(rows, k)].value@)
}

/// The keys whose rows differ between two states of a column are all among `keys`.
pub open spec fn differ_only_at<W>(
    a: Map<KeyView, W>,
    b: Map<KeyView, W>,
    keys: Seq<KeyView>,
) -> bool {
    forall|k: KeyView| !(#[trigger] keys.contains(k)) ==> a.contains_key(k) == b.contains_key(k)
        && (a.contains_key(k) ==> a[k] == b[k])
}

/// `keys` lists exactly the keys that are `wanted`, in key order.
pub open spec fn lists(keys: Seq<KeyView>, wanted: spec_fn(KeyView) -> bool) -> bool {
    &&& forall|i: int, j: int|
        0 <= i < j < keys.len() ==> key_before(#[trigger] keys[i], #[trigger] keys[j])
    &&& forall|k: KeyView| wanted(k) <==> #[trigger] keys.contains(k)
}

pub proof fn lemma_push_contains<A>(before: Seq<A>, last: A, c: A)
    ensures
        before.push(last).contains(c) <==> before.contains(c) || last == c,
{
    let more = before.push(last);
    assert(more[before.len() as int] == last);
    if before.contains(c) {
        let i = choose|i: int| 0 <= i < before.len() && before[i] == c;
        assert(more[i] == c);
    }
}

/// The keys of `keys`, as values.
pub open spec fn key_views(keys: Seq<Key>) -> Seq<KeyView> {
    keys.map_values(|k: Key| k@)
}

/// Whether a key has the given leading strings.
pub open spec fn under(first: Option<&str>, second: Option<&str>, key: KeyView) -> bool {
    &&& first matches Some(f) ==> key.first == f@
    &&& second matches Some(s) ==> key.second == s@
}

/// The rows whose keys do not have the given leading strings.
pub open spec fn without_under<W>(
    rows: Map<KeyView, W>,
    first: Option<&str>,
    second: Option<&str>,
) -> Map<KeyView, W> {
    Map::new(
        |k: KeyView| rows.contains_key(k) && !under(first, second, k),
        |k: KeyView| rows[k],
    )
}

/// The rows without those of the first `n` keys.
spec fn without_keys<W>(rows: Map<KeyView, W>, keys: Seq<KeyView>, n: int) -> Map<KeyView, W>
    decreases n,
{
    if n <= 0 {
        rows
    } else {
        without_keys(rows, keys, n - 1).remove(keys[n - 1])
    }
}

proof fn lemma_without_keys<W>(rows: Map<KeyView, W>, keys: Seq<KeyView>, n: int, k: KeyView)
    requires
        0 <= n <= keys.len(),
    ensures
        without_keys(rows, keys, n).contains_key(k) <==> rows.contains_key(k) && !keys.take(
            n,
        ).contains(k),
        without_keys(rows, keys, n).contains_key(k) ==> without_keys(rows, keys, n)[k] == rows[k],
    decreases n,
{
    if n > 0 {
        lemma_without_keys(rows, keys, n - 1, k);
        let all = keys.take(n);
        let fewer = keys.take(n - 1);
        assert(all[n - 1] == keys[n - 1]);
        if all.contains(k) && k != keys[n - 1] {
            let i = choose|i: int| 0 <= i < all.len() && all[i] == k;
            assert(fewer[i] == k);
        }
        if fewer.contains(k) {
            let i = choose|i: int| 0 <= i < fewer.len() && fewer[i] == k;
            assert(all[i] == k);
        }
    }
}

/// A column of the database.
pub struct Column<V: View> {
    rows: Vec<Row<V>>,
    touched: Vec<Key>,
    saved: Ghost<Map<KeyView, V::V>>,
}

impl<V: View> View for Column<V> {
    type V = Map<KeyView, V::V>;

    closed spec fn view(&self) -> Map<KeyView, V::V> {
        contents(self.rows@)
    }
}

proof fn lemma_position<V>(rows: Seq<Row<V>>, i: int)
    requires
        sorted(rows),
        0 <= i < rows.len(),
    ensures
        holds(rows, rows[i].key@),
        position(rows, rows[i].key@) == i,
{
    let k = rows[i].key@;
    assert(holds(rows, k));
    let p = position(rows, k);
    assert(0 <= p < rows.len() && rows[p].key@ == k);
    lemma_key_irreflexive(k);
}

proof fn lemma_contents_insert<V: View>(
    before: Seq<Row<V>>,
    after: Seq<Row<V>>,
    at: int,
    row: Row<V>,
)
    requires
        sorted(before),
        0 <= at <= before.len(),
        after == before.insert(at, row),
        forall|i: int| 0 <= i < at ==> key_before(#[trigger] before[i].key@, row.key@),
        forall|i: int| at <= i < before.len() ==> key_before(row.key@, #[trigger] before[i].key@),
    ensures
        sorted(after),
        contents(after) =~= contents(before).insert(row.key@, row.value@),
{
    assert forall|i: int, j: int| 0 <= i < j < after.len() implies key_before(
        #[trigger] after[i].key@,
        #[trigger] after[j].key@,
    ) by {
        if i < at {
            assert(after[i] == before[i]);
        } else if i > at {
            assert(after[i] == before[i - 1]);
        }
        if j < at {
            assert(after[j] == before[j]);
        } else if j > at {
            assert(after[j] == before[j - 1]);
        }
    }
    assert(after[at] == row);
    lemma_position(after, at);
    assert forall|k: KeyView| k != row.key@ implies holds(after, k) == holds(before, k) && (holds(
        before,
        k,
    ) ==> after[position(after, k)].value == before[position(before, k)].value) by {
        if holds(before, k) {
            let p = position(before, k);
            let q = if p < at {
                p
            } else {
                p + 1
            };
            assert(after[q] == before[p]);
            lemma_position(after, q);
        }
        if holds(after, k) {
            let q = position(after, k);
            assert(q != at);
            let p = if q < at {
                q
            } else {
                q - 1
            };
            assert(before[p] == after[q]);
            assert(before[p].key@ == k);
        }
    }
}

proof fn lemma_contents_update<V: View>(
    before: Seq<Row<V>>,
    after: Seq<Row<V>>,
    at: int,
    row: Row<V>,
)
    requires
        sorted(before),
        0 <= at < before.len(),
        before[at].key@ == row.key@,
        after == before.update(at, row),
    ensures
        sorted(after),
        contents(after) =~= contents(before).insert(row.key@, row.value@),
{
    assert forall|i: int| 0 <= i < before.len() implies #[trigger] after[i].key@
        == before[i].key@ by {}
    assert(sorted(after)) by {
        assert forall|i: int, j: int| 0 <= i < j < after.len() implies key_before(
            #[trigger] after[i].key@,
            #[trigger] after[j].key@,
        ) by {
            assert(key_before(before[i].key@, before[j].key@));
        }
    }
    lemma_position(after, at);
    assert forall|k: KeyView| k != row.key@ implies holds(after, k) == holds(before, k) && (holds(
        before,
        k,
    ) ==> after[position(after, k)].value == before[position(before, k)].value) by {
        if holds(before, k) {
            let p = position(before, k);
            assert(after[p] == before[p]);
            lemma_position(after, p);
        }
        if holds(after, k) {
            let q = position(after, k);
            assert(before[q].key@ == k);
        }
    }
}

proof fn lemma_contents_remove<V: View>(before: Seq<Row<V>>, after: Seq<Row<V>>, at: int)
    requires
        sorted(before),
        0 <= at < before.len(),
        after == before.remove(at),
    ensures
        sorted(after),
        contents(after) =~= contents(before).remove(before[at].key@),
{
    let gone = before[at].key@;
    assert forall|i: int| 0 <= i < after.len() implies #[trigger] after[i] == before[if i < at {
        i
    } else {
        i + 1
    }] by {}
    assert forall|i: int, j: int| 0 <= i < j < after.len() implies key_before(
        #[trigger] after[i].key@,
        #[trigger] after[j].key@,
    ) by {
        let p = if i < at {
            i
        } else {
            i + 1
        };
        let q = if j < at {
            j
        } else {
            j + 1
        };
        assert(key_before(before[p].key@, before[q].key@));
    }
    lemma_position(before, at);
    assert forall|k: KeyView| k != gone implies holds(after, k) == holds(before, k) && (holds(
        before,
        k,
    ) ==> after[position(after, k)].value == before[position(before, k)].value) by {
        if holds(before, k) {
            let p = position(before, k);
            let q = if p < at {
                p
            } else {
                p - 1
            };
            assert(after[q] == before[p]);
            lemma_position(after, q);
        }
        if holds(after, k) {
            let q = position(after, k);
            let p = if q < at {
                q
            } else {
                q + 1
            };
            assert(before[p].key@ == k);
        }
    }
    assert(!holds(after, gone)) by {
        if holds(after, gone) {
            let q = position(after, gone);
            let p = if q < at {
                q
            } else {
                q + 1
            };
            lemma_position(before, p);
        }
    }
}

/// The keys that have been touched once one more has.
proof fn lemma_touched(before: Seq<Key>, after: Seq<Key>, note: Key)
    requires
        after == before.push(note),
    ensures
        key_views(after) == key_views(before).push(note@),
        forall|k: KeyView| !(#[trigger] key_views(after).contains(k)) ==> !key_views(
            before,
        ).contains(k) && k != note@,
{
    assert(key_views(after) =~= key_views(before).push(note@));
    assert forall|k: KeyView| !(#[trigger] key_views(after).contains(k)) implies !key_views(
        before,
    ).contains(k) && k != note@ by {
        if key_views(before).contains(k) {
            let p = choose|p: int| 0 <= p < before.len() && key_views(before)[p] == k;
            assert(key_views(after)[p] == k);
        }
        assert(key_views(after)[before.len() as int] == note@);
    }
}

/// What a listing keeps of the keys is listed in order too.
pub proof fn lemma_filter_lists(
    keys: Seq<KeyView>,
    all: spec_fn(KeyView) -> bool,
    wanted: spec_fn(KeyView) -> bool,
)
    requires
        lists(keys, all),
        forall|k: KeyView| #[trigger] wanted(k) ==> all(k),
    ensures
        lists(keys.filter(wanted), wanted),
{
    let kept = keys.filter(wanted);
    lemma_filter_ordered(keys, wanted);
    assert forall|k: KeyView| wanted(k) <==> #[trigger] kept.contains(k) by {
        if wanted(k) {
            assert(all(k));
            assert(keys.contains(k));
            let i = choose|i: int| 0 <= i < keys.len() && keys[i] == k;
            keys.lemma_filter_contains(wanted, i);
        }
        if kept.contains(k) {
            let i = choose|i: int| 0 <= i < kept.len() && kept[i] == k;
            keys.lemma_filter_pred(wanted, i);
        }
    }
}

proof fn lemma_filter_ordered(keys: Seq<KeyView>, wanted: spec_fn(KeyView) -> bool)
    requires
        forall|i: int, j: int|
            0 <= i < j < keys.len() ==> key_before(#[trigger] keys[i], #[trigger] keys[j]),
    ensures
        forall|i: int, j: int|
            0 <= i < j < keys.filter(wanted).len() ==> key_before(
                #[trigger] keys.filter(wanted)[i],
                #[trigger] keys.filter(wanted)[j],
            ),
    decreases keys.len(),
{
    reveal(Seq::filter);
    if keys.len() > 0 {
        let shorter = keys.drop_last();
        assert forall|i: int, j: int| 0 <= i < j < shorter.len() implies key_before(
            #[trigger] shorter[i],
            #[trigger] shorter[j],
        ) by {
            assert(key_before(keys[i], keys[j]));
        }
        lemma_filter_ordered(shorter, wanted);
        let kept = keys.filter(wanted);
        let before = shorter.filter(wanted);
        assert forall|i: int, j: int| 0 <= i < j < kept.len() implies key_before(
            #[trigger] kept[i],
            #[trigger] kept[j],
        ) by {
            if j == before.len() {
                assert(before.contains(before[i]));
                shorter.lemma_filter_contains_rev(wanted, before[i]);
                let p = choose|p: int| 0 <= p < shorter.len() && shorter[p] == before[i];
                assert(key_before(keys[p], keys[keys.len() - 1]));
            }
        }
    }
}

/// One of the first `upto` rows has the key.
spec fn seen<V>(rows: Seq<Row<V>>, upto: int, key: KeyView) -> bool {
    exists|i: int| 0 <= i < upto && #[trigger] rows[i].key@ == key
}

proof fn lemma_seen_step<V>(rows: Seq<Row<V>>, upto: int, key: KeyView)
    requires
        0 <= upto < rows.len(),
    ensures
        seen(rows, upto + 1, key) <==> seen(rows, upto, key) || rows[upto].key@ == key,
{
}

spec fn collected(keys: Seq<Key>, key: KeyView) -> bool {
    exists|i: int| 0 <= i < keys.len() && #[trigger] keys[i]@ == key
}

proof fn lemma_collected_push(keys: Seq<Key>, last: Key, key: KeyView)
    ensures
        collected(keys.push(last), key) <==> collected(keys, key) || last@ == key,
{
    let more = keys.push(last);
    assert(more[keys.len() as int] == last);
    if collected(keys, key) {
        let i = choose|i: int| 0 <= i < keys.len() && #[trigger] keys[i]@ == key;
        assert(more[i]@ == key);
    }
    if collected(more, key) && last@ != key {
        let i = choose|i: int| 0 <= i < more.len() && #[trigger] more[i]@ == key;
        assert(keys[i]@ == key);
    }
}

impl<V: View> Column<V> {
    #[verifier::type_invariant]
    spec fn consistent(self) -> bool {
        &&& sorted(self.rows@)
        &&& differ_only_at(contents(self.rows@), self.saved@, key_views(self.touched@))
    }

    /// What the column held when its changed keys were last handed out.
    pub closed spec fn saved(&self) -> Map<KeyView, V::V> {
        self.saved@
    }

    /// The keys that have been written or removed since.
    pub closed spec fn pending(&self) -> Seq<KeyView> {
        key_views(self.touched@)
    }

    /// An empty column with nothing to save.
    pub fn new() -> (r: Self)
        ensures
            r@ == Map::<KeyView, V::V>::empty(),
            r.saved() == r@,
            r.pending() == Seq::<KeyView>::empty(),
    {
        let rows: Vec<Row<V>> = Vec::new();
        proof {
            assert(contents(rows@) =~= Map::<KeyView, V::V>::empty());
        }
        let r = Column { rows, touched: Vec::new(), saved: Ghost(Map::empty()) };
        proof {
            assert(r.pending() =~= Seq::<KeyView>::empty());
        }
        r
    }

    fn find(&self, key: &Key) -> (r: (bool, usize))
        ensures
            r.1 <= self.rows@.len(),
            r.0 ==> r.1 < self.rows@.len() && self.rows@[r.1 as int].key@ == key@,
            forall|i: int| 0 <= i < r.1 ==> key_before(#[trigger] self.rows@[i].key@, key@),
            !r.0 ==> forall|i: int|
                r.1 <= i < self.rows@.len() ==> key_before(key@, #[trigger] self.rows@[i].key@),
    {
        proof {
            use_type_invariant(self);
        }
        let mut i: usize = 0;
        while i < self.rows.len()
            invariant
                sorted(self.rows@),
                i <= self.rows@.len(),
                forall|j: int| 0 <= j < i ==> key_before(#[trigger] self.rows@[j].key@, key@),
            decreases self.rows@.len() - i,
        {
            match self.rows[i].key.rank(key) {
                Rank::Before => {},
                Rank::Same => {
                    return (true, i);
                },
                Rank::After => {
                    proof {
                        assert forall|j: int| i <= j < self.rows@.len() implies key_before(
                            key@,
                            #[trigger] self.rows@[j].key@,
                        ) by {
                            if i < j {
                                lemma_key_transitive(
                                    key@,
                                    self.rows@[i as int].key@,
                                    self.rows@[j].key@,
                                );
                            }
                        }
                    }
                    return (false, i);
                },
            }
            i = i + 1;
        }
        (false, i)
    }

    proof fn lemma_absent(&self, key: KeyView, at: int)
        requires
            0 <= at <= self.rows@.len(),
            forall|i: int| 0 <= i < at ==> key_before(#[trigger] self.rows@[i].key@, key),
            forall|i: int|
                at <= i < self.rows@.len() ==> key_before(key, #[trigger] self.rows@[i].key@),
        ensures
            !self@.contains_key(key),
    {
        if holds(self.rows@, key) {
            let p = position(self.rows@, key);
            lemma_key_irreflexive(key);
            assert(self.rows@[p].key@ == key);
        }
    }

    /// The value under `key`, if there is one.
    pub fn get(&self, key: &Key) -> (r: Option<&V>)
        ensures
            r is Some <==> self@.contains_key(key@),
            r matches Some(v) ==> self@[key@] == v@,
    {
        let (found, i) = self.find(key);
        if found {
            proof {
                use_type_invariant(self);
                lemma_position(self.rows@, i as int);
            }
            Some(&self.rows[i].value)
        } else {
            proof {
                self.lemma_absent(key@, i as int);
            }
            None
        }
    }

    /// How many rows there are.
    pub fn len(&self) -> (r: usize)
        ensures
            self@.dom().finite(),
            r == self@.dom().len(),
    {
        proof {
            use_type_invariant(self);
            let keys = self.rows@.map_values(|row: Row<V>| row.key@);
            assert forall|i: int, j: int|
                0 <= i < keys.len() && 0 <= j < keys.len() && i != j implies keys[i]
                != keys[j] by {
                lemma_key_irreflexive(keys[i]);
                if i < j {
                    assert(key_before(self.rows@[i].key@, self.rows@[j].key@));
                } else {
                    assert(key_before(self.rows@[j].key@, self.rows@[i].key@));
                }
            }
            keys.unique_seq_to_set();
            assert(keys.to_set() =~= self@.dom()) by {
                assert forall|k: KeyView| keys.to_set().contains(k) <==> self@.dom().contains(
                    k,
                ) by {
                    if keys.contains(k) {
                        let i = choose|i: int| 0 <= i < keys.len() && keys[i] == k;
                        assert(self.rows@[i].key@ == k);
                    }
                    if holds(self.rows@, k) {
                        let i = position(self.rows@, k);
                        assert(keys[i] == k);
                    }
                }
            }
            vstd::seq_lib::seq_to_set_is_finite(keys);
        }
        self.rows.len()
    }

    /// Whether there is a value under `key`.
    pub fn contains(&self, key: &Key) -> (r: bool)
        ensures
            r == self@.contains_key(key@),
    {
        self.get(key).is_some()
    }

    /// Puts `value` under `key`, in place of what was there.
    pub fn insert(&mut self, key: Key, value: V)
        ensures
            final(self)@ == old(self)@.insert(key@, value@),
            final(self).saved() == old(self).saved(),
            final(self).pending() == old(self).pending().push(key@),
    {
        let (found, i) = self.find(&key);
        let mut taken = Column::new();
        std::mem::swap(self, &mut taken);
        proof {
            use_type_invariant(&taken);
        }
        let ghost before = taken.rows@;
        let Column { mut rows, mut touched, saved } = taken;
        let ghost old_touched = touched@;
        let note = key.duplicate();
        let row = Row { key, value };
        if found {
            rows.set(i, row);
            proof {
                lemma_contents_update(before, rows@, i as int, row);
            }
        } else {
            rows.insert(i, row);
            proof {
                lemma_contents_insert(before, rows@, i as int, row);
            }
        }
        touched.push(note);
        proof {
            lemma_touched(old_touched, touched@, note);
        }
        *self = Column { rows, touched, saved };
    }

    /// Removes the row under `key`, if there is one.
    pub fn remove(&mut self, key: &Key)
        ensures
            final(self)@ == old(self)@.remove(key@),
            final(self).saved() == old(self).saved(),
            final(self).pending() == old(self).pending().push(key@),
    {
        let (found, i) = self.find(key);
        proof {
            if !found {
                self.lemma_absent(key@, i as int);
            }
        }
        let mut taken = Column::new();
        std::mem::swap(self, &mut taken);
        proof {
            use_type_invariant(&taken);
        }
        let ghost before = taken.rows@;
        let Column { mut rows, mut touched, saved } = taken;
        let ghost old_touched = touched@;
        let note = key.duplicate();
        if found {
            rows.remove(i);
            proof {
                lemma_contents_remove(before, rows@, i as int);
            }
        } else {
            assert(contents(before).remove(key@) =~= contents(before));
        }
        touched.push(note);
        proof {
            lemma_touched(old_touched, touched@, note);
        }
        *self = Column { rows, touched, saved };
    }

    /// Removes the row under `key` and hands out its value, if there is one.
    pub fn take(&mut self, key: &Key) -> (r: Option<V>)
        ensures
            final(self)@ == old(self)@.remove(key@),
            final(self).saved() == old(self).saved(),
            final(self).pending() == old(self).pending().push(key@),
            r is Some <==> old(self)@.contains_key(key@),
            r matches Some(v) ==> old(self)@[key@] == v@,
    {
        let (found, i) = self.find(key);
        proof {
            if !found {
                self.lemma_absent(key@, i as int);
            }
        }
        let mut taken = Column::new();
        std::mem::swap(self, &mut taken);
        proof {
            use_type_invariant(&taken);
        }
        let ghost before = taken.rows@;
        let Column { mut rows, mut touched, saved } = taken;
        let ghost old_touched = touched@;
        let note = key.duplicate();
        let value = if found {
            let row = rows.remove(i);
            proof {
                lemma_position(before, i as int);
                lemma_contents_remove(before, rows@, i as int);
            }
            Some(row.value)
        } else {
            assert(contents(before).remove(key@) =~= contents(before));
            None
        };
        touched.push(note);
        proof {
            lemma_touched(old_touched, touched@, note);
        }
        *self = Column { rows, touched, saved };
        value
    }

    /// The keys with the given leading strings, in key order.
    pub fn keys(&self, first: Option<&str>, second: Option<&str>) -> (r: Vec<Key>)
        ensures
            lists(
                key_views(r@),
                |k: KeyView| self@.contains_key(k) && under(first, second, k),
            ),
    {
        proof {
            use_type_invariant(self);
        }
        let mut out: Vec<Key> = Vec::new();
        let mut i: usize = 0;
        while i < self.rows.len()
            invariant
                sorted(self.rows@),
                i <= self.rows@.len(),
                forall|a: int, b: int|
                    0 <= a < b < out@.len() ==> key_before(
                        #[trigger] out@[a]@,
                        #[trigger] out@[b]@,
                    ),
                forall|k: KeyView| #[trigger]
                    collected(out@, k) <==> seen(self.rows@, i as int, k) && under(
                        first,
                        second,
                        k,
                    ),
            decreases self.rows@.len() - i,
        {
            let key = &self.rows[i].key;
            let first_fits = match first {
                Some(f) => same_str(key.first.as_str(), f),
                None => true,
            };
            let second_fits = match second {
                Some(s) => same_str(key.second.as_str(), s),
                None => true,
            };
            let ghost before = out@;
            if first_fits && second_fits {
                out.push(key.duplicate());
            }
            proof {
                assert forall|k: KeyView| #[trigger]
                    collected(out@, k) <==> seen(self.rows@, i + 1, k) && under(
                        first,
                        second,
                        k,
                    ) by {
                    lemma_seen_step(self.rows@, i as int, k);
                    if first_fits && second_fits {
                        lemma_collected_push(before, out@.last(), k);
                    }
                    assert(collected(before, k) <==> seen(self.rows@, i as int, k) && under(
                        first,
                        second,
                        k,
                    ));
                }
                assert forall|a: int, b: int| 0 <= a < b < out@.len() implies key_before(
                    #[trigger] out@[a]@,
                    #[trigger] out@[b]@,
                ) by {
                    assert(out@[a] == before[a]);
                    if b == before.len() {
                        assert(collected(before, before[a]@));
                        assert(seen(self.rows@, i as int, before[a]@));
                    } else {
                        assert(out@[b] == before[b]);
                    }
                }
            }
            i = i + 1;
        }
        proof {
            let views = key_views(out@);
            assert forall|k: KeyView|
                (self@.contains_key(k) && under(first, second, k)) <==> #[trigger] views.contains(
                    k,
                ) by {
                assert(collected(out@, k) <==> views.contains(k)) by {
                    if collected(out@, k) {
                        let a = choose|a: int| 0 <= a < out@.len() && #[trigger] out@[a]@ == k;
                        assert(views[a] == k);
                    }
                    if views.contains(k) {
                        let a = choose|a: int| 0 <= a < views.len() && views[a] == k;
                        assert(out@[a]@ == k);
                    }
                }
                assert(seen(self.rows@, i as int, k) <==> holds(self.rows@, k));
            }
            assert forall|a: int, b: int| 0 <= a < b < views.len() implies key_before(
                #[trigger] views[a],
                #[trigger] views[b],
            ) by {
                assert(views[a] == out@[a]@ && views[b] == out@[b]@);
            }
        }
        out
    }

    /// Removes the rows whose keys have the given leading strings.
    pub fn remove_under(&mut self, first: Option<&str>, second: Option<&str>)
        ensures
            final(self)@ == without_under(old(self)@, first, second),
            final(self).saved() == old(self).saved(),
            exists|keys: Seq<KeyView>|
                lists(keys, |k: KeyView| old(self)@.contains_key(k) && under(first, second, k))
                    && final(self).pending() == #[trigger] (old(self).pending() + keys),
    {
        let keys = self.keys(first, second);
        let ghost views = key_views(keys@);
        let ghost start = self@;
        let ghost wanted = |k: KeyView| start.contains_key(k) && under(first, second, k);
        let mut i: usize = 0;
        while i < keys.len()
            invariant
                i <= keys@.len(),
                views == key_views(keys@),
                self@ == without_keys(start, views, i as int),
                self.saved() == old(self).saved(),
                self.pending() == old(self).pending() + views.take(i as int),
            decreases keys@.len() - i,
        {
            self.remove(&keys[i]);
            assert(views[i as int] == keys@[i as int]@);
            assert(views.take(i + 1) =~= views.take(i as int).push(views[i as int]));
            i = i + 1;
        }
        proof {
            assert(views.take(i as int) =~= views);
            assert(self@ =~= without_under(start, first, second)) by {
                assert forall|k: KeyView|
                    self@.contains_key(k) <==> #[trigger] without_under(
                        start,
                        first,
                        second,
                    ).contains_key(k) by {
                    lemma_without_keys(start, views, i as int, k);
                    assert(views.take(i as int) =~= views);
                    assert(wanted(k) <==> views.contains(k));
                }
                assert forall|k: KeyView| self@.contains_key(k) implies #[trigger] self@[k]
                    == without_under(start, first, second)[k] by {
                    lemma_without_keys(start, views, i as int, k);
                    assert(without_under(start, first, second).contains_key(k));
                }
            }
        }
    }

    /// Hands out the keys changed since the last call and starts anew: every row whose
    /// key is not handed out is as it was then.
    pub fn take_touched(&mut self) -> (r: Vec<Key>)
        ensures
            final(self)@ == old(self)@,
            final(self).saved() == old(self)@,
            final(self).pending() == Seq::<KeyView>::empty(),
            key_views(r@) == old(self).pending(),
            differ_only_at(old(self)@, old(self).saved(), key_views(r@)),
    {
        let mut taken = Column::new();
        std::mem::swap(self, &mut taken);
        proof {
            use_type_invariant(&taken);
        }
        let Column { rows, touched, saved } = taken;
        let fresh = Column { rows, touched: Vec::new(), saved: Ghost(contents(rows@)) };
        proof {
            assert(fresh.pending() =~= Seq::<KeyView>::empty());
        }
        *self = fresh;
        touched
    }

    /// Puts a row that is already on disk into the column.
    pub fn load(&mut self, key: Key, value: V)
        requires
            old(self).pending() == Seq::<KeyView>::empty(),
        ensures
            final(self)@ == old(self)@.insert(key@, value@),
            final(self).saved() == final(self)@,
            final(self).pending() == Seq::<KeyView>::empty(),
    {
        self.insert(key, value);
        let _ = self.take_touched();
    }
}

/// Keys are in the order of their first parts, then of their second ones, then of their third
/// ones, then of their two counts.
pub proof fn law_key_order(a: KeyView, b: KeyView)
    ensures
        str_before(a.first, b.first) ==> key_before(a, b) && !key_before(b, a),
        a.first == b.first && str_before(a.second, b.second) ==> key_before(a, b) && !key_before(
            b,
            a,
        ),
        a.first == b.first && a.second == b.second && str_before(a.third, b.third) ==> key_before(
            a,
            b,
        ) && !key_before(b, a),
        a.first == b.first && a.second == b.second && a.third == b.third ==> (key_before(a, b)
            <==> a.count < b.count || a.count == b.count && a.minor < b.minor),
{
    if key_before(a, b) && key_before(b, a) {
        lemma_key_transitive(a, b, a);
        lemma_key_irreflexive(a);
    }
    lemma_str_irreflexive(a.first);
    lemma_str_irreflexive(a.second);
    lemma_str_irreflexive(a.third);
}

/// Each kind of key holds its parts in their places and nothing else.
pub proof fn law_key_parts(
    first: Seq<char>,
    second: Seq<char>,
    third: Seq<char>,
    count: u64,
    minor: u64,
)
    ensures
        ({
            let none = Seq::<char>::empty();
            let key = |a: Seq<char>, b: Seq<char>, c: Seq<char>, n: u64, m: u64|
                KeyView { first: a, second: b, third: c, count: n, minor: m };
            &&& full_key(first, second, third, count) == key(first, second, third, count, 0)
            &&& key1(first) == key(first, none, none, 0, 0)
            &&& key2(first, second) == key(first, second, none, 0, 0)
            &&& key3(first, second, third) == key(first, second, third, 0, 0)
            &&& counted_key1(first, count) == key(first, none, none, count, 0)
            &&& counted_key2(first, second, count) == key(first, second, none, count, 0)
            &&& counter_key(count, minor) == key(none, none, none, count, minor)
        }),
{
}

/// A key stands under what it is asked to begin with. Removing what stands under something leaves
/// all else as it was.
pub proof fn law_rows_under<W>(
    rows: Map<KeyView, W>,
    first: Option<&str>,
    second: Option<&str>,
    key: KeyView,
)
    ensures
        under(first, second, key) <==> (first is None || key.first == first->Some_0@) && (second
            is None || key.second == second->Some_0@),
        without_under(rows, first, second).contains_key(key) <==> rows.contains_key(key) && !((first
            is None || key.first == first->Some_0@) && (second is None || key.second
            == second->Some_0@)),
        without_under(rows, first, second).contains_key(key) ==> without_under(
            rows,
            first,
            second,
        )[key] == rows[key],
{
}

/// A list of keys has just those that are wanted, each once, in their order.
pub proof fn law_listed_keys(
    keys: Seq<KeyView>,
    wanted: spec_fn(KeyView) -> bool,
    key: KeyView,
    i: int,
    j: int,
)
    requires
        lists(keys, wanted),
    ensures
        keys.contains(key) <==> wanted(key),
        0 <= i < j < keys.len() ==> key_before(keys[i], keys[j]) && keys[i] != keys[j],
{
    if 0 <= i < j < keys.len() {
        assert(key_before(keys[i], keys[j]));
        lemma_key_irreflexive(keys[i]);
    }
}

} // verus!
