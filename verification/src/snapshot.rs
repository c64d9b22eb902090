//! Snapshots: the records of one category, kept under their identifiers,
//! and the catalogue of all categories.

use vstd::hash_map::StringHashMap;
use vstd::prelude::*;
use vstd::string::*;
use crate::utils::Category;

verus! {

/// Records kept under their identifiers. An identifier occurs once; a
/// record filed under an identifier that is taken replaces the one that
/// was there. The records stay in the order in which their identifiers
/// were first filed.
pub struct Snapshot<T> {
    entries: Vec<(String, T)>,
    index: StringHashMap<usize>,
}

impl<T> Snapshot<T> {
    /// The index knows the place of every identifier, and of nothing else.
    #[verifier::type_invariant]
    spec fn indexed(&self) -> bool {
        &&& forall|i: int|
            0 <= i < self.entries@.len() ==> self.index@.contains_key(
                (#[trigger] self.entries@[i]).0@,
            ) && self.index@[self.entries@[i].0@] == i
        &&& forall|k: Seq<char>| #[trigger]
            self.index@.contains_key(k) ==> self.index@[k] < self.entries@.len()
                && self.entries@[self.index@[k] as int].0@ == k
    }

    /// The identifiers, in the order in which they were first filed.
    pub closed spec fn keys(&self) -> Seq<Seq<char>> {
        Seq::new(self.entries@.len(), |i: int| self.entries@[i].0@)
    }

    /// The records, each at the position of its identifier.
    pub closed spec fn values(&self) -> Seq<T> {
        Seq::new(self.entries@.len(), |i: int| self.entries@[i].1)
    }

    /// The snapshot as a map from identifier to record.
    pub open spec fn view(&self) -> Map<Seq<char>, T> {
        Map::new(
            |k: Seq<char>| self.keys().contains(k),
            |k: Seq<char>| self.values()[self.keys().index_of(k)],
        )
    }

    /// A snapshot without records.
    pub fn new() -> (s: Self)
        ensures
            s.keys() == Seq::<Seq<char>>::empty(),
            s.values() == Seq::<T>::empty(),
            s@ == Map::<Seq<char>, T>::empty(),
    {
        let s = Snapshot { entries: Vec::new(), index: StringHashMap::new() };
        proof {
            assert(s.keys() =~= Seq::<Seq<char>>::empty());
            assert(s.values() =~= Seq::<T>::empty());
            assert(s@ =~= Map::<Seq<char>, T>::empty());
        }
        s
    }

    /// The number of records.
    pub fn len(&self) -> (n: usize)
        ensures
            n == self.keys().len(),
            n == self.values().len(),
            self.keys().no_duplicates(),
            self@.dom().finite(),
    {
        proof {
            use_type_invariant(self);
            self.lemma_domain();
        }
        self.entries.len()
    }

    proof fn lemma_domain(&self)
        requires
            self.indexed(),
        ensures
            self.keys().no_duplicates(),
            self@.dom() == self.keys().to_set(),
            self@.dom().finite(),
            forall|k: Seq<char>| self.keys().contains(k) <==> self.index@.contains_key(k),
            forall|i: int|
                0 <= i < self.keys().len() ==> self@.contains_key(#[trigger] self.keys()[i])
                    && self@[self.keys()[i]] == self.values()[i],
    {
        assert forall|i: int, j: int|
            0 <= i < self.keys().len() && 0 <= j < self.keys().len() && i != j implies self.keys()[i]
            != self.keys()[j] by {
            assert(self.index@[self.entries@[i].0@] == i);
            assert(self.index@[self.entries@[j].0@] == j);
        }
        assert(self@.dom() =~= self.keys().to_set());
        vstd::seq_lib::seq_to_set_is_finite(self.keys());
        assert forall|k: Seq<char>| self.keys().contains(k) <==> self.index@.contains_key(k) by {
            if self.keys().contains(k) {
                let i = choose|i: int| 0 <= i < self.keys().len() && self.keys()[i] == k;
                assert(self.entries@[i].0@ == k);
            }
            if self.index@.contains_key(k) {
                assert(self.keys()[self.index@[k] as int] == k);
            }
        }
        assert forall|i: int| 0 <= i < self.keys().len() implies self@.contains_key(
            #[trigger] self.keys()[i],
        ) && self@[self.keys()[i]] == self.values()[i] by {
            let k = self.keys()[i];
            assert(self.keys().contains(k));
            let j = self.keys().index_of(k);
            assert(self.keys()[j] == k);
        }
    }

    /// The identifier at position `i`.
    pub fn key(&self, i: usize) -> (k: &str)
        requires
            i < self.keys().len(),
        ensures
            k@ == self.keys()[i as int],
    {
        self.entries[i].0.as_str()
    }

    /// The record at position `i`.
    pub fn value(&self, i: usize) -> (v: &T)
        requires
            i < self.values().len(),
        ensures
            *v == self.values()[i as int],
            self.keys().len() == self.values().len(),
            self@.contains_key(self.keys()[i as int]),
            self@[self.keys()[i as int]] == *v,
    {
        proof {
            use_type_invariant(self);
            self.lemma_domain();
        }
        &self.entries[i].1
    }

    /// The position of the record filed under `key`, if there is one.
    pub fn find(&self, key: &str) -> (r: Option<usize>)
        ensures
            match r {
                Some(i) => i < self.keys().len() && self.keys()[i as int] == key@,
                None => !self.keys().contains(key@),
            },
            r is Some <==> self@.contains_key(key@),
    {
        proof {
            use_type_invariant(self);
            self.lemma_domain();
        }
        match self.index.get(key) {
            Some(i) => {
                proof {
                    assert(self.keys()[*i as int] == key@);
                }
                Some(*i)
            },
            None => None,
        }
    }

    /// The record filed under `key`, if there is one.
    pub fn get(&self, key: &str) -> (r: Option<&T>)
        ensures
            match r {
                Some(v) => self@.contains_key(key@) && self@[key@] == *v,
                None => !self@.contains_key(key@),
            },
    {
        match self.find(key) {
            Some(i) => {
                proof {
                    use_type_invariant(self);
                    self.lemma_domain();
                }
                Some(&self.entries[i].1)
            },
            None => None,
        }
    }

    /// Files `value` under `key`. A record that was filed under `key` is
    /// replaced in full, at its place; a new identifier goes to the end.
    pub fn insert(&mut self, key: String, value: T)
        ensures
            final(self)@ == old(self)@.insert(key@, value),
            old(self)@.contains_key(key@) ==> final(self).keys() == old(self).keys()
                && final(self).values() == old(self).values().update(
                old(self).keys().index_of(key@),
                value,
            ),
            !old(self)@.contains_key(key@) ==> final(self).keys() == old(self).keys().push(key@)
                && final(self).values() == old(self).values().push(value),
    {
        proof {
            use_type_invariant(&*self);
            self.lemma_domain();
        }
        let ghost before = *self;
        let found = self.find(key.as_str());
        let mut taken = Snapshot::new();
        std::mem::swap(&mut taken, self);
        let Snapshot { entries, index } = taken;
        let mut entries = entries;
        let mut index = index;
        match found {
            Some(i) => {
                entries.set(i, (key, value));
                proof {
                    let j = before.keys().index_of(key@);
                    assert(before.keys()[j] == key@);
                    assert(before.keys()[i as int] == key@);
                    assert(j == i);
                    assert forall|a: int| 0 <= a < entries@.len() implies index@.contains_key(
                        (#[trigger] entries@[a]).0@,
                    ) && index@[entries@[a].0@] == a by {
                        if a != i {
                            assert(entries@[a] == before.entries@[a]);
                        }
                    }
                    assert forall|k: Seq<char>| #[trigger] index@.contains_key(k) implies index@[k]
                        < entries@.len() && entries@[index@[k] as int].0@ == k by {
                        let p = index@[k] as int;
                        assert(before.entries@[p].0@ == k);
                        if p != i {
                            assert(entries@[p] == before.entries@[p]);
                        }
                    }
                }
                *self = Snapshot { entries, index };
                proof {
                    assert(self.keys() =~= before.keys());
                    assert(self.values() =~= before.values().update(i as int, value));
                    self.lemma_domain();
                    assert(self@ =~= before@.insert(key@, value)) by {
                        assert forall|k: Seq<char>| self@.contains_key(k) implies #[trigger] self@[k]
                            == before@.insert(key@, value)[k] by {
                            let p = self.keys().index_of(k);
                            assert(self.keys()[p] == k);
                            assert(self@[self.keys()[p]] == self.values()[p]);
                            assert(before@[before.keys()[p]] == before.values()[p]);
                        }
                    }
                }
            },
            None => {
                let place: usize = entries.len();
                index.insert(key.clone(), place);
                entries.push((key, value));
                proof {
                    assert forall|a: int| 0 <= a < entries@.len() implies index@.contains_key(
                        (#[trigger] entries@[a]).0@,
                    ) && index@[entries@[a].0@] == a by {
                        if a < place {
                            assert(entries@[a] == before.entries@[a]);
                            assert(before.keys()[a] == entries@[a].0@);
                        }
                    }
                    assert forall|k: Seq<char>| #[trigger] index@.contains_key(k) implies index@[k]
                        < entries@.len() && entries@[index@[k] as int].0@ == k by {
                        if k != key@ {
                            let p = before.index@[k] as int;
                            assert(entries@[p] == before.entries@[p]);
                        }
                    }
                }
                *self = Snapshot { entries, index };
                proof {
                    assert(self.keys() =~= before.keys().push(key@));
                    assert(self.values() =~= before.values().push(value));
                    self.lemma_domain();
                    assert(self@ =~= before@.insert(key@, value)) by {
                        assert forall|k: Seq<char>| self@.contains_key(k) implies #[trigger] self@[k]
                            == before@.insert(key@, value)[k] by {
                            let p = self.keys().index_of(k);
                            assert(self.keys()[p] == k);
                            assert(self@[self.keys()[p]] == self.values()[p]);
                            if p < before.keys().len() {
                                assert(before.keys()[p] == k);
                                assert(before@[before.keys()[p]] == before.values()[p]);
                            }
                        }
                        assert forall|k: Seq<char>|
                            before@.insert(key@, value).contains_key(k) implies self@.contains_key(
                            k,
                        ) by {
                            if k == key@ {
                                assert(self.keys()[before.keys().len() as int] == key@);
                            } else {
                                let p = before.keys().index_of(k);
                                assert(before.keys()[p] == k);
                                assert(self.keys()[p] == k);
                            }
                        }
                    }
                }
            },
        }
    }
}

/// The place of a category among the shelves of a catalogue.
pub open spec fn shelf_index(c: Category) -> int {
    match c {
        Category::Unset => 0,
        Category::WaterAndHeating => 1,
        Category::Ventilation => 2,
        Category::Electricity => 3,
        Category::Industrial => 4,
        Category::Refrigeration => 5,
    }
}

/// The records of a seller, one snapshot for each category that has
/// any. A category without snapshot is not the same as one whose snapshot
/// is empty: only the second is written back.
pub struct Catalog<T> {
    shelves: Vec<Option<Snapshot<T>>>,
}

impl<T> Catalog<T> {
    #[verifier::type_invariant]
    spec fn six_shelves(&self) -> bool {
        self.shelves@.len() == 6
    }

    /// The snapshot of a category, if it has one.
    pub closed spec fn shelf(&self, c: Category) -> Option<Snapshot<T>> {
        self.shelves@[shelf_index(c)]
    }

    /// The records of a category as a map from identifier to record; the
    /// empty map for a category without snapshot.
    pub open spec fn records(&self, c: Category) -> Map<Seq<char>, T> {
        match self.shelf(c) {
            Some(s) => s@,
            None => Map::empty(),
        }
    }

    fn index(c: Category) -> (i: usize)
        ensures
            i == shelf_index(c),
            i < 6,
    {
        match c {
            Category::Unset => 0,
            Category::WaterAndHeating => 1,
            Category::Ventilation => 2,
            Category::Electricity => 3,
            Category::Industrial => 4,
            Category::Refrigeration => 5,
        }
    }

    fn empty_shelves() -> (shelves: Vec<Option<Snapshot<T>>>)
        ensures
            shelves@.len() == 6,
            forall|i: int| 0 <= i < 6 ==> shelves@[i] is None,
    {
        let mut shelves: Vec<Option<Snapshot<T>>> = Vec::new();
        shelves.push(None);
        shelves.push(None);
        shelves.push(None);
        shelves.push(None);
        shelves.push(None);
        shelves.push(None);
        shelves
    }

    /// A catalogue without any snapshot.
    pub fn new() -> (c: Self)
        ensures
            forall|k: Category| c.shelf(k) is None,
    {
        Catalog { shelves: Self::empty_shelves() }
    }

    /// The snapshot of a category, if it has one.
    pub fn get(&self, c: Category) -> (r: Option<&Snapshot<T>>)
        ensures
            match r {
                Some(s) => self.shelf(c) == Some(*s),
                None => self.shelf(c) is None,
            },
    {
        proof {
            use_type_invariant(self);
        }
        self.shelves[Self::index(c)].as_ref()
    }

    /// Puts `snapshot` in the place of the category's snapshot.
    pub fn put(&mut self, c: Category, snapshot: Snapshot<T>)
        ensures
            final(self).shelf(c) == Some(snapshot),
            forall|k: Category| k != c ==> final(self).shelf(k) == old(self).shelf(k),
    {
        proof {
            use_type_invariant(&*self);
        }
        let mut shelves = Self::empty_shelves();
        std::mem::swap(&mut shelves, &mut self.shelves);
        shelves.set(Self::index(c), Some(snapshot));
        *self = Catalog { shelves };
    }

    /// Files `value` under `key` in the snapshot of category `c`, which is
    /// started when the category has none. A record that was filed under
    /// `key` in that category is replaced in full.
    pub fn upsert(&mut self, c: Category, key: String, value: T)
        ensures
            final(self).shelf(c) is Some,
            final(self).records(c) == old(self).records(c).insert(key@, value),
            forall|k: Category| k != c ==> final(self).shelf(k) == old(self).shelf(k),
    {
        proof {
            use_type_invariant(&*self);
        }
        let mut shelves = Self::empty_shelves();
        std::mem::swap(&mut shelves, &mut self.shelves);
        let i = Self::index(c);
        let mut slot: Option<Snapshot<T>> = None;
        std::mem::swap(&mut slot, &mut shelves[i]);
        let mut snapshot = match slot {
            Some(s) => s,
            None => Snapshot::new(),
        };
        snapshot.insert(key, value);
        shelves.set(i, Some(snapshot));
        *self = Catalog { shelves };
    }
}

/// A record that is filed in a catalogue: it names its category and the
/// identifier it goes under.
pub trait Filed {
    /// The category the record belongs to.
    spec fn shelf_of(&self) -> Category;

    /// The identifier the record is filed under.
    spec fn key_of(&self) -> Seq<char>;

    /// Tells the category the record belongs to.
    fn shelf(&self) -> (c: Category)
        ensures
            c == self.shelf_of(),
    ;

    /// Tells the identifier the record is filed under.
    fn key(&self) -> (k: String)
        ensures
            k@ == self.key_of(),
    ;
}

/// The records of category `c` after `records` were filed, one after the
/// other, over the records `base` that were there: a later record
/// replaces an earlier one of the same identifier in full.
pub open spec fn overlay<T: Filed>(base: Map<Seq<char>, T>, records: Seq<T>, c: Category) -> Map<
    Seq<char>,
    T,
>
    decreases records.len(),
{
    if records.len() == 0 {
        base
    } else {
        let before = overlay(base, records.drop_last(), c);
        if records.last().shelf_of() == c {
            before.insert(records.last().key_of(), records.last())
        } else {
            before
        }
    }
}

/// Filing one more record changes its own category only, and there it is
/// filed over what was there.
pub proof fn lemma_overlay_push<T: Filed>(
    base: Map<Seq<char>, T>,
    records: Seq<T>,
    record: T,
    c: Category,
)
    ensures
        overlay(base, records.push(record), c) == if record.shelf_of() == c {
            overlay(base, records, c).insert(record.key_of(), record)
        } else {
            overlay(base, records, c)
        },
{
    assert(records.push(record).drop_last() =~= records);
}

/// After an overlay, an identifier holds the last record that was filed
/// under it, or, when none was, what the base held.
pub proof fn lemma_overlay_last_wins<T: Filed>(
    base: Map<Seq<char>, T>,
    records: Seq<T>,
    c: Category,
    key: Seq<char>,
)
    ensures
        (forall|i: int|
            0 <= i < records.len() ==> !(#[trigger] records[i].shelf_of() == c && records[i].key_of()
                == key)) ==> (overlay(base, records, c).contains_key(key) == base.contains_key(key)
            && (base.contains_key(key) ==> overlay(base, records, c)[key] == base[key])),
        forall|i: int|
            0 <= i < records.len() && records[i].shelf_of() == c && records[i].key_of() == key
                && (forall|j: int|
                i < j < records.len() ==> !(#[trigger] records[j].shelf_of() == c
                    && records[j].key_of() == key)) ==> overlay(base, records, c).contains_key(key)
                && overlay(base, records, c)[key] == records[i],
    decreases records.len(),
{
    if records.len() > 0 {
        let rest = records.drop_last();
        lemma_overlay_last_wins(base, rest, c, key);
        assert forall|i: int|
            0 <= i < records.len() && records[i].shelf_of() == c && records[i].key_of() == key
                && (forall|j: int|
                i < j < records.len() ==> !(#[trigger] records[j].shelf_of() == c
                    && records[j].key_of() == key)) implies overlay(base, records, c).contains_key(
            key,
        ) && overlay(base, records, c)[key] == records[i] by {
            if i < rest.len() {
                assert(rest[i] == records[i]);
                assert forall|j: int| i < j < rest.len() implies !(#[trigger] rest[j].shelf_of()
                    == c && rest[j].key_of() == key) by {
                    assert(rest[j] == records[j]);
                }
                assert(!(records[records.len() - 1].shelf_of() == c && records[records.len()
                    - 1].key_of() == key));
            }
        }
        if forall|i: int|
            0 <= i < records.len() ==> !(#[trigger] records[i].shelf_of() == c && records[i].key_of()
                == key) {
            assert forall|i: int| 0 <= i < rest.len() implies !(#[trigger] rest[i].shelf_of() == c
                && rest[i].key_of() == key) by {
                assert(rest[i] == records[i]);
            }
            assert(!(records[records.len() - 1].shelf_of() == c && records[records.len()
                - 1].key_of() == key));
        }
    }
}

/// Whether one of `records` belongs to category `c`.
pub open spec fn touches<T: Filed>(records: Seq<T>, c: Category) -> bool {
    exists|k: int| 0 <= k < records.len() && (#[trigger] records[k]).shelf_of() == c
}

/// One more record touches its own category, and no other.
pub proof fn lemma_touches_push<T: Filed>(records: Seq<T>, record: T, c: Category)
    ensures
        touches(records.push(record), c) <==> record.shelf_of() == c || touches(records, c),
{
    let grown = records.push(record);
    assert(grown[records.len() as int] == record);
    if touches(grown, c) {
        let k = choose|k: int| 0 <= k < grown.len() && (#[trigger] grown[k]).shelf_of() == c;
        if k < records.len() {
            assert(records[k].shelf_of() == c);
        }
    }
    if touches(records, c) {
        let k = choose|k: int| 0 <= k < records.len() && (#[trigger] records[k]).shelf_of() == c;
        assert(grown[k].shelf_of() == c);
    }
}

impl<T: Filed> Catalog<T> {
    /// Files `records`, one after the other, each in the snapshot of its
    /// category and under its identifier. Of several records with one
    /// identifier the last one stays.
    pub fn file_all(&mut self, records: Vec<T>)
        ensures
            forall|c: Category|
                #[trigger] final(self).records(c) == overlay(old(self).records(c), records@, c),
            forall|c: Category|
                #[trigger] final(self).shelf(c) is Some <==> old(self).shelf(c) is Some || touches(
                    records@,
                    c,
                ),
    {
        let ghost base = *self;
        let ghost all = records@;
        let ghost mut done: Seq<T> = Seq::empty();
        proof {
            assert forall|c: Category| !touches(done, c) by {}
        }
        for record in it: records.into_iter()
            invariant
                it.seq() == all,
                done == all.take(it.index() as int),
                forall|c: Category| #[trigger] self.records(c) == overlay(base.records(c), done, c),
                forall|c: Category|
                    #[trigger] self.shelf(c) is Some <==> base.shelf(c) is Some || touches(done, c),
        {
            let c0 = record.shelf();
            let key = record.key();
            proof {
                assert forall|c: Category| #[trigger]
                    overlay(base.records(c), done.push(record), c) == if record.shelf_of() == c {
                        overlay(base.records(c), done, c).insert(record.key_of(), record)
                    } else {
                        overlay(base.records(c), done, c)
                    } by {
                    lemma_overlay_push(base.records(c), done, record, c);
                }
                assert forall|c: Category| #[trigger]
                    touches(done.push(record), c) <==> record.shelf_of() == c || touches(
                        done,
                        c,
                    ) by {
                    lemma_touches_push(done, record, c);
                }
                assert(all.take(it.index() + 1) =~= done.push(record));
            }
            let ghost before = *self;
            self.upsert(c0, key, record);
            proof {
                assert forall|c: Category| #[trigger]
                    self.records(c) == overlay(base.records(c), done.push(record), c) by {
                    if c == c0 {
                        assert(self.records(c) == before.records(c).insert(key@, record));
                    } else {
                        assert(self.shelf(c) == before.shelf(c));
                        assert(self.records(c) == before.records(c));
                    }
                }
                assert forall|c: Category| #[trigger]
                    self.shelf(c) is Some <==> base.shelf(c) is Some || touches(
                        done.push(record),
                        c,
                    ) by {
                    if c != c0 {
                        assert(self.shelf(c) == before.shelf(c));
                    }
                }
                done = done.push(record);
            }
        }
        proof {
            assert(all.take(all.len() as int) =~= all);
        }
    }
}

impl<T> Catalog<T> {
    /// The records of the shelves before place `n`, shelf by shelf.
    pub closed spec fn up_to(&self, n: int) -> Seq<T>
        decreases n,
    {
        if n <= 0 {
            Seq::empty()
        } else {
            self.up_to(n - 1) + (match self.shelves@[n - 1] {
                Some(s) => s.values(),
                None => Seq::empty(),
            })
        }
    }

    /// All records of the catalogue, category by category and, in a
    /// category, in the order of the snapshot.
    pub open spec fn all(&self) -> Seq<T> {
        self.up_to(6)
    }

    /// Every record of the catalogue is filed in the snapshot of some
    /// category, and every record filed there is one of the catalogue.
    proof fn lemma_all_are_filed(&self, n: int)
        requires
            0 <= n <= 6,
            self.shelves@.len() == 6,
        ensures
            forall|x: T|
                self.up_to(n).contains(x) <==> exists|i: int, k: int|
                    0 <= i < n && self.shelves@[i] is Some && 0 <= k
                        < self.shelves@[i]->Some_0.values().len() && (
                    #[trigger] self.shelves@[i]->Some_0.values()[k]) == x,
        decreases n,
    {
        if n > 0 {
            self.lemma_all_are_filed(n - 1);
            let before = self.up_to(n - 1);
            let here = match self.shelves@[n - 1] {
                Some(s) => s.values(),
                None => Seq::empty(),
            };
            assert forall|x: T|
                self.up_to(n).contains(x) <==> exists|i: int, k: int|
                    0 <= i < n && self.shelves@[i] is Some && 0 <= k
                        < self.shelves@[i]->Some_0.values().len() && (
                    #[trigger] self.shelves@[i]->Some_0.values()[k]) == x by {
                if self.up_to(n).contains(x) {
                    let p = choose|p: int| 0 <= p < self.up_to(n).len() && self.up_to(n)[p] == x;
                    if p < before.len() {
                        assert(before[p] == x);
                        assert(before.contains(x));
                        let (i, k) = choose|i: int, k: int|
                            0 <= i < n - 1 && self.shelves@[i] is Some && 0 <= k
                                < self.shelves@[i]->Some_0.values().len() && (
                            #[trigger] self.shelves@[i]->Some_0.values()[k]) == x;
                        assert(0 <= i < n && self.shelves@[i]->Some_0.values()[k] == x);
                    } else {
                        assert(here[p - before.len()] == x);
                        assert(self.shelves@[n - 1]->Some_0.values()[p - before.len()] == x);
                    }
                }
                if exists|i: int, k: int|
                    0 <= i < n && self.shelves@[i] is Some && 0 <= k
                        < self.shelves@[i]->Some_0.values().len() && (
                    #[trigger] self.shelves@[i]->Some_0.values()[k]) == x {
                    let (i, k) = choose|i: int, k: int|
                        0 <= i < n && self.shelves@[i] is Some && 0 <= k
                            < self.shelves@[i]->Some_0.values().len() && (
                        #[trigger] self.shelves@[i]->Some_0.values()[k]) == x;
                    if i < n - 1 {
                        assert(before.contains(x));
                        let p = choose|p: int| 0 <= p < before.len() && before[p] == x;
                        assert(self.up_to(n)[p] == x);
                    } else {
                        assert(self.up_to(n)[before.len() + k] == x);
                    }
                }
            }
        }
    }

    /// All records of the catalogue, category by category: each record
    /// of each snapshot, and nothing else.
    pub fn list(&self) -> (r: Vec<&T>)
        ensures
            r@.len() == self.all().len(),
            forall|i: int| 0 <= i < r@.len() ==> *(#[trigger] r@[i]) == self.all()[i],
            forall|x: T|
                self.all().contains(x) <==> exists|c: Category, k: int|
                    self.shelf(c) is Some && 0 <= k < self.shelf(c)->Some_0.values().len() && (
                    #[trigger] self.shelf(c)->Some_0.values()[k]) == x,
    {
        proof {
            use_type_invariant(self);
            self.lemma_all_are_filed(6);
            assert forall|x: T|
                self.all().contains(x) <==> exists|c: Category, k: int|
                    self.shelf(c) is Some && 0 <= k < self.shelf(c)->Some_0.values().len() && (
                    #[trigger] self.shelf(c)->Some_0.values()[k]) == x by {
                if self.all().contains(x) {
                    let (i, k) = choose|i: int, k: int|
                        0 <= i < 6 && self.shelves@[i] is Some && 0 <= k
                            < self.shelves@[i]->Some_0.values().len() && (
                        #[trigger] self.shelves@[i]->Some_0.values()[k]) == x;
                    let c = if i == 0 {
                        Category::Unset
                    } else if i == 1 {
                        Category::WaterAndHeating
                    } else if i == 2 {
                        Category::Ventilation
                    } else if i == 3 {
                        Category::Electricity
                    } else if i == 4 {
                        Category::Industrial
                    } else {
                        Category::Refrigeration
                    };
                    assert(shelf_index(c) == i);
                    assert(self.shelf(c)->Some_0.values()[k] == x);
                }
                if exists|c: Category, k: int|
                    self.shelf(c) is Some && 0 <= k < self.shelf(c)->Some_0.values().len() && (
                    #[trigger] self.shelf(c)->Some_0.values()[k]) == x {
                    let (c, k) = choose|c: Category, k: int|
                        self.shelf(c) is Some && 0 <= k < self.shelf(c)->Some_0.values().len() && (
                        #[trigger] self.shelf(c)->Some_0.values()[k]) == x;
                    assert(self.shelves@[shelf_index(c)]->Some_0.values()[k] == x);
                }
            }
        }
        let mut out: Vec<&T> = Vec::new();
        let mut i: usize = 0;
        while i < 6
            invariant
                i <= 6,
                self.shelves@.len() == 6,
                out@.len() == self.up_to(i as int).len(),
                forall|j: int| 0 <= j < out@.len() ==> *(#[trigger] out@[j]) == self.up_to(i as int)[j],
            decreases 6 - i,
        {
            let ghost before = self.up_to(i as int);
            match &self.shelves[i] {
                Some(snapshot) => {
                    let n = snapshot.len();
                    let mut k: usize = 0;
                    while k < n
                        invariant
                            k <= n,
                            n == snapshot.values().len(),
                            out@.len() == before.len() + k,
                            forall|j: int|
                                0 <= j < before.len() ==> *(#[trigger] out@[j]) == before[j],
                            forall|j: int|
                                0 <= j < k ==> *(#[trigger] out@[before.len() + j])
                                    == snapshot.values()[j],
                        decreases n - k,
                    {
                        out.push(snapshot.value(k));
                        k = k + 1;
                    }
                },
                None => {},
            }
            proof {
                let here = match self.shelves@[i as int] {
                    Some(s) => s.values(),
                    None => Seq::empty(),
                };
                assert(self.up_to(i + 1) == before + here);
                assert forall|j: int| 0 <= j < out@.len() implies *(#[trigger] out@[j])
                    == self.up_to(i + 1)[j] by {
                    if j >= before.len() {
                        assert(*out@[before.len() + (j - before.len())] == here[j - before.len()]);
                    }
                }
            }
            i = i + 1;
        }
        out
    }
}

} // verus!
