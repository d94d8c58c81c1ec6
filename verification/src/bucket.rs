//! The value tree: a schema-free nested record that every source is collected into.

use crate::text::str_eq;
use vstd::prelude::*;
use vstd::set_lib::lemma_subset_equality;
use vstd::std_specs::cmp::PartialEqSpec;
use vstd::std_specs::cmp::PartialEqSpecImpl;

verus! {

/// What a [`Value`] holds, as a mathematical value.
pub enum ValueView {
    String(Seq<char>),
    Bool(bool),
    List(Seq<Seq<char>>),
    Bucket(Map<Seq<char>, ValueView>),
}

/// What a [`Bucket`] holds: a finite map from key to value.
pub type BucketView = Map<Seq<char>, ValueView>;

/// One value of the tree.
#[derive(Debug)]
pub enum Value {
    String(String),
    Bool(bool),
    List(Vec<String>),
    Bucket(Bucket),
}

/// A mapping from string keys to values; a value may itself be a bucket.
///
/// A bucket keeps its entries in the order in which their keys were first
/// set. Two buckets are equal when they map the same keys to equal values,
/// whatever the order.
#[derive(Debug)]
pub struct Bucket {
    keys: Vec<String>,
    values: Vec<Value>,
}

/// The map that the first `n` keys with their values describe.
spec fn paired_view(keys: Seq<String>, values: Seq<Value>, n: nat) -> BucketView
    decreases values, n,
{
    if n == 0 || n > keys.len() || n > values.len() {
        Map::empty()
    } else {
        paired_view(keys, values, (n - 1) as nat).insert(keys[n - 1]@, values[n - 1]@)
    }
}

/// No key stands twice in the list.
pub open spec fn distinct_keys(entries: Seq<(Seq<char>, Value)>) -> bool {
    forall|i: int, j: int| 0 <= i < j < entries.len() ==> entries[i].0 != entries[j].0
}

/// The place of `key` in the list, if it has one.
pub open spec fn position_of(entries: Seq<(Seq<char>, Value)>, key: Seq<char>) -> Option<int> {
    if exists|i: int| 0 <= i < entries.len() && (#[trigger] entries[i]).0 == key {
        Some(choose|i: int| 0 <= i < entries.len() && (#[trigger] entries[i]).0 == key)
    } else {
        None
    }
}

/// The list after `value` was stored under `key`: in the place that the key
/// had, or at the end.
pub open spec fn entries_with(
    entries: Seq<(Seq<char>, Value)>,
    key: Seq<char>,
    value: Value,
) -> Seq<(Seq<char>, Value)> {
    match position_of(entries, key) {
        Some(i) => entries.update(i, (key, value)),
        None => entries.push((key, value)),
    }
}

/// The place of `key` in a list of keys with the views of their values.
pub open spec fn listed_at(listing: Seq<(Seq<char>, ValueView)>, key: Seq<char>) -> Option<int> {
    if exists|i: int| 0 <= i < listing.len() && (#[trigger] listing[i]).0 == key {
        Some(choose|i: int| 0 <= i < listing.len() && (#[trigger] listing[i]).0 == key)
    } else {
        None
    }
}

/// The list after `value` was stored under `key`: in the place that the key
/// had, or at the end.
pub open spec fn listing_with(
    listing: Seq<(Seq<char>, ValueView)>,
    key: Seq<char>,
    value: ValueView,
) -> Seq<(Seq<char>, ValueView)> {
    match listed_at(listing, key) {
        Some(i) => listing.update(i, (key, value)),
        None => listing.push((key, value)),
    }
}

/// After storing under `key`, the list holds that key and the keys that it
/// held before, each once more in its old place.
pub proof fn lemma_listing_with_keys(
    listing: Seq<(Seq<char>, ValueView)>,
    key: Seq<char>,
    value: ValueView,
    other: Seq<char>,
)
    ensures
        listed_at(listing_with(listing, key, value), other) is Some <==> (other == key
            || listed_at(listing, other) is Some),
{
    let after = listing_with(listing, key, value);
    match listed_at(listing, key) {
        Some(place) => {
            if other == key {
                assert(after[place].0 == other);
            } else if listed_at(listing, other) is Some {
                let i = listed_at(listing, other)->0;
                assert(after[i].0 == other);
            }
        },
        None => {
            if other == key {
                assert(after[listing.len() as int].0 == other);
            } else if listed_at(listing, other) is Some {
                let i = listed_at(listing, other)->0;
                assert(after[i].0 == other);
            }
        },
    }
}

/// No key stands twice in the list.
pub open spec fn distinct_listing(listing: Seq<(Seq<char>, ValueView)>) -> bool {
    forall|i: int, j: int| 0 <= i < j < listing.len() ==> listing[i].0 != listing[j].0
}

/// The value that the list holds for `key`, if it holds the key.
pub open spec fn listed_value(listing: Seq<(Seq<char>, ValueView)>, key: Seq<char>) -> Option<
    ValueView,
> {
    match listed_at(listing, key) {
        Some(i) => Some(listing[i].1),
        None => None,
    }
}

/// After storing under `key`, a list without double keys still has none,
/// holds the stored value for `key`, and holds for every other key what it
/// held before.
pub proof fn lemma_listing_with_values(
    listing: Seq<(Seq<char>, ValueView)>,
    key: Seq<char>,
    value: ValueView,
    other: Seq<char>,
)
    requires
        distinct_listing(listing),
    ensures
        distinct_listing(listing_with(listing, key, value)),
        listed_value(listing_with(listing, key, value), key) == Some(value),
        other != key ==> listed_value(listing_with(listing, key, value), other) == listed_value(
            listing,
            other,
        ),
{
    let after = listing_with(listing, key, value);
    lemma_listing_with_keys(listing, key, value, key);
    lemma_listing_with_keys(listing, key, value, other);
    match listed_at(listing, key) {
        Some(place) => {
            assert(listing[place].0 == key);
            assert(after =~= listing.update(place, (key, value)));
            assert forall|i: int, j: int| 0 <= i < j < after.len() implies after[i].0
                != after[j].0 by {
                assert(after[i].0 == listing[i].0);
                assert(after[j].0 == listing[j].0);
            }
            let seen = listed_at(after, key)->0;
            assert(after[seen].0 == key);
            assert(after[place].0 == key);
            assert(seen == place);
            if other != key && listed_at(listing, other) is Some {
                let i = listed_at(listing, other)->0;
                let j = listed_at(after, other)->0;
                assert(listing[i].0 == other);
                assert(after[j].0 == other);
                assert(after[i].0 == other);
                assert(i == j);
            }
        },
        None => {
            assert(after =~= listing.push((key, value)));
            assert forall|i: int, j: int| 0 <= i < j < after.len() implies after[i].0
                != after[j].0 by {
                if j < listing.len() {
                    assert(after[i] == listing[i] && after[j] == listing[j]);
                } else {
                    assert(listing[i].0 != key);
                }
            }
            let seen = listed_at(after, key)->0;
            assert(after[seen].0 == key);
            assert(after[listing.len() as int].0 == key);
            assert(seen == listing.len());
            if other != key && listed_at(listing, other) is Some {
                let i = listed_at(listing, other)->0;
                let j = listed_at(after, other)->0;
                assert(listing[i].0 == other);
                assert(after[j].0 == other);
                assert(after[i].0 == other);
                assert(i == j);
            }
        },
    }
}

/// The map of a list without double keys holds for each key what the list
/// holds for it.
pub proof fn lemma_map_of_values(listing: Seq<(Seq<char>, ValueView)>, key: Seq<char>)
    requires
        distinct_listing(listing),
    ensures
        lookup(map_of(listing), key) == listed_value(listing, key),
    decreases listing.len(),
{
    if listing.len() > 0 {
        let shorter = listing.drop_last();
        let last = listing.len() - 1;
        assert forall|i: int, j: int| 0 <= i < j < shorter.len() implies shorter[i].0
            != shorter[j].0 by {
            assert(shorter[i] == listing[i] && shorter[j] == listing[j]);
        }
        lemma_map_of_values(shorter, key);
        if listing[last].0 == key {
            let seen = listed_at(listing, key)->0;
            assert(listing[seen].0 == key);
            assert(seen == last);
        } else if listed_at(listing, key) is Some {
            let seen = listed_at(listing, key)->0;
            assert(listing[seen].0 == key);
            assert(shorter[seen].0 == key);
            let found = listed_at(shorter, key)->0;
            assert(shorter[found].0 == key);
            assert(listing[found].0 == key);
            assert(found == seen);
        } else {
            if listed_at(shorter, key) is Some {
                let found = listed_at(shorter, key)->0;
                assert(shorter[found].0 == key);
                assert(listing[found].0 == key);
            }
        }
    }
}

/// The map that a list of keys with values describes; where a key stands
/// twice, the later value counts.
pub open spec fn map_of(listing: Seq<(Seq<char>, ValueView)>) -> BucketView
    decreases listing.len(),
{
    if listing.len() == 0 {
        Map::empty()
    } else {
        map_of(listing.drop_last()).insert(listing.last().0, listing.last().1)
    }
}

/// What is stored under `key` in a map of views.
pub open spec fn lookup(bucket: BucketView, key: Seq<char>) -> Option<ValueView> {
    if bucket.contains_key(key) {
        Some(bucket[key])
    } else {
        None
    }
}

/// The last write for a key wins: after a value was stored under a key, a
/// lookup of the key gives that value, and a lookup of any other key gives
/// what it gave before.
pub proof fn law_last_write_wins(
    before: BucketView,
    key: Seq<char>,
    value: ValueView,
    other: Seq<char>,
)
    ensures
        lookup(before.insert(key, value), key) == Some(value),
        other != key ==> lookup(before.insert(key, value), other) == lookup(before, other),
{
}

impl View for Value {
    type V = ValueView;

    open spec fn view(&self) -> ValueView
        decreases self, 0nat,
    {
        match self {
            Value::String(text) => ValueView::String(text@),
            Value::Bool(flag) => ValueView::Bool(*flag),
            Value::List(items) => ValueView::List(items.deep_view()),
            Value::Bucket(bucket) => ValueView::Bucket(bucket@),
        }
    }
}

impl View for Bucket {
    type V = BucketView;

    closed spec fn view(&self) -> BucketView
        decreases self, 0nat,
    {
        paired_view(self.keys@, self.values@, self.values@.len())
    }
}

spec fn keys_differ(keys: Seq<String>) -> bool {
    forall|i: int, j: int| 0 <= i < j < keys.len() ==> keys[i]@ != keys[j]@
}

proof fn lemma_paired_view(keys: Seq<String>, values: Seq<Value>, n: nat)
    requires
        n <= keys.len(),
        n <= values.len(),
        keys_differ(keys),
    ensures
        paired_view(keys, values, n).dom().finite(),
        paired_view(keys, values, n).dom().len() == n,
        forall|k: Seq<char>| #[trigger]
            paired_view(keys, values, n).contains_key(k) <==> exists|i: int|
                0 <= i < n && (#[trigger] keys[i])@ == k,
        forall|i: int|
            0 <= i < n ==> paired_view(keys, values, n).contains_key((#[trigger] keys[i])@)
                && paired_view(keys, values, n)[keys[i]@] == values[i]@,
    decreases n,
{
    if n > 0 {
        let before = paired_view(keys, values, (n - 1) as nat);
        lemma_paired_view(keys, values, (n - 1) as nat);
        let key = keys[n - 1]@;
        assert(paired_view(keys, values, n) == before.insert(key, values[n - 1]@));
    }
}

/// A map that holds exactly the listed keys, each with the view of its
/// value, is the view of the list.
proof fn lemma_view_is(keys: Seq<String>, values: Seq<Value>, map: BucketView)
    requires
        keys.len() == values.len(),
        keys_differ(keys),
        forall|k: Seq<char>| #[trigger]
            map.contains_key(k) ==> exists|i: int| 0 <= i < keys.len() && (#[trigger] keys[i])@ == k,
        forall|i: int|
            0 <= i < keys.len() ==> map.contains_key((#[trigger] keys[i])@) && map[keys[i]@]
                == values[i]@,
    ensures
        paired_view(keys, values, values.len()) == map,
{
    lemma_paired_view(keys, values, values.len());
}

impl Bucket {
    #[verifier::type_invariant]
    spec fn paired(&self) -> bool {
        self.keys@.len() == self.values@.len() && keys_differ(self.keys@)
    }

    /// The entries in the order in which their keys were first set.
    pub closed spec fn entries(&self) -> Seq<(Seq<char>, Value)> {
        Seq::new(self.values@.len(), |i: int| (self.keys@[i]@, self.values@[i]))
    }

    /// The value stored under `key`, if there is one.
    pub open spec fn stored(&self, key: Seq<char>) -> Option<Value> {
        match position_of(self.entries(), key) {
            Some(i) => Some(self.entries()[i].1),
            None => None,
        }
    }

    /// The entries with each value taken by its view.
    pub open spec fn listing(&self) -> Seq<(Seq<char>, ValueView)> {
        Seq::new(self.entries().len(), |i: int| (self.entries()[i].0, self.entries()[i].1@))
    }

    /// The entries list each key once, and the view maps each listed key to
    /// the view of its value and holds no other key.
    pub open spec fn consistent(&self) -> bool {
        &&& distinct_keys(self.entries())
        &&& self@ == map_of(self.listing())
        &&& self@.dom().finite()
        &&& self@.dom().len() == self.entries().len()
        &&& forall|k: Seq<char>| #[trigger] self@.contains_key(k) <==> self.stored(k) is Some
        &&& forall|i: int|
            0 <= i < self.entries().len() ==> {
                &&& self@.contains_key((#[trigger] self.entries()[i]).0)
                &&& self@[self.entries()[i].0] == self.entries()[i].1@
                &&& self.stored(self.entries()[i].0) == Some(self.entries()[i].1)
            }
    }

    proof fn lemma_map_of_listing(&self, n: nat)
        requires
            self.keys@.len() == self.values@.len(),
            n <= self.values@.len(),
        ensures
            paired_view(self.keys@, self.values@, n) == map_of(self.listing().take(n as int)),
        decreases n,
    {
        if n > 0 {
            self.lemma_map_of_listing((n - 1) as nat);
            let upto = self.listing().take(n as int);
            assert(upto.drop_last() =~= self.listing().take(n - 1));
        }
    }

    proof fn lemma_consistent(&self)
        requires
            self.paired(),
        ensures
            self.consistent(),
    {
        let keys = self.keys@;
        lemma_paired_view(keys, self.values@, keys.len());
        self.lemma_map_of_listing(keys.len());
        assert(self.listing().take(keys.len() as int) =~= self.listing());
        let listed = self.entries();
        assert forall|i: int| 0 <= i < listed.len() implies self.stored((#[trigger] listed[i]).0)
            == Some(listed[i].1) by {
        }
        assert forall|k: Seq<char>| #[trigger] self@.contains_key(k) implies self.stored(k)
            is Some by {
            let i = choose|i: int| 0 <= i < keys.len() && (#[trigger] keys[i])@ == k;
            assert(listed[i].0 == k);
        }
        assert forall|k: Seq<char>| self.stored(k) is Some implies #[trigger] self@.contains_key(
            k,
        ) by {
        }
    }

    /// An empty bucket.
    pub fn new() -> (bucket: Bucket)
        ensures
            bucket@ == Map::<Seq<char>, ValueView>::empty(),
            bucket.entries() == Seq::<(Seq<char>, Value)>::empty(),
            bucket.listing() == Seq::<(Seq<char>, ValueView)>::empty(),
            bucket.consistent(),
    {
        let bucket = Bucket { keys: Vec::new(), values: Vec::new() };
        bucket
    }

    /// The number of entries.
    pub fn len(&self) -> (count: usize)
        ensures
            count == self.entries().len(),
            self.consistent(),
    {
        proof {
            use_type_invariant(self);
            self.lemma_consistent();
        }
        self.values.len()
    }

    /// The key of the entry at `index`.
    pub fn key_at(&self, index: usize) -> (key: &str)
        requires
            index < self.entries().len(),
        ensures
            key@ == self.entries()[index as int].0,
    {
        proof {
            use_type_invariant(self);
        }
        self.keys[index].as_str()
    }

    /// The value of the entry at `index`.
    pub fn value_at(&self, index: usize) -> (value: &Value)
        requires
            index < self.entries().len(),
        ensures
            *value == self.entries()[index as int].1,
    {
        &self.values[index]
    }

    /// Where the entry with `key` stands.
    fn find(&self, key: &str) -> (place: Option<usize>)
        ensures
            match place {
                Some(i) => i < self.keys@.len() && self.keys@[i as int]@ == key@,
                None => forall|i: int| 0 <= i < self.keys@.len() ==> self.keys@[i]@ != key@,
            },
    {
        let mut i: usize = 0;
        while i < self.keys.len()
            invariant
                i <= self.keys@.len(),
                forall|j: int| 0 <= j < i ==> self.keys@[j]@ != key@,
            decreases self.keys@.len() - i,
        {
            if str_eq(self.keys[i].as_str(), key) {
                return Some(i);
            }
            i += 1;
        }
        None
    }

    /// The value stored under `key`, or `None` where the key is unknown.
    pub fn get(&self, key: &str) -> (found: Option<&Value>)
        ensures
            self.consistent(),
            match found {
                Some(value) => self.stored(key@) == Some(*value) && lookup(self@, key@) == Some(
                    value@,
                ),
                None => self.stored(key@) is None && lookup(self@, key@) is None,
            },
    {
        proof {
            use_type_invariant(self);
            self.lemma_consistent();
        }
        match self.find(key) {
            Some(i) => {
                assert(self.entries()[i as int].0 == key@);
                Some(&self.values[i])
            },
            None => {
                assert forall|i: int| 0 <= i < self.entries().len() implies (
                #[trigger] self.entries()[i]).0 != key@ by {
                }
                None
            },
        }
    }

    /// After `value` has taken the place of what the entry at `place` held,
    /// the view is the old one with `value` stored under that entry's key.
    proof fn lemma_view_after_update(
        keys: Seq<String>,
        values: Seq<Value>,
        place: int,
        value: Value,
    )
        requires
            keys.len() == values.len(),
            keys_differ(keys),
            0 <= place < keys.len(),
        ensures
            paired_view(keys, values.update(place, value), keys.len()) == paired_view(
                keys,
                values,
                keys.len(),
            ).insert(keys[place]@, value@),
    {
        let after = values.update(place, value);
        let map = paired_view(keys, values, keys.len()).insert(keys[place]@, value@);
        lemma_paired_view(keys, values, keys.len());
        assert forall|i: int| 0 <= i < keys.len() implies map.contains_key((#[trigger] keys[i])@)
            && map[keys[i]@] == after[i]@ by {
        }
        lemma_view_is(keys, after, map);
    }

    /// After a new key with its value has been put at the end, the view is
    /// the old one with the value stored under the key.
    proof fn lemma_view_after_push(keys: Seq<String>, values: Seq<Value>, key: String, value: Value)
        requires
            keys.len() == values.len(),
            keys_differ(keys),
            forall|i: int| 0 <= i < keys.len() ==> keys[i]@ != key@,
        ensures
            keys_differ(keys.push(key)),
            paired_view(keys.push(key), values.push(value), keys.len() + 1) == paired_view(
                keys,
                values,
                keys.len(),
            ).insert(key@, value@),
    {
        let more_keys = keys.push(key);
        let more_values = values.push(value);
        let map = paired_view(keys, values, keys.len()).insert(key@, value@);
        lemma_paired_view(keys, values, keys.len());
        assert forall|k: Seq<char>| #[trigger] map.contains_key(k) implies exists|i: int|
            0 <= i < more_keys.len() && (#[trigger] more_keys[i])@ == k by {
            if k == key@ {
                assert(more_keys[keys.len() as int]@ == k);
            } else {
                let i = choose|i: int| 0 <= i < keys.len() && (#[trigger] keys[i])@ == k;
                assert(more_keys[i]@ == k);
            }
        }
        assert forall|i: int| 0 <= i < more_keys.len() implies map.contains_key(
            (#[trigger] more_keys[i])@,
        ) && map[more_keys[i]@] == more_values[i]@ by {
        }
        lemma_view_is(more_keys, more_values, map);
    }

    /// The value stored under `key`, to be changed in place. What the caller
    /// leaves there is what the bucket then holds under the key.
    pub fn get_mut(&mut self, key: &str) -> (found: Option<&mut Value>)
        ensures
            match found {
                Some(value) => {
                    &&& old(self).stored(key@) == Some(*value)
                    &&& lookup(old(self)@, key@) == Some(value@)
                    &&& final(self).entries() == entries_with(
                        old(self).entries(),
                        key@,
                        *final(value),
                    )
                    &&& final(self)@ == old(self)@.insert(key@, final(value)@)
                },
                None => {
                    &&& old(self).stored(key@) is None
                    &&& lookup(old(self)@, key@) is None
                    &&& *final(self) == *old(self)
                },
            },
    {
        proof {
            use_type_invariant(&*self);
            self.lemma_consistent();
        }
        let ghost listed = self.entries();
        match self.find(key) {
            Some(i) => {
                assert(listed[i as int].0 == key@);
                let value = &mut self.values[i];
                proof {
                    Self::lemma_view_after_update(
                        old(self).keys@,
                        old(self).values@,
                        i as int,
                        *final(value),
                    );
                }
                Some(value)
            },
            None => {
                assert forall|i: int| 0 <= i < listed.len() implies (#[trigger] listed[i]).0
                    != key@ by {
                }
                None
            },
        }
    }

    /// Stores `value` under `key`, in place of what the key held before.
    pub fn set(&mut self, key: &str, value: Value)
        ensures
            final(self)@ == old(self)@.insert(key@, value@),
            final(self).entries() == entries_with(old(self).entries(), key@, value),
            final(self).listing() == listing_with(old(self).listing(), key@, value@),
            final(self).consistent(),
    {
        proof {
            use_type_invariant(&*self);
        }
        let ghost listed = self.entries();
        match self.find(key) {
            Some(i) => {
                proof {
                    Self::lemma_view_after_update(self.keys@, self.values@, i as int, value);
                }
                let ghost views = self.listing();
                assert(views[i as int].0 == key@);
                self.values[i] = value;
            },
            None => {
                assert forall|i: int| 0 <= i < listed.len() implies (#[trigger] listed[i]).0
                    != key@ by {
                }
                let name = key.to_owned();
                let ghost views = self.listing();
                assert(listed_at(views, key@) is None) by {
                }
                proof {
                    Self::lemma_view_after_push(self.keys@, self.values@, name, value);
                }
                let mut taken = Bucket { keys: Vec::new(), values: Vec::new() };
                core::mem::swap(self, &mut taken);
                let Bucket { mut keys, mut values } = taken;
                keys.push(name);
                values.push(value);
                *self = Bucket { keys, values };
            },
        }
        proof {
            self.lemma_consistent();
        }
    }

    /// The text stored under `key`, or `None` where the key holds another
    /// kind of value.
    pub fn get_string(&self, key: &str) -> (found: Option<&String>)
        requires
            self@.contains_key(key@),
        ensures
            self.consistent(),
            match found {
                Some(text) => self.stored(key@) == Some(Value::String(*text)) && self@[key@]
                    == ValueView::String(text@),
                None => !(self.stored(key@)->0 is String) && !(self@[key@] is String),
            },
    {
        match self.get(key) {
            Some(Value::String(text)) => Some(text),
            _ => None,
        }
    }

    /// The bucket stored under `key`, or `None` where the key holds another
    /// kind of value.
    pub fn get_bucket(&self, key: &str) -> (found: Option<&Bucket>)
        requires
            self@.contains_key(key@),
        ensures
            self.consistent(),
            match found {
                Some(inner) => self.stored(key@) == Some(Value::Bucket(*inner)) && self@[key@]
                    == ValueView::Bucket(inner@),
                None => !(self.stored(key@)->0 is Bucket) && !(self@[key@] is Bucket),
            },
    {
        match self.get(key) {
            Some(Value::Bucket(inner)) => Some(inner),
            _ => None,
        }
    }
}

/// Whether two lists hold the same texts in the same order.
fn same_texts(left: &Vec<String>, right: &Vec<String>) -> (same: bool)
    ensures
        same == (left.deep_view() == right.deep_view()),
{
    if left.len() != right.len() {
        assert(left.deep_view().len() != right.deep_view().len());
        return false;
    }
    let mut i: usize = 0;
    while i < left.len()
        invariant
            left.len() == right.len(),
            i <= left.len(),
            forall|j: int| 0 <= j < i ==> left@[j]@ == right@[j]@,
        decreases left.len() - i,
    {
        if left[i] != right[i] {
            assert(left.deep_view()[i as int] != right.deep_view()[i as int]);
            return false;
        }
        i += 1;
    }
    assert(left.deep_view() =~= right.deep_view());
    true
}

/// A copy of a list of texts.
fn copy_texts(items: &Vec<String>) -> (copy: Vec<String>)
    ensures
        copy.deep_view() == items.deep_view(),
{
    let mut copy: Vec<String> = Vec::new();
    let mut i: usize = 0;
    while i < items.len()
        invariant
            i <= items.len(),
            copy.len() == i,
            forall|j: int| 0 <= j < i ==> copy@[j]@ == items@[j]@,
        decreases items.len() - i,
    {
        copy.push(items[i].clone());
        i += 1;
    }
    copy
}

impl Value {
    /// Whether the two values hold the same, nested buckets compared as maps.
    fn same(&self, other: &Value) -> (same: bool)
        ensures
            same == (self@ == other@),
        decreases self,
    {
        match (self, other) {
            (Value::String(a), Value::String(b)) => *a == *b,
            (Value::Bool(a), Value::Bool(b)) => *a == *b,
            (Value::List(a), Value::List(b)) => same_texts(a, b),
            (Value::Bucket(a), Value::Bucket(b)) => a.same(b),
            _ => false,
        }
    }
}

impl Bucket {
    /// Whether the two buckets map the same keys to equal values.
    fn same(&self, other: &Bucket) -> (same: bool)
        ensures
            same == (self@ == other@),
        decreases self,
    {
        proof {
            use_type_invariant(self);
            use_type_invariant(other);
            self.lemma_consistent();
            other.lemma_consistent();
        }
        if self.values.len() != other.values.len() {
            return false;
        }
        let mut i: usize = 0;
        while i < self.values.len()
            invariant
                i <= self.values.len(),
                self.paired(),
                self.consistent(),
                other.consistent(),
                forall|j: int|
                    0 <= j < i ==> other@.contains_key((#[trigger] self.keys@[j])@) && other@[self.keys@[j]@]
                        == self.values@[j]@,
            decreases self.values.len() - i,
        {
            assert(self.entries()[i as int].0 == self.keys@[i as int]@);
            match other.get(self.keys[i].as_str()) {
                None => {
                    return false;
                },
                Some(value) => {
                    if !self.values[i].same(value) {
                        return false;
                    }
                },
            }
            i += 1;
        }
        proof {
            lemma_subset_equality(self@.dom(), other@.dom());
            assert(self@ =~= other@);
        }
        true
    }
}

impl PartialEq for Value {
    fn eq(&self, other: &Value) -> (same: bool) {
        self.same(other)
    }
}

impl PartialEqSpecImpl for Value {
    open spec fn obeys_eq_spec() -> bool {
        true
    }

    open spec fn eq_spec(&self, other: &Value) -> bool {
        self@ == other@
    }
}

impl PartialEq for Bucket {
    fn eq(&self, other: &Bucket) -> (same: bool) {
        self.same(other)
    }
}

impl PartialEqSpecImpl for Bucket {
    open spec fn obeys_eq_spec() -> bool {
        true
    }

    open spec fn eq_spec(&self, other: &Bucket) -> bool {
        self@ == other@
    }
}

impl Clone for Value {
    /// A deep copy: it holds what this value holds.
    fn clone(&self) -> (copy: Value)
        ensures
            copy@ == self@,
            PartialEqSpec::eq_spec(&copy, self),
        decreases self,
    {
        match self {
            Value::String(text) => Value::String(text.clone()),
            Value::Bool(flag) => Value::Bool(*flag),
            Value::List(items) => Value::List(copy_texts(items)),
            Value::Bucket(bucket) => Value::Bucket(bucket.clone()),
        }
    }
}

impl Clone for Bucket {
    /// A deep copy: it lists the same keys with the same values in the same
    /// order, and compares equal to this bucket.
    fn clone(&self) -> (copy: Bucket)
        ensures
            copy@ == self@,
            copy.listing() == self.listing(),
            copy.consistent(),
            PartialEqSpec::eq_spec(&copy, self),
        decreases self,
    {
        proof {
            use_type_invariant(self);
            lemma_paired_view(self.keys@, self.values@, self.keys@.len());
        }
        let mut keys: Vec<String> = Vec::new();
        let mut values: Vec<Value> = Vec::new();
        let mut i: usize = 0;
        while i < self.values.len()
            invariant
                i <= self.values.len(),
                self.paired(),
                keys.len() == i,
                values.len() == i,
                forall|j: int| 0 <= j < i ==> keys@[j] == self.keys@[j],
                forall|j: int| 0 <= j < i ==> values@[j]@ == self.values@[j]@,
            decreases self.values.len() - i,
        {
            keys.push(self.keys[i].clone());
            values.push(self.values[i].clone());
            i += 1;
        }
        proof {
            assert(keys@ =~= self.keys@);
            lemma_view_is(keys@, values@, self@);
        }
        let copy = Bucket { keys, values };
        proof {
            copy.lemma_consistent();
        }
        copy
    }
}

} // verus!
