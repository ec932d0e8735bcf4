use vstd::prelude::*;
use crate::http::text::{
    first_of, lemma_first_of_bounds, lemma_first_of_is, lemma_split_first_of_concat, split_first,
    split_once, str_eq,
};

verus! {

/// What is recorded for one key of a query.
#[derive(Debug)]
pub enum Value<'rs> {
    /// The key has one value.
    One(&'rs str),
    /// The key was repeated: its values, in the order in which they came.
    Multiple(Vec<&'rs str>),
    /// The key is there and has no value.
    Empty,
}

/// The shape of a `Value` as plain text.
pub enum Shape {
    One(Seq<char>),
    Multiple(Seq<Seq<char>>),
    Empty,
}

impl<'rs> View for Value<'rs> {
    type V = Shape;

    open spec fn view(&self) -> Shape {
        match self {
            Value::One(v) => Shape::One(v@),
            Value::Multiple(vs) => Shape::Multiple(Seq::new(vs@.len(), |i: int| vs@[i]@)),
            Value::Empty => Shape::Empty,
        }
    }
}

/// The key and the value of one `&`-separated piece of a query: the text
/// before its first `=` and all the text after it, further `=` included. A
/// piece without `=` is all key, and its value is empty.
pub open spec fn pair_of(piece: Seq<char>) -> (Seq<char>, Seq<char>) {
    match split_first(piece, '=', '=') {
        Some((key, value)) => (key, value),
        None => (piece, Seq::empty()),
    }
}

/// The pairs of a query, one for each of its `&`-separated pieces, in order.
/// A query without `&` is one piece, the empty query too.
pub open spec fn pairs_of(s: Seq<char>) -> Seq<(Seq<char>, Seq<char>)>
    decreases s.len(),
{
    let i = first_of(s, '&', '&');
    if 0 <= i < s.len() {
        seq![pair_of(s.take(i))] + pairs_of(s.skip(i + 1))
    } else {
        seq![pair_of(s)]
    }
}

/// The values that `pairs` give to `key`, in order.
pub open spec fn values_of(pairs: Seq<(Seq<char>, Seq<char>)>, key: Seq<char>) -> Seq<Seq<char>>
    decreases pairs.len(),
{
    if pairs.len() == 0 {
        Seq::empty()
    } else if pairs.last().0 == key {
        values_of(pairs.drop_last(), key).push(pairs.last().1)
    } else {
        values_of(pairs.drop_last(), key)
    }
}

/// The shape that a key's values take, the key occurring at least once.
///
/// A first occurrence without a value does not count where others follow.
/// Of what then counts: nothing is `Empty`, one value is `One`, more are
/// `Multiple`. So a lone empty value is `Empty`, and an empty value followed
/// by a single other one is `One`.
pub open spec fn shape_of(values: Seq<Seq<char>>) -> Shape
    recommends
        values.len() > 0,
{
    let counted = if values[0].len() == 0 {
        values.skip(1)
    } else {
        values
    };
    if counted.len() == 0 {
        Shape::Empty
    } else if counted.len() == 1 {
        Shape::One(counted[0])
    } else {
        Shape::Multiple(counted)
    }
}

/// The map that a sequence of pairs amounts to: each key that occurs, with
/// the shape of its values.
pub open spec fn tally(pairs: Seq<(Seq<char>, Seq<char>)>) -> Map<Seq<char>, Shape> {
    Map::new(
        |key: Seq<char>| values_of(pairs, key).len() > 0,
        |key: Seq<char>| shape_of(values_of(pairs, key)),
    )
}

/// What a query fragment parses to.
pub open spec fn parse_query(s: Seq<char>) -> Map<Seq<char>, Shape> {
    tally(pairs_of(s))
}

/// The shape of a key's first value.
pub open spec fn first_shape(value: Seq<char>) -> Shape {
    if value.len() == 0 {
        Shape::Empty
    } else {
        Shape::One(value)
    }
}

/// The shape of a key after one more value.
pub open spec fn next_shape(shape: Shape, value: Seq<char>) -> Shape {
    match shape {
        Shape::Empty => Shape::One(value),
        Shape::One(prev) => Shape::Multiple(seq![prev, value]),
        Shape::Multiple(all) => Shape::Multiple(all.push(value)),
    }
}

/// A piece is cut at its first `=` only: the value is all that follows it,
/// further `=` included.
pub proof fn lemma_pair_of_concat(key: Seq<char>, value: Seq<char>)
    requires
        forall|k: int| 0 <= k < key.len() ==> key[k] != '=',
    ensures
        pair_of(key + seq!['='] + value) == (key, value),
{
    lemma_split_first_of_concat(key, '=', value, '=', '=');
}

/// A query is cut at each `&`: what stands before the first one is the
/// first piece, and what follows it is a query of its own.
pub proof fn lemma_pairs_of_concat(piece: Seq<char>, more: Seq<char>)
    requires
        forall|k: int| 0 <= k < piece.len() ==> piece[k] != '&',
    ensures
        pairs_of(piece) == seq![pair_of(piece)],
        pairs_of(piece + seq!['&'] + more) == seq![pair_of(piece)] + pairs_of(more),
{
    lemma_first_of_is(piece, '&', '&', piece.len() as int);
    lemma_split_first_of_concat(piece, '&', more, '&', '&');
    lemma_first_of_bounds(piece + seq!['&'] + more, '&', '&');
}

/// The shape of a key by the number of its occurrences: a key that occurs
/// once is `One` where it has a value and `Empty` where it has none; a key
/// that occurs again after a first occurrence with a value is `Multiple`,
/// with all its values in order; after a first occurrence without a value,
/// the values that follow count alone.
pub proof fn lemma_shape_of_occurrences(values: Seq<Seq<char>>)
    requires
        values.len() > 0,
    ensures
        values.len() == 1 && values[0].len() > 0 ==> shape_of(values) == Shape::One(values[0]),
        values.len() == 1 && values[0].len() == 0 ==> shape_of(values) == Shape::Empty,
        values.len() >= 2 && values[0].len() > 0 ==> shape_of(values) == Shape::Multiple(values),
        values.len() == 2 && values[0].len() == 0 ==> shape_of(values) == Shape::One(values[1]),
        values.len() > 2 && values[0].len() == 0 ==> shape_of(values) == Shape::Multiple(
            values.skip(1),
        ),
{
}

/// One more value takes a key's shape one step on.
pub proof fn lemma_shape_of_push(values: Seq<Seq<char>>, value: Seq<char>)
    ensures
        shape_of(values.push(value)) == if values.len() == 0 {
            first_shape(value)
        } else {
            next_shape(shape_of(values), value)
        },
{
    let more = values.push(value);
    if values.len() == 0 {
        assert(more.skip(1) =~= Seq::empty());
    } else if values[0].len() == 0 {
        let counted = values.skip(1);
        assert(more.skip(1) =~= counted.push(value));
        if counted.len() == 1 {
            assert(counted.push(value) =~= seq![counted[0], value]);
        }
    } else {
        if values.len() == 1 {
            assert(more =~= seq![values[0], value]);
        }
    }
}

/// One more pair adds its value to its own key and leaves the others.
pub proof fn lemma_values_of_push(
    pairs: Seq<(Seq<char>, Seq<char>)>,
    key: Seq<char>,
    value: Seq<char>,
    other: Seq<char>,
)
    ensures
        values_of(pairs.push((key, value)), other) == if other == key {
            values_of(pairs, other).push(value)
        } else {
            values_of(pairs, other)
        },
{
    let more = pairs.push((key, value));
    assert(more.drop_last() =~= pairs);
}

/// One key with its value.
#[derive(Debug)]
struct Entry<'rs> {
    key: &'rs str,
    value: Value<'rs>,
}

/// The keys and values of a query fragment. Keys and values are views into
/// the text that was parsed.
///
/// The entries are kept in a list, each key once: a query has few keys, and
/// a lookup walks the list.
#[derive(Debug)]
pub struct QueryString<'rs> {
    data: Vec<Entry<'rs>>,
}

/// Whether an entry of `entries` has the key `key`.
spec fn has_key(entries: Seq<Entry<'_>>, key: Seq<char>) -> bool {
    exists|i: int| 0 <= i < entries.len() && (#[trigger] entries[i]).key@ == key
}

/// The index of an entry with the key `key`.
spec fn index_of(entries: Seq<Entry<'_>>, key: Seq<char>) -> int {
    choose|i: int| 0 <= i < entries.len() && (#[trigger] entries[i]).key@ == key
}

/// No two entries have the same key.
spec fn distinct_keys(entries: Seq<Entry<'_>>) -> bool {
    forall|i: int, j: int|
        0 <= i < j < entries.len() ==> (#[trigger] entries[i]).key@ != (#[trigger] entries[j]).key@
}

/// The map that the entries stand for.
spec fn entries_map(entries: Seq<Entry<'_>>) -> Map<Seq<char>, Shape> {
    Map::new(
        |key: Seq<char>| has_key(entries, key),
        |key: Seq<char>| entries[index_of(entries, key)].value@,
    )
}

impl<'rs> View for QueryString<'rs> {
    type V = Map<Seq<char>, Shape>;

    closed spec fn view(&self) -> Map<Seq<char>, Shape> {
        entries_map(self.data@)
    }
}

/// With distinct keys, each entry is the one found under its key.
proof fn lemma_index_of(entries: Seq<Entry<'_>>, i: int)
    requires
        distinct_keys(entries),
        0 <= i < entries.len(),
    ensures
        has_key(entries, entries[i].key@),
        index_of(entries, entries[i].key@) == i,
{
    let key = entries[i].key@;
    let j = index_of(entries, key);
    assert(0 <= j < entries.len() && entries[j].key@ == key);
    if j < i {
        assert(entries[j].key@ != entries[i].key@);
    } else if i < j {
        assert(entries[i].key@ != entries[j].key@);
    }
}

/// With distinct keys there are as many keys as entries.
proof fn lemma_entries_map_len(entries: Seq<Entry<'_>>)
    requires
        distinct_keys(entries),
    ensures
        entries_map(entries).dom().finite(),
        entries_map(entries).dom().len() == entries.len(),
{
    let keys = Seq::new(entries.len(), |i: int| entries[i].key@);
    assert(keys.no_duplicates()) by {
        assert forall|i: int, j: int| 0 <= i < keys.len() && 0 <= j < keys.len() && i != j implies keys[i]
            != keys[j] by {
            if i < j {
                assert(entries[i].key@ != entries[j].key@);
            } else {
                assert(entries[j].key@ != entries[i].key@);
            }
        }
    }
    keys.unique_seq_to_set();
    assert(entries_map(entries).dom() =~= keys.to_set()) by {
        assert forall|key: Seq<char>| entries_map(entries).dom().contains(key)
            == keys.to_set().contains(key) by {
            if has_key(entries, key) {
                let i = index_of(entries, key);
                assert(keys[i] == key);
            }
            if keys.contains(key) {
                let i = choose|i: int| 0 <= i < keys.len() && keys[i] == key;
                assert(entries[i].key@ == key);
            }
        }
    }
}

/// What the entries stand for after one more occurrence of a key that one
/// of them has.
proof fn lemma_record_again(
    before: Seq<Entry<'_>>,
    after: Seq<Entry<'_>>,
    i: int,
    done: Seq<(Seq<char>, Seq<char>)>,
    key: Seq<char>,
    value: Seq<char>,
)
    requires
        distinct_keys(before),
        entries_map(before) == tally(done),
        0 <= i < before.len(),
        before[i].key@ == key,
        after.len() == before.len(),
        forall|j: int| 0 <= j < before.len() ==> (#[trigger] after[j]).key@ == before[j].key@,
        forall|j: int| 0 <= j < before.len() && j != i ==> (#[trigger] after[j]).value@ == before[j].value@,
        after[i].value@ == next_shape(before[i].value@, value),
    ensures
        distinct_keys(after),
        entries_map(after) == tally(done.push((key, value))),
{
    let more = done.push((key, value));
    assert(distinct_keys(after)) by {
        assert forall|a: int, b: int| 0 <= a < b < after.len() implies (#[trigger] after[a]).key@ != (
        #[trigger] after[b]).key@ by {
            assert(before[a].key@ != before[b].key@);
        }
    }
    lemma_index_of(before, i);
    assert forall|k: Seq<char>| has_key(after, k) == has_key(before, k) by {
        if has_key(after, k) {
            let j = index_of(after, k);
            assert(before[j].key@ == k);
        }
        if has_key(before, k) {
            let j = index_of(before, k);
            assert(after[j].key@ == k);
        }
    }
    assert forall|k: Seq<char>| #[trigger] has_key(after, k) implies after[index_of(after, k)].value@
        == shape_of(values_of(more, k)) by {
        let j = index_of(after, k);
        assert(before[j].key@ == k);
        lemma_index_of(before, j);
        lemma_values_of_push(done, key, value, k);
        assert(entries_map(before).dom().contains(k));
        assert(entries_map(before)[k] == before[j].value@);
        assert(tally(done)[k] == shape_of(values_of(done, k)));
        if j == i {
            lemma_shape_of_push(values_of(done, key), value);
        } else {
            if j < i {
                assert(before[j].key@ != before[i].key@);
            } else {
                assert(before[i].key@ != before[j].key@);
            }
        }
    }
    assert forall|k: Seq<char>| has_key(before, k) == (values_of(more, k).len() > 0) by {
        lemma_values_of_push(done, key, value, k);
        assert(entries_map(before).dom().contains(k) == has_key(before, k));
        assert(tally(done).dom().contains(k) == (values_of(done, k).len() > 0));
    }
    assert(entries_map(after) =~= tally(more));
}

/// What the entries stand for after the first occurrence of a key.
proof fn lemma_record_first(
    before: Seq<Entry<'_>>,
    after: Seq<Entry<'_>>,
    done: Seq<(Seq<char>, Seq<char>)>,
    key: Seq<char>,
    value: Seq<char>,
)
    requires
        distinct_keys(before),
        entries_map(before) == tally(done),
        forall|j: int| 0 <= j < before.len() ==> (#[trigger] before[j]).key@ != key,
        after.len() == before.len() + 1,
        forall|j: int| 0 <= j < before.len() ==> after[j] == before[j],
        after[before.len() as int].key@ == key,
        after[before.len() as int].value@ == first_shape(value),
    ensures
        distinct_keys(after),
        entries_map(after) == tally(done.push((key, value))),
{
    let more = done.push((key, value));
    let n = before.len() as int;
    assert(distinct_keys(after)) by {
        assert forall|a: int, b: int| 0 <= a < b < after.len() implies (#[trigger] after[a]).key@ != (
        #[trigger] after[b]).key@ by {
            if b < n {
                assert(before[a].key@ != before[b].key@);
            } else {
                assert(before[a].key@ != key);
            }
        }
    }
    assert(!has_key(before, key));
    assert(entries_map(before).dom().contains(key) == has_key(before, key));
    assert(tally(done).dom().contains(key) == (values_of(done, key).len() > 0));
    assert(values_of(done, key).len() == 0);
    lemma_index_of(after, n);
    assert forall|k: Seq<char>| has_key(after, k) == (k == key || has_key(before, k)) by {
        if has_key(after, k) && k != key {
            let j = index_of(after, k);
            assert(before[j].key@ == k);
        }
        if has_key(before, k) {
            let j = index_of(before, k);
            assert(after[j].key@ == k);
        }
    }
    assert forall|k: Seq<char>| #[trigger] has_key(after, k) implies after[index_of(after, k)].value@
        == shape_of(values_of(more, k)) by {
        let j = index_of(after, k);
        lemma_values_of_push(done, key, value, k);
        if k == key {
            lemma_shape_of_push(values_of(done, key), value);
        } else {
            assert(before[j].key@ == k);
            lemma_index_of(before, j);
            assert(entries_map(before).dom().contains(k));
            assert(entries_map(before)[k] == before[j].value@);
            assert(tally(done)[k] == shape_of(values_of(done, k)));
        }
    }
    assert forall|k: Seq<char>| (k == key || has_key(before, k)) == (values_of(more, k).len() > 0) by {
        lemma_values_of_push(done, key, value, k);
        assert(entries_map(before).dom().contains(k) == has_key(before, k));
        assert(tally(done).dom().contains(k) == (values_of(done, k).len() > 0));
    }
    assert(entries_map(after) =~= tally(more));
}

impl<'rs> QueryString<'rs> {
    #[verifier::type_invariant]
    spec fn distinct(&self) -> bool {
        distinct_keys(self.data@)
    }

    /// Looks a key up.
    pub fn get(&self, key: &str) -> (r: Option<&Value<'rs>>)
        ensures
            match r {
                Some(value) => self@.contains_key(key@) && value@ == self@[key@],
                None => !self@.contains_key(key@),
            },
    {
        proof {
            use_type_invariant(self);
        }
        let mut i: usize = 0;
        while i < self.data.len()
            invariant
                i <= self.data@.len(),
                distinct_keys(self.data@),
                forall|k: int| 0 <= k < i ==> (#[trigger] self.data@[k]).key@ != key@,
            decreases self.data@.len() - i,
        {
            if str_eq(self.data[i].key, key) {
                proof {
                    lemma_index_of(self.data@, i as int);
                }
                return Some(&self.data[i].value);
            }
            i += 1;
        }
        None
    }

    /// The number of keys.
    pub fn len(&self) -> (n: usize)
        ensures
            self@.dom().finite(),
            n == self@.len(),
    {
        proof {
            use_type_invariant(self);
            lemma_entries_map_len(self.data@);
        }
        self.data.len()
    }

    /// Parses a query fragment. Every text is a query.
    ///
    /// The fragment is cut into pieces at each `&`, and each piece into key
    /// and value at its first `=`. A key's first value, where it is not
    /// empty, is recorded as `One`; a key repeated gathers its values in
    /// `Multiple`, in order. A first occurrence without a value leaves no
    /// trace once the key has come again.
    pub fn from(s: &'rs str) -> (r: QueryString<'rs>)
        ensures
            r@ == parse_query(s@),
    {
        let mut data: Vec<Entry<'rs>> = Vec::new();
        let mut rest: Option<&'rs str> = Some(s);
        let ghost mut done: Seq<(Seq<char>, Seq<char>)> = Seq::empty();
        assert(entries_map(data@) =~= tally(done));
        while rest.is_some()
            invariant
                distinct_keys(data@),
                entries_map(data@) == tally(done),
                pairs_of(s@) == match rest {
                    Some(cur) => done + pairs_of(cur@),
                    None => done,
                },
            decreases
                match rest {
                    Some(cur) => cur@.len() + 1,
                    None => 0,
                },
        {
            let cur = rest.unwrap();
            proof {
                lemma_first_of_bounds(cur@, '&', '&');
            }
            let (piece, next) = match split_once(cur, 0x26, 0x26) {
                Some((head, tail)) => (head, Some(tail)),
                None => (cur, None),
            };
            let (key, value) = match split_once(piece, 0x3d, 0x3d) {
                Some((key, value)) => (key, value),
                None => (piece, ""),
            };
            proof {
                reveal_strlit("");
                assert((key@, value@) == pair_of(piece@));
                assert(pairs_of(cur@) =~= seq![pair_of(piece@)] + match next {
                    Some(tail) => pairs_of(tail@),
                    None => Seq::empty(),
                });
            }
            record(&mut data, key, value, Ghost(done));
            proof {
                done = done.push((key@, value@));
                assert(pairs_of(s@) =~= match next {
                    Some(tail) => done + pairs_of(tail@),
                    None => done,
                });
            }
            rest = next;
        }
        QueryString { data }
    }
}

impl<'rs> From<&'rs str> for QueryString<'rs> {
    /// Parses a query fragment, as `QueryString::from` does.
    fn from(s: &'rs str) -> (r: QueryString<'rs>)
        ensures
            r@ == parse_query(s@),
    {
        QueryString::from(s)
    }
}

/// A query holds references, and no spec function makes one: what `from`
/// returns is said in its own contract, by its view.
impl<'rs> vstd::std_specs::convert::FromSpecImpl<&'rs str> for QueryString<'rs> {
    open spec fn obeys_from_spec() -> bool {
        false
    }

    open spec fn from_spec(s: &'rs str) -> QueryString<'rs> {
        arbitrary()
    }
}

/// Records one more occurrence of `key`, with `value`.
fn record<'rs>(
    data: &mut Vec<Entry<'rs>>,
    key: &'rs str,
    value: &'rs str,
    Ghost(done): Ghost<Seq<(Seq<char>, Seq<char>)>>,
)
    requires
        distinct_keys(old(data)@),
        entries_map(old(data)@) == tally(done),
    ensures
        distinct_keys(final(data)@),
        entries_map(final(data)@) == tally(done.push((key@, value@))),
{
    let ghost before = data@;
    let mut i: usize = 0;
    while i < data.len()
        invariant
            i <= data@.len(),
            data@ == before,
            distinct_keys(before),
            entries_map(before) == tally(done),
            forall|k: int| 0 <= k < i ==> (#[trigger] data@[k]).key@ != key@,
        decreases data@.len() - i,
    {
        if str_eq(data[i].key, key) {
            let entry = &mut data[i];
            match &mut entry.value {
                Value::Empty => {
                    entry.value = Value::One(value);
                },
                Value::One(prev) => {
                    let ghost first = prev@;
                    let mut all: Vec<&'rs str> = Vec::new();
                    all.push(*prev);
                    all.push(value);
                    assert(Seq::new(all@.len(), |i: int| all@[i]@) =~= seq![first, value@]);
                    entry.value = Value::Multiple(all);
                },
                Value::Multiple(all) => {
                    let ghost earlier = Seq::new(all@.len(), |i: int| all@[i]@);
                    all.push(value);
                    assert(Seq::new(all@.len(), |i: int| all@[i]@) =~= earlier.push(value@));
                },
            }
            proof {
                lemma_record_again(before, data@, i as int, done, key@, value@);
            }
            return ;
        }
        i += 1;
    }
    let first = if value.is_empty() {
        Value::Empty
    } else {
        Value::One(value)
    };
    data.push(Entry { key, value: first });
    proof {
        lemma_record_first(before, data@, done, key@, value@);
    }
}

} // verus!
