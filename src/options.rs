//! The query option set: a mapping from the closed vocabulary of OData
//! options to their stored values, serialized in canonical key order.

use vstd::prelude::*;
use crate::text::{
    all_unreserved, join, lemma_join_push, lex_less, percent_encode, url_encoded,
};

verus! {

/// The recognized query options, declared in ascending order of their names.
#[derive(Clone, Copy, Debug, PartialEq, Eq, Structural)]
pub enum QueryKey {
    Expand,
    Filter,
    Format,
    InlineCount,
    OrderBy,
    Skip,
    Top,
}

/// Number of recognized query options.
pub const KEY_COUNT: usize = 7;

/// Position of a key in the canonical order.
pub open spec fn key_index(k: QueryKey) -> nat {
    match k {
        QueryKey::Expand => 0,
        QueryKey::Filter => 1,
        QueryKey::Format => 2,
        QueryKey::InlineCount => 3,
        QueryKey::OrderBy => 4,
        QueryKey::Skip => 5,
        QueryKey::Top => 6,
    }
}

/// The key at position `i` of the canonical order.
pub open spec fn key_at(i: nat) -> QueryKey {
    if i == 0 {
        QueryKey::Expand
    } else if i == 1 {
        QueryKey::Filter
    } else if i == 2 {
        QueryKey::Format
    } else if i == 3 {
        QueryKey::InlineCount
    } else if i == 4 {
        QueryKey::OrderBy
    } else if i == 5 {
        QueryKey::Skip
    } else {
        QueryKey::Top
    }
}

/// The option's name as it appears in a query, after the `$`.
pub open spec fn key_name(k: QueryKey) -> Seq<char> {
    match k {
        QueryKey::Expand => "expand"@,
        QueryKey::Filter => "filter"@,
        QueryKey::Format => "format"@,
        QueryKey::InlineCount => "inlinecount"@,
        QueryKey::OrderBy => "orderby"@,
        QueryKey::Skip => "skip"@,
        QueryKey::Top => "top"@,
    }
}

impl QueryKey {
    pub fn at(i: usize) -> (k: QueryKey)
        requires
            i < KEY_COUNT,
        ensures
            k == key_at(i as nat),
            key_index(k) == i,
    {
        if i == 0 {
            QueryKey::Expand
        } else if i == 1 {
            QueryKey::Filter
        } else if i == 2 {
            QueryKey::Format
        } else if i == 3 {
            QueryKey::InlineCount
        } else if i == 4 {
            QueryKey::OrderBy
        } else if i == 5 {
            QueryKey::Skip
        } else {
            QueryKey::Top
        }
    }

    pub fn index(&self) -> (i: usize)
        ensures
            i == key_index(*self),
            i < KEY_COUNT,
    {
        match self {
            QueryKey::Expand => 0,
            QueryKey::Filter => 1,
            QueryKey::Format => 2,
            QueryKey::InlineCount => 3,
            QueryKey::OrderBy => 4,
            QueryKey::Skip => 5,
            QueryKey::Top => 6,
        }
    }

    pub fn name(&self) -> (r: &'static str)
        ensures
            r@ == key_name(*self),
    {
        match self {
            QueryKey::Expand => "expand",
            QueryKey::Filter => "filter",
            QueryKey::Format => "format",
            QueryKey::InlineCount => "inlinecount",
            QueryKey::OrderBy => "orderby",
            QueryKey::Skip => "skip",
            QueryKey::Top => "top",
        }
    }
}

/// Every option name is made of lowercase letters, which percent-encoding keeps.
pub proof fn lemma_key_name_unreserved(k: QueryKey)
    ensures
        all_unreserved(key_name(k)),
        forall|i: int| 0 <= i < key_name(k).len() ==> 'a' <= #[trigger] key_name(k)[i] <= 'z',
{
    reveal_strlit("expand");
    reveal_strlit("filter");
    reveal_strlit("format");
    reveal_strlit("inlinecount");
    reveal_strlit("orderby");
    reveal_strlit("skip");
    reveal_strlit("top");
}

/// The value held under `k` after appending `v` to a comma-separated list:
/// `v` alone when `k` was absent.
pub open spec fn appended(m: Map<QueryKey, Seq<char>>, k: QueryKey, v: Seq<char>) -> Seq<char> {
    if m.contains_key(k) {
        m[k] + ","@ + v
    } else {
        v
    }
}

/// The entries among the first `n` keys of the canonical order that `m` holds,
/// in that order.
pub open spec fn entries_upto(m: Map<QueryKey, Seq<char>>, n: nat) -> Seq<(QueryKey, Seq<char>)>
    decreases n,
{
    if n == 0 {
        Seq::empty()
    } else {
        let prev = entries_upto(m, (n - 1) as nat);
        let k = key_at((n - 1) as nat);
        if m.contains_key(k) {
            prev.push((k, m[k]))
        } else {
            prev
        }
    }
}

/// The entries of `m` in ascending order of their keys.
pub open spec fn entries(m: Map<QueryKey, Seq<char>>) -> Seq<(QueryKey, Seq<char>)> {
    entries_upto(m, KEY_COUNT as nat)
}

/// One `$key=value` pair of a query.
pub open spec fn render_entry(e: (QueryKey, Seq<char>)) -> Seq<char> {
    "$"@ + key_name(e.0) + "="@ + e.1
}

/// The `$key=value` pairs of a list of entries.
pub open spec fn rendered(es: Seq<(QueryKey, Seq<char>)>) -> Seq<Seq<char>> {
    es.map_values(|e: (QueryKey, Seq<char>)| render_entry(e))
}

/// The names of the keys that `m` holds, in the order the query lists them.
pub open spec fn query_keys(m: Map<QueryKey, Seq<char>>) -> Seq<Seq<char>> {
    entries(m).map_values(|e: (QueryKey, Seq<char>)| key_name(e.0))
}

/// The canonical query text of `m`: its `$key=value` pairs in ascending key
/// order, separated by `&`. Values are written as they are stored.
pub open spec fn query_text(m: Map<QueryKey, Seq<char>>) -> Seq<char> {
    join(rendered(entries(m)), "&"@)
}

/// `m` with every value percent-encoded.
pub open spec fn encoded_values(m: Map<QueryKey, Seq<char>>) -> Map<QueryKey, Seq<char>> {
    m.map_values(|v: Seq<char>| url_encoded(v))
}

/// Setting options under two different keys gives the same option set, and
/// hence the same query text, in either order.
pub proof fn lemma_distinct_settings_commute(
    m: Map<QueryKey, Seq<char>>,
    k1: QueryKey,
    v1: Seq<char>,
    k2: QueryKey,
    v2: Seq<char>,
)
    requires
        k1 != k2,
    ensures
        m.insert(k1, v1).insert(k2, v2) == m.insert(k2, v2).insert(k1, v1),
        query_text(m.insert(k1, v1).insert(k2, v2)) == query_text(m.insert(k2, v2).insert(k1, v1)),
{
    assert(m.insert(k1, v1).insert(k2, v2) =~= m.insert(k2, v2).insert(k1, v1));
}

/// `m` after the settings `ops`, each a key and a value, made in order: each
/// one replaces what its key held.
pub open spec fn apply_settings(m: Map<QueryKey, Seq<char>>, ops: Seq<(QueryKey, Seq<char>)>) -> Map<
    QueryKey,
    Seq<char>,
>
    decreases ops.len(),
{
    if ops.len() == 0 {
        m
    } else {
        apply_settings(m, ops.drop_last()).insert(ops.last().0, ops.last().1)
    }
}

/// The value that the last setting of `k` among `ops` gives it, if any.
pub open spec fn last_setting(ops: Seq<(QueryKey, Seq<char>)>, k: QueryKey) -> Option<Seq<char>>
    decreases ops.len(),
{
    if ops.len() == 0 {
        None
    } else if ops.last().0 == k {
        Some(ops.last().1)
    } else {
        last_setting(ops.drop_last(), k)
    }
}

proof fn lemma_apply_settings_lookup(
    m: Map<QueryKey, Seq<char>>,
    ops: Seq<(QueryKey, Seq<char>)>,
    k: QueryKey,
)
    ensures
        last_setting(ops, k) matches Some(v) ==> apply_settings(m, ops).contains_key(k)
            && apply_settings(m, ops)[k] == v,
        last_setting(ops, k) is None ==> (apply_settings(m, ops).contains_key(k) == m.contains_key(k))
            && (m.contains_key(k) ==> apply_settings(m, ops)[k] == m[k]),
    decreases ops.len(),
{
    if ops.len() > 0 {
        lemma_apply_settings_lookup(m, ops.drop_last(), k);
    }
}

/// Two sequences of settings that leave every key with the same last value
/// give the same option set, and hence the same query text, whatever order
/// the settings came in.
pub proof fn lemma_settings_order_irrelevant(
    m: Map<QueryKey, Seq<char>>,
    ops1: Seq<(QueryKey, Seq<char>)>,
    ops2: Seq<(QueryKey, Seq<char>)>,
)
    requires
        forall|k: QueryKey| last_setting(ops1, k) == last_setting(ops2, k),
    ensures
        apply_settings(m, ops1) == apply_settings(m, ops2),
        query_text(apply_settings(m, ops1)) == query_text(apply_settings(m, ops2)),
        query_text(encoded_values(apply_settings(m, ops1))) == query_text(
            encoded_values(apply_settings(m, ops2)),
        ),
{
    assert forall|k: QueryKey| #[trigger] apply_settings(m, ops1).contains_key(k)
        == apply_settings(m, ops2).contains_key(k) && (apply_settings(m, ops1).contains_key(k)
        ==> apply_settings(m, ops1)[k] == apply_settings(m, ops2)[k]) by {
        lemma_apply_settings_lookup(m, ops1, k);
        lemma_apply_settings_lookup(m, ops2, k);
    }
    assert(apply_settings(m, ops1) =~= apply_settings(m, ops2));
}

/// The entries among the first `n` keys come in strictly ascending key position.
proof fn lemma_entries_upto_ordered(m: Map<QueryKey, Seq<char>>, n: nat)
    requires
        n <= KEY_COUNT,
    ensures
        forall|i: int|
            0 <= i < entries_upto(m, n).len() ==> key_index(#[trigger] entries_upto(m, n)[i].0) < n,
        forall|i: int, j: int|
            0 <= i < j < entries_upto(m, n).len() ==> key_index(#[trigger] entries_upto(m, n)[i].0)
                < key_index(#[trigger] entries_upto(m, n)[j].0),
    decreases n,
{
    if n > 0 {
        let prev = entries_upto(m, (n - 1) as nat);
        let k = key_at((n - 1) as nat);
        lemma_entries_upto_ordered(m, (n - 1) as nat);
        assert(key_index(k) == n - 1);
        if m.contains_key(k) {
            assert(entries_upto(m, n) == prev.push((k, m[k])));
            assert forall|i: int| 0 <= i < prev.len() implies entries_upto(m, n)[i] == prev[i] by {}
        } else {
            assert(entries_upto(m, n) == prev);
        }
    }
}

/// Each entry among the first `n` keys is a key that `m` holds, with its value.
pub proof fn lemma_entries_upto_in_map(m: Map<QueryKey, Seq<char>>, n: nat)
    ensures
        forall|i: int|
            0 <= i < entries_upto(m, n).len() ==> m.contains_key(#[trigger] entries_upto(m, n)[i].0)
                && entries_upto(m, n)[i].1 == m[entries_upto(m, n)[i].0],
    decreases n,
{
    if n > 0 {
        let prev = entries_upto(m, (n - 1) as nat);
        lemma_entries_upto_in_map(m, (n - 1) as nat);
        assert forall|i: int| 0 <= i < prev.len() implies entries_upto(m, n)[i] == prev[i] by {}
    }
}

/// Option names in canonical key order are in strictly ascending lexicographic order.
proof fn lemma_key_names_ordered(a: QueryKey, b: QueryKey)
    requires
        key_index(a) < key_index(b),
    ensures
        lex_less(key_name(a), key_name(b)),
{
    reveal_strlit("expand");
    reveal_strlit("filter");
    reveal_strlit("format");
    reveal_strlit("inlinecount");
    reveal_strlit("orderby");
    reveal_strlit("skip");
    reveal_strlit("top");
    let x = key_name(a);
    let y = key_name(b);
    if a == QueryKey::Filter && b == QueryKey::Format {
        assert(x.subrange(0, 1) =~= y.subrange(0, 1));
        assert(x[1] < y[1]);
    } else {
        assert(x.subrange(0, 0) =~= y.subrange(0, 0));
        assert(x[0] < y[0]);
    }
}

/// The keys of a serialized option set appear in strictly ascending
/// lexicographic order: the query is the `&`-join of one `$key=value` pair
/// per key of `query_keys(m)`, and those keys ascend.
pub proof fn lemma_query_keys_ascending(m: Map<QueryKey, Seq<char>>)
    ensures
        query_text(m) == join(rendered(entries(m)), "&"@),
        rendered(entries(m)).len() == query_keys(m).len(),
        forall|i: int|
            0 <= i < query_keys(m).len() ==> #[trigger] rendered(entries(m))[i] == "$"@
                + query_keys(m)[i] + "="@ + entries(m)[i].1,
        forall|i: int, j: int|
            0 <= i < j < query_keys(m).len() ==> lex_less(
                #[trigger] query_keys(m)[i],
                #[trigger] query_keys(m)[j],
            ),
{
    lemma_entries_upto_ordered(m, KEY_COUNT as nat);
    assert forall|i: int, j: int| 0 <= i < j < query_keys(m).len() implies lex_less(
        #[trigger] query_keys(m)[i],
        #[trigger] query_keys(m)[j],
    ) by {
        lemma_key_names_ordered(entries(m)[i].0, entries(m)[j].0);
    }
}

/// A set of query options. Each recognized key holds at most one value.
#[derive(Debug)]
pub struct OptionSet {
    slots: Vec<Option<String>>,
}

impl View for OptionSet {
    type V = Map<QueryKey, Seq<char>>;

    /// The options as a map from key to stored value.
    closed spec fn view(&self) -> Map<QueryKey, Seq<char>> {
        Map::new(
            |k: QueryKey| self.slots@[key_index(k) as int] is Some,
            |k: QueryKey| self.slots@[key_index(k) as int]->Some_0@,
        )
    }
}

impl Clone for OptionSet {
    fn clone(&self) -> (r: OptionSet)
        ensures
            r@ == self@,
    {
        proof {
            use_type_invariant(self);
        }
        let mut slots: Vec<Option<String>> = Vec::new();
        let mut i: usize = 0;
        while i < KEY_COUNT
            invariant
                i <= KEY_COUNT,
                self.slots.len() == KEY_COUNT,
                slots.len() == i,
                forall|j: int|
                    0 <= j < i ==> (#[trigger] slots@[j] is Some) == (self.slots@[j] is Some),
                forall|j: int|
                    0 <= j < i && slots@[j] is Some ==> (#[trigger] slots@[j])->Some_0@
                        == self.slots@[j]->Some_0@,
            decreases KEY_COUNT - i,
        {
            let copy = match &self.slots[i] {
                Some(v) => Some(v.clone()),
                None => None,
            };
            slots.push(copy);
            i = i + 1;
        }
        let r = OptionSet { slots };
        assert(r@ =~= self@);
        r
    }
}

impl OptionSet {
    #[verifier::type_invariant]
    spec fn slots_cover_keys(&self) -> bool {
        self.slots.len() == KEY_COUNT
    }

    /// An empty option set.
    pub fn new() -> (r: OptionSet)
        ensures
            r@ == Map::<QueryKey, Seq<char>>::empty(),
    {
        let mut slots: Vec<Option<String>> = Vec::new();
        let mut i: usize = 0;
        while i < KEY_COUNT
            invariant
                i <= KEY_COUNT,
                slots.len() == i,
                forall|j: int| 0 <= j < i ==> slots@[j] is None,
            decreases KEY_COUNT - i,
        {
            slots.push(None);
            i = i + 1;
        }
        let r = OptionSet { slots };
        assert(r@ =~= Map::<QueryKey, Seq<char>>::empty());
        r
    }

    /// The value stored under `key`, if any.
    pub fn get(&self, key: QueryKey) -> (r: Option<&String>)
        ensures
            r is Some <==> self@.contains_key(key),
            r is Some ==> r->Some_0@ == self@[key],
    {
        proof {
            use_type_invariant(self);
        }
        match &self.slots[key.index()] {
            Some(v) => Some(v),
            None => None,
        }
    }

    /// Stores `value` under `key`, replacing any earlier value.
    pub fn set(self, key: QueryKey, value: String) -> (r: OptionSet)
        ensures
            r@ == self@.insert(key, value@),
    {
        proof {
            use_type_invariant(&self);
        }
        let mut slots = self.slots;
        slots.set(key.index(), Some(value));
        let r = OptionSet { slots };
        assert(r@ =~= self@.insert(key, value@));
        r
    }

    /// Appends `value` to the comma-separated list stored under `key`, or
    /// stores it when `key` holds nothing yet.
    pub fn append(self, key: QueryKey, value: String) -> (r: OptionSet)
        ensures
            r@ == self@.insert(key, appended(self@, key, value@)),
    {
        let joined = match self.get(key) {
            Some(current) => {
                let mut s = current.clone();
                s.append(",");
                s.append(value.as_str());
                s
            },
            None => value,
        };
        self.set(key, joined)
    }

    /// A copy of these options with every value percent-encoded.
    pub fn encode_values(&self) -> (r: OptionSet)
        ensures
            r@ == encoded_values(self@),
    {
        proof {
            use_type_invariant(self);
        }
        let mut slots: Vec<Option<String>> = Vec::new();
        let mut i: usize = 0;
        while i < KEY_COUNT
            invariant
                i <= KEY_COUNT,
                self.slots.len() == KEY_COUNT,
                slots.len() == i,
                forall|j: int|
                    0 <= j < i ==> (#[trigger] slots@[j] is Some) == (self.slots@[j] is Some),
                forall|j: int|
                    0 <= j < i && slots@[j] is Some ==> (#[trigger] slots@[j])->Some_0@
                        == url_encoded(self.slots@[j]->Some_0@),
            decreases KEY_COUNT - i,
        {
            let encoded = match &self.slots[i] {
                Some(v) => Some(percent_encode(v.as_str())),
                None => None,
            };
            slots.push(encoded);
            i = i + 1;
        }
        let r = OptionSet { slots };
        assert(r@ =~= encoded_values(self@));
        r
    }

    /// Serializes the options as `$key=value` pairs joined by `&`, in
    /// ascending order of the keys. Keys are percent-encoded; values are
    /// written as stored.
    pub fn to_query(&self) -> (r: String)
        ensures
            r@ == query_text(self@),
    {
        proof {
            use_type_invariant(self);
        }
        let ghost m = self@;
        let mut out = String::new();
        let mut none_yet = true;
        let mut i: usize = 0;
        while i < KEY_COUNT
            invariant
                i <= KEY_COUNT,
                self.slots.len() == KEY_COUNT,
                m == self@,
                none_yet == (entries_upto(m, i as nat).len() == 0),
                out@ == join(rendered(entries_upto(m, i as nat)), "&"@),
            decreases KEY_COUNT - i,
        {
            let key = QueryKey::at(i);
            let ghost prev = entries_upto(m, i as nat);
            match &self.slots[i] {
                Some(v) => {
                    let name = percent_encode(key.name());
                    proof {
                        lemma_key_name_unreserved(key);
                        assert(m.contains_key(key));
                        assert(entries_upto(m, (i + 1) as nat) == prev.push((key, v@)));
                        assert(rendered(prev.push((key, v@))) =~= rendered(prev).push(
                            render_entry((key, v@)),
                        ));
                        lemma_join_push(rendered(prev), "&"@, render_entry((key, v@)));
                    }
                    if !none_yet {
                        out.append("&");
                    }
                    out.append("$");
                    out.append(name.as_str());
                    out.append("=");
                    out.append(v.as_str());
                    none_yet = false;
                    proof {
                        assert(out@ =~= join(rendered(entries_upto(m, (i + 1) as nat)), "&"@));
                    }
                },
                None => {
                    assert(!m.contains_key(key));
                    assert(entries_upto(m, (i + 1) as nat) == prev);
                },
            }
            i = i + 1;
        }
        out
    }
}

} // verus!
