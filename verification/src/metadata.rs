//! Metadata as the gRPC API carries it: a proto `map<string, string>`
//! (no order, one value per key), converted from and back to the WIT
//! list of pairs.

use vstd::prelude::*;
use crate::inbound::pair_views;
use crate::text::chars_of;

verus! {

/// The keys of `s` are pairwise different.
pub open spec fn keys_distinct(s: Seq<(String, String)>) -> bool {
    forall|i: int, j: int| 0 <= i < j < s.len() ==> s[i].0@ != s[j].0@
}

/// The map of a list of pairs: a later pair wins over an earlier one with the same key.
pub open spec fn pairs_map(s: Seq<(String, String)>) -> Map<Seq<char>, Seq<char>>
    decreases s.len(),
{
    if s.len() == 0 {
        Map::empty()
    } else {
        pairs_map(s.drop_last()).insert(s.last().0@, s.last().1@)
    }
}

/// A `map<string, string>`: each key once, in no particular order.
pub struct MetadataMap {
    entries: Vec<(String, String)>,
}

impl MetadataMap {
    /// The entries under their keys.
    pub closed spec fn view(&self) -> Map<Seq<char>, Seq<char>> {
        pairs_map(self.entries@)
    }

    /// Each key is held once.
    pub closed spec fn wf(&self) -> bool {
        keys_distinct(self.entries@)
    }

    /// The empty map.
    pub fn new() -> (m: MetadataMap)
        ensures
            m.wf(),
            m@ == Map::<Seq<char>, Seq<char>>::empty(),
    {
        MetadataMap { entries: Vec::new() }
    }

    /// The number of entries.
    pub fn len(&self) -> (n: usize)
        requires
            self.wf(),
        ensures
            n == self@.len(),
    {
        proof {
            lemma_pairs_map_len(self.entries@);
        }
        self.entries.len()
    }

    /// Set the value of `key`, replacing any value it had.
    pub fn insert(&mut self, key: String, value: String)
        requires
            old(self).wf(),
        ensures
            final(self).wf(),
            final(self)@ == old(self)@.insert(key@, value@),
    {
        let ghost before = self.entries@;
        let mut i: usize = 0;
        while i < self.entries.len() && !crate::text::same_text(self.entries[i].0.as_str(), key.as_str())
            invariant
                i <= self.entries@.len(),
                self.entries@ == before,
                keys_distinct(before),
                forall|j: int| 0 <= j < i ==> self.entries@[j].0@ != key@,
            decreases self.entries.len() - i,
        {
            i += 1;
        }
        if i < self.entries.len() {
            proof {
                lemma_pairs_map_update(before, i as int, key, value);
            }
            self.entries.set(i, (key, value));
            assert(keys_distinct(self.entries@)) by {
                assert forall|a: int, b: int| 0 <= a < b < self.entries@.len() implies
                    self.entries@[a].0@ != self.entries@[b].0@ by {
                    assert(self.entries@[a].0@ == before[a].0@);
                    assert(self.entries@[b].0@ == before[b].0@);
                }
            }
        } else {
            self.entries.push((key, value));
            assert(self.entries@.drop_last() =~= before);
        }
    }

    /// The value of `key`, if any.
    pub fn get(&self, key: &str) -> (r: Option<String>)
        requires
            self.wf(),
        ensures
            match r {
                Some(v) => self@.contains_key(key@) && self@[key@] == v@,
                None => !self@.contains_key(key@),
            },
    {
        let mut i: usize = 0;
        while i < self.entries.len()
            invariant
                i <= self.entries@.len(),
                keys_distinct(self.entries@),
                forall|j: int| 0 <= j < i ==> self.entries@[j].0@ != key@,
            decreases self.entries.len() - i,
        {
            if crate::text::same_text(self.entries[i].0.as_str(), key) {
                proof {
                    lemma_pairs_map_at(self.entries@, i as int);
                }
                return Some(self.entries[i].1.clone());
            }
            i += 1;
        }
        proof {
            lemma_pairs_map_absent(self.entries@, key@);
        }
        None
    }

    /// The entries, each key once, in no particular order.
    pub fn entries(&self) -> (r: Vec<(String, String)>)
        requires
            self.wf(),
        ensures
            keys_distinct(r@),
            pairs_map(r@) == self@,
    {
        let mut r: Vec<(String, String)> = Vec::new();
        let mut i: usize = 0;
        while i < self.entries.len()
            invariant
                i <= self.entries@.len(),
                r@ == self.entries@.take(i as int),
            decreases self.entries.len() - i,
        {
            r.push((self.entries[i].0.clone(), self.entries[i].1.clone()));
            assert(r@ =~= self.entries@.take(i + 1));
            i += 1;
        }
        assert(self.entries@.take(self.entries@.len() as int) =~= self.entries@);
        r
    }
}

/// A key of a list's map is the key of one of its pairs.
proof fn lemma_pairs_map_absent(s: Seq<(String, String)>, k: Seq<char>)
    requires
        forall|j: int| 0 <= j < s.len() ==> s[j].0@ != k,
    ensures
        !pairs_map(s).contains_key(k),
    decreases s.len(),
{
    if s.len() > 0 {
        lemma_pairs_map_absent(s.drop_last(), k);
    }
}

/// With distinct keys, a pair's key maps to the pair's value.
proof fn lemma_pairs_map_at(s: Seq<(String, String)>, i: int)
    requires
        keys_distinct(s),
        0 <= i < s.len(),
    ensures
        pairs_map(s).contains_key(s[i].0@),
        pairs_map(s)[s[i].0@] == s[i].1@,
    decreases s.len(),
{
    if i < s.len() - 1 {
        lemma_pairs_map_at(s.drop_last(), i);
    }
}

/// Replacing the value of a pair replaces it in the map.
proof fn lemma_pairs_map_update(s: Seq<(String, String)>, i: int, key: String, value: String)
    requires
        keys_distinct(s),
        0 <= i < s.len(),
        s[i].0@ == key@,
    ensures
        pairs_map(s.update(i, (key, value))) == pairs_map(s).insert(key@, value@),
    decreases s.len(),
{
    let t = s.update(i, (key, value));
    if i == s.len() - 1 {
        assert(t.drop_last() =~= s.drop_last());
        lemma_pairs_map_absent(s.drop_last(), key@);
        assert(pairs_map(t) =~= pairs_map(s).insert(key@, value@));
    } else {
        lemma_pairs_map_update(s.drop_last(), i, key, value);
        assert(t.drop_last() =~= s.drop_last().update(i, (key, value)));
        assert(pairs_map(t) =~= pairs_map(s).insert(key@, value@));
    }
}

/// With distinct keys, the map has one entry per pair.
proof fn lemma_pairs_map_len(s: Seq<(String, String)>)
    requires
        keys_distinct(s),
    ensures
        pairs_map(s).dom().finite(),
        pairs_map(s).len() == s.len(),
    decreases s.len(),
{
    if s.len() > 0 {
        lemma_pairs_map_len(s.drop_last());
        lemma_pairs_map_absent(s.drop_last(), s.last().0@);
    } else {
        assert(pairs_map(s).dom() =~= Set::<Seq<char>>::empty());
    }
}

/// Convert WIT metadata pairs to the proto map; a later pair wins over an
/// earlier one with the same key.
pub fn metadata_map(metadata: &Vec<(String, String)>) -> (m: MetadataMap)
    ensures
        m.wf(),
        m@ == pairs_map(metadata@),
{
    let mut m = MetadataMap::new();
    let mut i: usize = 0;
    while i < metadata.len()
        invariant
            i <= metadata@.len(),
            m.wf(),
            m@ == pairs_map(metadata@.take(i as int)),
        decreases metadata.len() - i,
    {
        assert(metadata@.take(i + 1).drop_last() =~= metadata@.take(i as int));
        assert(metadata@.take(i + 1).last() == metadata@[i as int]);
        m.insert(metadata[i].0.clone(), metadata[i].1.clone());
        i += 1;
    }
    assert(metadata@.take(metadata@.len() as int) =~= metadata@);
    m
}

/// Fold request-level metadata and item-level metadata into one map:
/// an item-level entry wins over a request-level one with the same key.
pub fn merged_metadata(request: &Vec<(String, String)>, item: &Vec<(String, String)>) -> (m: MetadataMap)
    ensures
        m.wf(),
        m@ == pairs_map(request@ + item@),
{
    let mut m = metadata_map(request);
    let mut i: usize = 0;
    while i < item.len()
        invariant
            i <= item@.len(),
            m.wf(),
            m@ == pairs_map(request@ + item@.take(i as int)),
        decreases item.len() - i,
    {
        assert((request@ + item@.take(i + 1)).drop_last() =~= request@ + item@.take(i as int));
        assert((request@ + item@.take(i + 1)).last() == item@[i as int]);
        m.insert(item[i].0.clone(), item[i].1.clone());
        i += 1;
    }
    assert(request@ + item@.take(0) =~= request@);
    assert(item@.take(item@.len() as int) =~= item@);
    m
}

/// Item-level metadata overrides request-level metadata: in the merged
/// map, a key the item sets has the item's (last) value, and any other key
/// keeps the request's.
pub proof fn lemma_item_metadata_wins(request: Seq<(String, String)>, item: Seq<(String, String)>, k: Seq<char>)
    ensures
        pairs_map(item).contains_key(k) ==> pairs_map(request + item).contains_key(k)
            && pairs_map(request + item)[k] == pairs_map(item)[k],
        !pairs_map(item).contains_key(k) ==> (pairs_map(request + item).contains_key(k)
            == pairs_map(request).contains_key(k)) && (pairs_map(request).contains_key(k)
            ==> pairs_map(request + item)[k] == pairs_map(request)[k]),
    decreases item.len(),
{
    if item.len() == 0 {
        assert(request + item =~= request);
    } else {
        assert((request + item).drop_last() =~= request + item.drop_last());
        lemma_item_metadata_wins(request, item.drop_last(), k);
    }
}

// ---------------------------------------------------------------------------
// Sorting

/// `a` comes before `b` in code-point order.
pub open spec fn text_lt(a: Seq<char>, b: Seq<char>) -> bool
    decreases a.len(),
{
    if a.len() == 0 {
        b.len() > 0
    } else if b.len() == 0 {
        false
    } else if a[0] != b[0] {
        (a[0] as int) < (b[0] as int)
    } else {
        text_lt(a.drop_first(), b.drop_first())
    }
}

pub(crate) proof fn lemma_text_lt_irreflexive(a: Seq<char>)
    ensures
        !text_lt(a, a),
    decreases a.len(),
{
    if a.len() > 0 {
        lemma_text_lt_irreflexive(a.drop_first());
    }
}

pub(crate) proof fn lemma_text_lt_transitive(a: Seq<char>, b: Seq<char>, c: Seq<char>)
    requires
        text_lt(a, b),
        text_lt(b, c),
    ensures
        text_lt(a, c),
    decreases a.len(),
{
    if a.len() > 0 && b.len() > 0 && c.len() > 0 {
        if a[0] == b[0] && b[0] == c[0] {
            lemma_text_lt_transitive(a.drop_first(), b.drop_first(), c.drop_first());
        }
    }
}

pub(crate) proof fn lemma_text_lt_total(a: Seq<char>, b: Seq<char>)
    requires
        a != b,
    ensures
        text_lt(a, b) || text_lt(b, a),
    decreases a.len(),
{
    if a.len() > 0 && b.len() > 0 && a[0] == b[0] {
        if a.drop_first() == b.drop_first() {
            assert(a =~= seq![a[0]] + a.drop_first());
            assert(b =~= seq![b[0]] + b.drop_first());
        }
        lemma_text_lt_total(a.drop_first(), b.drop_first());
    } else if a.len() > 0 && b.len() > 0 {
        assert((a[0] as int) != (b[0] as int));
    } else if a.len() == 0 && b.len() == 0 {
        assert(a =~= b);
    }
}

/// Whether `a` comes before `b` in code-point order.
pub fn text_less(a: &str, b: &str) -> (r: bool)
    ensures
        r == text_lt(a@, b@),
{
    let ac = chars_of(a);
    let bc = chars_of(b);
    let mut i: usize = 0;
    assert(ac@.subrange(0, ac@.len() as int) =~= ac@);
    assert(bc@.subrange(0, bc@.len() as int) =~= bc@);
    while i < ac.len() && i < bc.len() && ac[i] == bc[i]
        invariant
            i <= ac@.len(),
            i <= bc@.len(),
            ac@ == a@,
            bc@ == b@,
            text_lt(a@, b@) == text_lt(
                ac@.subrange(i as int, ac@.len() as int),
                bc@.subrange(i as int, bc@.len() as int),
            ),
        decreases ac.len() - i,
    {
        assert(ac@.subrange(i as int, ac@.len() as int).drop_first() =~= ac@.subrange(
            i + 1,
            ac@.len() as int,
        ));
        assert(bc@.subrange(i as int, bc@.len() as int).drop_first() =~= bc@.subrange(
            i + 1,
            bc@.len() as int,
        ));
        i += 1;
    }
    if i == ac.len() {
        i < bc.len()
    } else if i == bc.len() {
        false
    } else {
        ac[i] < bc[i]
    }
}

/// The keys of `s` are strictly increasing in code-point order.
pub open spec fn sorted_keys(s: Seq<(String, String)>) -> bool {
    forall|i: int, j: int| 0 <= i < j < s.len() ==> text_lt(s[i].0@, s[j].0@)
}

/// A key of the map of a list is the key of one of its pairs.
proof fn lemma_pairs_map_key_in(s: Seq<(String, String)>, k: Seq<char>)
    requires
        pairs_map(s).contains_key(k),
    ensures
        exists|j: int| 0 <= j < s.len() && s[j].0@ == k,
    decreases s.len(),
{
    if s.last().0@ != k {
        lemma_pairs_map_key_in(s.drop_last(), k);
        let j = choose|j: int| 0 <= j < s.drop_last().len() && s.drop_last()[j].0@ == k;
        assert(s[j] == s.drop_last()[j]);
    }
}

/// The last key of a sorted list is above every other key of it.
proof fn lemma_sorted_last_is_max(s: Seq<(String, String)>, k: Seq<char>)
    requires
        sorted_keys(s),
        s.len() > 0,
        pairs_map(s).contains_key(k),
        k != s.last().0@,
    ensures
        text_lt(k, s.last().0@),
{
    lemma_pairs_map_key_in(s, k);
    let j = choose|j: int| 0 <= j < s.len() && s[j].0@ == k;
    assert(j < s.len() - 1);
}

/// A sorted, duplicate-free metadata list survives a map and back: two
/// sorted lists of pairs with the same map are the same list, so
/// `metadata_pairs(metadata_map(m))`, which is sorted and has `m`'s map,
/// gives back any sorted `m`.
pub proof fn lemma_sorted_pairs_roundtrip(m: Seq<(String, String)>, r: Seq<(String, String)>)
    requires
        sorted_keys(m),
        sorted_keys(r),
        pairs_map(r) == pairs_map(m),
    ensures
        pair_views(r) == pair_views(m),
    decreases m.len(),
{
    if m.len() == 0 {
        if r.len() > 0 {
            assert(pairs_map(r).contains_key(r.last().0@));
        }
        assert(pair_views(r) =~= pair_views(m));
    } else {
        let km = m.last().0@;
        assert(pairs_map(m).contains_key(km));
        assert(r.len() > 0);
        let kr = r.last().0@;
        assert(pairs_map(r).contains_key(kr));
        if km != kr {
            lemma_sorted_last_is_max(m, kr);
            lemma_sorted_last_is_max(r, km);
            lemma_text_lt_transitive(km, kr, km);
            lemma_text_lt_irreflexive(km);
        }
        assert(pairs_map(m)[km] == m.last().1@);
        assert(pairs_map(r)[kr] == r.last().1@);
        assert(m.last().1@ == r.last().1@);
        let md = m.drop_last();
        let rd = r.drop_last();
        assert forall|j: int| 0 <= j < md.len() implies md[j].0@ != km by {
            assert(text_lt(m[j].0@, m[m.len() - 1].0@));
            lemma_text_lt_irreflexive(km);
        }
        assert forall|j: int| 0 <= j < rd.len() implies rd[j].0@ != km by {
            assert(text_lt(r[j].0@, r[r.len() - 1].0@));
            lemma_text_lt_irreflexive(km);
        }
        lemma_pairs_map_absent(md, km);
        lemma_pairs_map_absent(rd, km);
        assert(pairs_map(md) =~= pairs_map(m).remove(km));
        assert(pairs_map(rd) =~= pairs_map(r).remove(km));
        lemma_sorted_pairs_roundtrip(md, rd);
        assert(pair_views(m) =~= pair_views(md).push((km, m.last().1@)));
        assert(pair_views(r) =~= pair_views(rd).push((km, r.last().1@)));
    }
}

/// Convert a proto map back to WIT metadata pairs, sorted by key for
/// determinism (proto maps have no order).
pub fn metadata_pairs(map: MetadataMap) -> (r: Vec<(String, String)>)
    requires
        map.wf(),
    ensures
        sorted_keys(r@),
        keys_distinct(r@),
        pairs_map(r@) == map@,
        r@.len() == map@.len(),
{
    let entries = map.entries();
    proof {
        lemma_pairs_map_len(entries@);
    }
    let mut out: Vec<(String, String)> = Vec::new();
    let mut i: usize = 0;
    while i < entries.len()
        invariant
            i <= entries@.len(),
            keys_distinct(entries@),
            sorted_keys(out@),
            keys_distinct(out@),
            out@.len() == i,
            pairs_map(out@) == pairs_map(entries@.take(i as int)),
            forall|k: Seq<char>| #[trigger] pairs_map(out@).contains_key(k) <==> exists|j: int|
                0 <= j < i && entries@[j].0@ == k,
        decreases entries.len() - i,
    {
        let key = entries[i].0.clone();
        let value = entries[i].1.clone();
        // The first position whose key comes after `key`.
        let mut p: usize = 0;
        while p < out.len() && !text_less(key.as_str(), out[p].0.as_str())
            invariant
                p <= out@.len(),
                forall|j: int| 0 <= j < p ==> !text_lt(key@, #[trigger] out@[j].0@),
            decreases out.len() - p,
        {
            p += 1;
        }
        let ghost old_out = out@;
        assert(forall|j: int| 0 <= j < old_out.len() ==> old_out[j].0@ != key@) by {
            assert forall|j: int| 0 <= j < old_out.len() implies old_out[j].0@ != key@ by {
                if old_out[j].0@ == key@ {
                    assert(pairs_map(old_out).contains_key(key@)) by {
                        lemma_pairs_map_at(old_out, j);
                    }
                    let m = choose|m: int| 0 <= m < i && entries@[m].0@ == key@;
                    assert(entries@[m].0@ == entries@[i as int].0@);
                }
            }
        }
        out.insert(p, (key, value));
        proof {
            let new_out = out@;
            assert(new_out =~= old_out.take(p as int).push((key, value)) + old_out.skip(p as int));
            // Sortedness: everything before `p` is below `key`, everything after is above.
            assert forall|j: int| 0 <= j < p implies text_lt(old_out[j].0@, key@) by {
                lemma_text_lt_total(old_out[j].0@, key@);
            }
            assert forall|j: int| p <= j < old_out.len() implies text_lt(key@, old_out[j].0@) by {
                if p < old_out.len() {
                    if j > p {
                        lemma_text_lt_transitive(key@, old_out[p as int].0@, old_out[j].0@);
                    }
                }
            }
            assert forall|a: int, b: int| 0 <= a < b < new_out.len() implies text_lt(
                new_out[a].0@,
                new_out[b].0@,
            ) by {
                if a < p && b < p {
                } else if a < p && b == p {
                } else if a < p {
                    lemma_text_lt_transitive(old_out[a].0@, key@, old_out[b - 1].0@);
                } else if a == p {
                } else {
                }
            }
            assert forall|a: int, b: int| 0 <= a < b < new_out.len() implies new_out[a].0@
                != new_out[b].0@ by {
                lemma_text_lt_irreflexive(new_out[a].0@);
            }
            // The map gains the new pair.
            lemma_insert_map(old_out, p as int, key, value);
            assert(entries@.take(i + 1).drop_last() =~= entries@.take(i as int));
            assert(entries@.take(i + 1).last() == entries@[i as int]);
            assert forall|k: Seq<char>| #[trigger] pairs_map(new_out).contains_key(k) <==> exists|
                j: int,
            | 0 <= j < i + 1 && entries@[j].0@ == k by {
                if k == key@ {
                    assert(entries@[i as int].0@ == k);
                } else {
                    if exists|j: int| 0 <= j < i + 1 && entries@[j].0@ == k {
                        let j = choose|j: int| 0 <= j < i + 1 && entries@[j].0@ == k;
                        assert(j < i);
                    }
                }
            }
        }
        i += 1;
    }
    assert(entries@.take(entries@.len() as int) =~= entries@);
    out
}

/// Proto maps have no order: the secret entries sorted by key for determinism.
pub fn secret_pairs(map: MetadataMap) -> (r: Vec<(String, String)>)
    requires
        map.wf(),
    ensures
        sorted_keys(r@),
        keys_distinct(r@),
        pairs_map(r@) == map@,
        r@.len() == map@.len(),
{
    metadata_pairs(map)
}

/// A configuration item.
#[derive(PartialEq, Eq, Debug)]
pub struct ConfigurationItem {
    pub value: String,
    pub version: String,
    pub metadata: Vec<(String, String)>,
}

/// A configuration item from its proto fields, the metadata sorted by key.
pub fn configuration_item(value: String, version: String, metadata: MetadataMap) -> (c: ConfigurationItem)
    requires
        metadata.wf(),
    ensures
        c.value == value,
        c.version == version,
        sorted_keys(c.metadata@),
        pairs_map(c.metadata@) == metadata@,
        c.metadata@.len() == metadata@.len(),
{
    ConfigurationItem { value, version, metadata: metadata_pairs(metadata) }
}

/// The keys of keyed entries are pairwise different.
pub open spec fn entry_keys_distinct<T>(s: Seq<(String, T)>) -> bool {
    forall|i: int, j: int| 0 <= i < j < s.len() ==> s[i].0@ != s[j].0@
}

/// The keys of keyed entries are strictly increasing.
pub open spec fn entries_sorted<T>(s: Seq<(String, T)>) -> bool {
    forall|i: int, j: int| 0 <= i < j < s.len() ==> text_lt(s[i].0@, s[j].0@)
}

/// Sort keyed entries with distinct keys by key (code-point order).
pub fn sort_by_key<T>(entries: Vec<(String, T)>) -> (r: Vec<(String, T)>)
    requires
        entry_keys_distinct(entries@),
    ensures
        entries_sorted(r@),
        r@.len() == entries@.len(),
        r@.to_multiset() == entries@.to_multiset(),
{
    let ghost all = entries@;
    let total = entries.len();
    let mut rest = entries;
    let mut out: Vec<(String, T)> = Vec::new();
    let mut n: usize = 0;
    assert(all.subrange(0, all.len() as int) =~= all);
    assert(all.take(0) =~= out@);
    while rest.len() > 0
        invariant
            n <= all.len(),
            all.len() == total,
            entry_keys_distinct(all),
            rest@ == all.subrange(n as int, all.len() as int),
            entries_sorted(out@),
            out@.len() == n,
            out@.to_multiset() == all.take(n as int).to_multiset(),
            forall|i: int| 0 <= i < out@.len() ==> exists|j: int| 0 <= j < n && #[trigger] out@[i].0@ == all[j].0@,
        decreases rest@.len(),
    {
        let item = rest.remove(0);
        assert(item == all[n as int]);
        assert(rest@ =~= all.subrange(n + 1, all.len() as int));
        let mut p: usize = 0;
        while p < out.len() && !text_less(item.0.as_str(), out[p].0.as_str())
            invariant
                p <= out@.len(),
                forall|j: int| 0 <= j < p ==> !text_lt(item.0@, #[trigger] out@[j].0@),
            decreases out.len() - p,
        {
            p += 1;
        }
        let ghost old_out = out@;
        assert forall|j: int| 0 <= j < old_out.len() implies old_out[j].0@ != item.0@ by {
            let k = choose|k: int| 0 <= k < n && old_out[j].0@ == all[k].0@;
            assert(all[k].0@ != all[n as int].0@);
        }
        out.insert(p, item);
        proof {
            let new_out = out@;
            assert(new_out =~= old_out.take(p as int).push(item) + old_out.skip(p as int));
            assert forall|j: int| 0 <= j < p implies text_lt(old_out[j].0@, item.0@) by {
                lemma_text_lt_total(old_out[j].0@, item.0@);
            }
            assert forall|j: int| p <= j < old_out.len() implies text_lt(item.0@, old_out[j].0@) by {
                if j > p {
                    lemma_text_lt_transitive(item.0@, old_out[p as int].0@, old_out[j].0@);
                }
            }
            assert forall|a: int, b: int| 0 <= a < b < new_out.len() implies text_lt(
                new_out[a].0@,
                new_out[b].0@,
            ) by {
                if a < p && b > p {
                    lemma_text_lt_transitive(old_out[a].0@, item.0@, old_out[b - 1].0@);
                }
            }
            assert(all.take(n + 1) =~= all.take(n as int).push(item));
            vstd::seq_lib::to_multiset_build(all.take(n as int), item);
            assert(new_out =~= old_out.insert(p as int, item));
            vstd::seq_lib::to_multiset_insert(old_out, p as int, item);
            assert forall|i: int| 0 <= i < new_out.len() implies exists|j: int| 0 <= j < n + 1 && #[trigger] new_out[i].0@ == all[j].0@ by {
                if i < p {
                    assert(new_out[i] == old_out[i]);
                } else if i == p {
                    assert(all[n as int].0@ == new_out[i].0@);
                } else {
                    assert(new_out[i] == old_out[i - 1]);
                }
            }
        }
        n += 1;
    }
    assert(all.take(n as int) =~= all);
    out
}

/// Inserting a pair with a new key anywhere adds it to the map.
proof fn lemma_insert_map(s: Seq<(String, String)>, p: int, key: String, value: String)
    requires
        0 <= p <= s.len(),
        forall|j: int| 0 <= j < s.len() ==> s[j].0@ != key@,
    ensures
        pairs_map(s.take(p).push((key, value)) + s.skip(p)) == pairs_map(s).insert(key@, value@),
    decreases s.len() - p,
{
    let t = s.take(p).push((key, value)) + s.skip(p);
    if p == s.len() {
        assert(t.drop_last() =~= s);
    } else {
        let u = s.drop_last();
        lemma_insert_map(u, p, key, value);
        assert(t.drop_last() =~= u.take(p).push((key, value)) + u.skip(p));
        assert(t.last() == s.last());
        assert(pairs_map(t) =~= pairs_map(s).insert(key@, value@));
    }
}

} // verus!
