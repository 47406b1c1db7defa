use vstd::prelude::*;

verus! {

/// One `key=value` pair attached to a metric point.
pub struct Label {
    pub key: String,
    pub value: String,
}

impl Label {
    pub open spec fn pair(&self) -> (Seq<char>, Seq<char>) {
        (self.key@, self.value@)
    }
}

/// A label set: pairs with pairwise distinct keys, kept in insertion order.
pub struct Labels {
    pub entries: Vec<Label>,
}

/// The pairs of a list of labels, as values.
pub open spec fn pairs_of(v: Seq<Label>) -> Seq<(Seq<char>, Seq<char>)> {
    v.map_values(|l: Label| l.pair())
}

/// No key occurs twice.
pub open spec fn keys_unique(s: Seq<(Seq<char>, Seq<char>)>) -> bool {
    forall|i: int, j: int| 0 <= i < j < s.len() ==> s[i].0 != s[j].0
}

/// The map that a sequence of pairs denotes; a later pair overrides an earlier one.
pub open spec fn map_of(s: Seq<(Seq<char>, Seq<char>)>) -> Map<Seq<char>, Seq<char>>
    decreases s.len(),
{
    if s.len() == 0 {
        Map::empty()
    } else {
        map_of(s.drop_last()).insert(s.last().0, s.last().1)
    }
}

/// With distinct keys, every pair of the sequence is an entry of its map.
pub proof fn lemma_map_of_index(s: Seq<(Seq<char>, Seq<char>)>, i: int)
    requires
        keys_unique(s),
        0 <= i < s.len(),
    ensures
        map_of(s).contains_key(s[i].0),
        map_of(s)[s[i].0] == s[i].1,
    decreases s.len(),
{
    if i < s.len() - 1 {
        lemma_map_of_index(s.drop_last(), i);
    }
}

/// A key that no pair carries is not in the map.
pub proof fn lemma_map_of_absent(s: Seq<(Seq<char>, Seq<char>)>, k: Seq<char>)
    requires
        forall|i: int| 0 <= i < s.len() ==> s[i].0 != k,
    ensures
        !map_of(s).contains_key(k),
    decreases s.len(),
{
    if s.len() > 0 {
        lemma_map_of_absent(s.drop_last(), k);
    }
}

/// Replacing the value of a pair replaces that key's value in the map.
pub proof fn lemma_map_of_update(s: Seq<(Seq<char>, Seq<char>)>, i: int, v: Seq<char>)
    requires
        keys_unique(s),
        0 <= i < s.len(),
    ensures
        map_of(s.update(i, (s[i].0, v))) == map_of(s).insert(s[i].0, v),
    decreases s.len(),
{
    let k = s[i].0;
    let t = s.update(i, (k, v));
    if i == s.len() - 1 {
        assert(t.drop_last() =~= s.drop_last());
        assert(map_of(t) =~= map_of(s).insert(k, v));
    } else {
        assert(t.drop_last() =~= s.drop_last().update(i, (k, v)));
        lemma_map_of_update(s.drop_last(), i, v);
        assert(map_of(t) =~= map_of(s).insert(k, v));
    }
}

/// With distinct keys, the map has one entry per pair.
pub proof fn lemma_map_of_len(s: Seq<(Seq<char>, Seq<char>)>)
    requires
        keys_unique(s),
    ensures
        map_of(s).dom().finite(),
        map_of(s).dom().len() == s.len(),
    decreases s.len(),
{
    if s.len() > 0 {
        let t = s.drop_last();
        lemma_map_of_len(t);
        lemma_map_of_absent(t, s.last().0);
    }
}

impl Labels {
    /// The labels as a map from key to value.
    pub open spec fn view(&self) -> Map<Seq<char>, Seq<char>> {
        map_of(pairs_of(self.entries@))
    }

    pub open spec fn wf(&self) -> bool {
        keys_unique(pairs_of(self.entries@))
    }

    /// An empty label set.
    pub fn new() -> (r: Labels)
        ensures
            r.wf(),
            r.view() == Map::<Seq<char>, Seq<char>>::empty(),
            r.entries@.len() == 0,
    {
        let r = Labels { entries: Vec::new() };
        assert(pairs_of(r.entries@) =~= Seq::empty());
        r
    }

    /// Number of distinct keys.
    pub fn len(&self) -> (r: usize)
        requires
            self.wf(),
        ensures
            r == self.entries@.len(),
            r == self.view().len(),
    {
        proof {
            lemma_map_of_len(pairs_of(self.entries@));
        }
        self.entries.len()
    }

    /// Sets `key` to `value`, replacing the value that `key` had, if any.
    pub fn insert(&mut self, key: String, value: String)
        requires
            old(self).wf(),
        ensures
            final(self).wf(),
            final(self).view() == old(self).view().insert(key@, value@),
    {
        let n = self.entries.len();
        let mut i: usize = 0;
        while i < n
            invariant
                n == self.entries@.len(),
                *self == *old(self),
                self.wf(),
                i <= n,
                forall|j: int| 0 <= j < i ==> self.entries@[j].key@ != key@,
            decreases n - i,
        {
            if self.entries[i].key == key {
                let ghost s = pairs_of(self.entries@);
                proof {
                    lemma_map_of_update(s, i as int, value@);
                }
                self.entries[i].value = value;
                assert(pairs_of(self.entries@) =~= s.update(i as int, (s[i as int].0, value@)));
                assert(forall|j: int|
                    0 <= j < n ==> #[trigger] pairs_of(self.entries@)[j].0 == s[j].0);
                return;
            }
            i = i + 1;
        }
        let ghost s = pairs_of(self.entries@);
        let ghost kv = (key@, value@);
        self.entries.push(Label { key, value });
        assert(pairs_of(self.entries@) =~= s.push(kv));
        assert(pairs_of(self.entries@).drop_last() =~= s);
    }

    /// The value of `key`, if it has one.
    pub fn get(&self, key: &String) -> (r: Option<&String>)
        requires
            self.wf(),
        ensures
            match r {
                Some(v) => self.view().contains_key(key@) && self.view()[key@] == v@,
                None => !self.view().contains_key(key@),
            },
    {
        let n = self.entries.len();
        let mut i: usize = 0;
        while i < n
            invariant
                n == self.entries@.len(),
                self.wf(),
                i <= n,
                forall|j: int| 0 <= j < i ==> self.entries@[j].key@ != key@,
            decreases n - i,
        {
            if self.entries[i].key == *key {
                proof {
                    lemma_map_of_index(pairs_of(self.entries@), i as int);
                }
                return Some(&self.entries[i].value);
            }
            i = i + 1;
        }
        proof {
            lemma_map_of_absent(pairs_of(self.entries@), key@);
        }
        None
    }
}

/// Copies `base`, then sets each pair of `extra` over it: on a shared key the
/// value of `extra` wins.
pub fn merge_labels(base: &Labels, extra: &Option<Labels>) -> (r: Labels)
    requires
        base.wf(),
        extra matches Some(e) ==> e.wf(),
    ensures
        r.wf(),
        r.view() == merged_view(base.view(), extra),
{
    let mut r = Labels::new();
    add_all(&mut r, base);
    match extra {
        Some(e) => {
            add_all(&mut r, e);
        },
        None => {},
    }
    assert(r.view() =~= merged_view(base.view(), extra));
    r
}

/// What the merge of `base` with `extra` holds.
pub open spec fn merged_view(base: Map<Seq<char>, Seq<char>>, extra: &Option<Labels>) -> Map<
    Seq<char>,
    Seq<char>,
> {
    match extra {
        Some(e) => base.union_prefer_right(e.view()),
        None => base,
    }
}

/// Label-merge precedence: on a key that both hold, the extra labels' value
/// wins; a key that only the base holds keeps the base's value; nothing else
/// is added.
pub proof fn lemma_merge_precedence(
    base: Map<Seq<char>, Seq<char>>,
    extra: Option<Labels>,
    k: Seq<char>,
)
    ensures
        extra is Some && extra->Some_0.view().contains_key(k) ==> merged_view(base, &extra).contains_key(k)
            && merged_view(base, &extra)[k] == extra->Some_0.view()[k],
        base.contains_key(k) && !(extra is Some && extra->Some_0.view().contains_key(k)) ==> merged_view(
            base,
            &extra,
        ).contains_key(k) && merged_view(base, &extra)[k] == base[k],
        merged_view(base, &extra).contains_key(k) ==> base.contains_key(k) || (extra is Some
            && extra->Some_0.view().contains_key(k)),
{
}

fn add_all(r: &mut Labels, from: &Labels)
    requires
        old(r).wf(),
    ensures
        final(r).wf(),
        final(r).view() == old(r).view().union_prefer_right(from.view()),
{
    let ghost start = r.view();
    let ghost fp = pairs_of(from.entries@);
    let n = from.entries.len();
    let mut i: usize = 0;
    assert(fp.take(0) =~= Seq::empty());
    assert(start.union_prefer_right(Map::empty()) =~= start);
    while i < n
        invariant
            n == from.entries@.len(),
            fp == pairs_of(from.entries@),
            i <= n,
            r.wf(),
            r.view() == start.union_prefer_right(map_of(fp.take(i as int))),
        decreases n - i,
    {
        let key = from.entries[i].key.clone();
        let value = from.entries[i].value.clone();
        let ghost before = map_of(fp.take(i as int));
        r.insert(key, value);
        assert(fp.take(i as int + 1).drop_last() =~= fp.take(i as int));
        assert(map_of(fp.take(i as int + 1)) == before.insert(fp[i as int].0, fp[i as int].1));
        assert(r.view() =~= start.union_prefer_right(map_of(fp.take(i as int + 1))));
        i = i + 1;
    }
    assert(fp.take(n as int) =~= fp);
}

} // verus!
