//! Tables keyed by name: a vector of entries with unique keys, seen as a map.

use vstd::prelude::*;
use vstd::string::StringExecFns;

verus! {

/// One named entry of a table.
#[derive(Debug)]
pub struct Entry<V> {
    pub key: String,
    pub val: V,
}

/// The map that a sequence of entries stands for; a later entry wins.
pub open spec fn table_map<V>(s: Seq<Entry<V>>) -> Map<Seq<char>, V>
    decreases s.len(),
{
    if s.len() == 0 {
        Map::empty()
    } else {
        table_map(s.drop_last()).insert(s.last().key@, s.last().val)
    }
}

/// No two entries share a key.
pub open spec fn keys_unique<V>(s: Seq<Entry<V>>) -> bool {
    forall|i: int, j: int| 0 <= i < j < s.len() ==> s[i].key@ != s[j].key@
}

pub proof fn lemma_table_absent<V>(s: Seq<Entry<V>>, k: Seq<char>)
    requires
        forall|i: int| 0 <= i < s.len() ==> s[i].key@ != k,
    ensures
        !table_map(s).contains_key(k),
    decreases s.len(),
{
    if s.len() > 0 {
        lemma_table_absent(s.drop_last(), k);
    }
}

pub proof fn lemma_table_at<V>(s: Seq<Entry<V>>, i: int)
    requires
        keys_unique(s),
        0 <= i < s.len(),
    ensures
        table_map(s).contains_key(s[i].key@),
        table_map(s)[s[i].key@] == s[i].val,
    decreases s.len(),
{
    if i < s.len() - 1 {
        lemma_table_at(s.drop_last(), i);
    }
}

pub proof fn lemma_table_domain<V>(s: Seq<Entry<V>>, k: Seq<char>)
    requires
        keys_unique(s),
    ensures
        table_map(s).contains_key(k) <==> exists|i: int| 0 <= i < s.len() && s[i].key@ == k,
{
    if exists|i: int| 0 <= i < s.len() && s[i].key@ == k {
        let i = choose|i: int| 0 <= i < s.len() && s[i].key@ == k;
        lemma_table_at(s, i);
    } else {
        lemma_table_absent(s, k);
    }
}

pub proof fn lemma_table_push<V>(s: Seq<Entry<V>>, e: Entry<V>)
    ensures
        table_map(s.push(e)) == table_map(s).insert(e.key@, e.val),
{
    assert(s.push(e).drop_last() =~= s);
}

pub proof fn lemma_table_update<V>(s: Seq<Entry<V>>, i: int, e: Entry<V>)
    requires
        keys_unique(s),
        0 <= i < s.len(),
        s[i].key@ == e.key@,
    ensures
        table_map(s.update(i, e)) == table_map(s).insert(e.key@, e.val),
        keys_unique(s.update(i, e)),
    decreases s.len(),
{
    let t = s.update(i, e);
    if i == s.len() - 1 {
        assert(t.drop_last() =~= s.drop_last());
        assert(table_map(t) =~= table_map(s).insert(e.key@, e.val));
    } else {
        assert(t.drop_last() =~= s.drop_last().update(i, e));
        lemma_table_update(s.drop_last(), i, e);
        assert(table_map(t) =~= table_map(s).insert(e.key@, e.val));
    }
}

/// The position of the entry with key `key`, if any.
pub fn find<V>(t: &Vec<Entry<V>>, key: &str) -> (r: Option<usize>)
    requires
        keys_unique(t@),
    ensures
        match r {
            Some(i) => {
                &&& i < t@.len()
                &&& t@[i as int].key@ == key@
                &&& table_map(t@).contains_key(key@)
                &&& table_map(t@)[key@] == t@[i as int].val
            },
            None => {
                &&& !table_map(t@).contains_key(key@)
                &&& forall|j: int| 0 <= j < t@.len() ==> t@[j].key@ != key@
            },
        },
{
    let k = String::from_str(key);
    let mut i: usize = 0;
    while i < t.len()
        invariant
            i <= t@.len(),
            k@ == key@,
            keys_unique(t@),
            forall|j: int| 0 <= j < i ==> t@[j].key@ != key@,
        decreases t@.len() - i,
    {
        if t[i].key == k {
            proof {
                lemma_table_at(t@, i as int);
            }
            return Some(i);
        }
        i = i + 1;
    }
    proof {
        lemma_table_absent(t@, key@);
    }
    None
}

/// Sets the entry for `key` to `val`, adding it where it is missing.
pub fn put<V>(t: &mut Vec<Entry<V>>, key: &str, val: V)
    requires
        keys_unique(old(t)@),
    ensures
        keys_unique(final(t)@),
        table_map(final(t)@) == table_map(old(t)@).insert(key@, val),
{
    let e = Entry { key: String::from_str(key), val };
    match find(t, key) {
        Some(i) => {
            proof {
                lemma_table_update(t@, i as int, e);
            }
            t.set(i, e);
        },
        None => {
            proof {
                lemma_table_push(t@, e);
            }
            t.push(e);
        },
    }
}

} // verus!
