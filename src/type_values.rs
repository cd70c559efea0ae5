//! The per-type attribute table that builtins consult. It reaches no
//! environment: native code gets this table and never a scope.

use vstd::prelude::*;
use vstd::string::StringExecFns;
use crate::heap::Heap;
use crate::table::{Entry, find, keys_unique, lemma_table_domain, lemma_table_push, lemma_table_update, put, table_map};
use crate::value::{Value, type_name_of};

verus! {

/// Attributes (builtin methods and the like) by runtime type name, then by
/// attribute name.
#[derive(Debug)]
pub struct TypeValues {
    heap: Heap,
    type_objs: Vec<Entry<Vec<Entry<Value>>>>,
}

impl TypeValues {
    /// The attributes registered for the type named `tname`.
    pub closed spec fn attrs_of(&self, tname: Seq<char>) -> Map<Seq<char>, Value> {
        if table_map(self.type_objs@).contains_key(tname) {
            table_map(table_map(self.type_objs@)[tname]@)
        } else {
            Map::empty()
        }
    }

    /// The type names that have an attribute table.
    pub closed spec fn types(&self) -> Set<Seq<char>> {
        table_map(self.type_objs@).dom()
    }

    pub closed spec fn spec_heap(&self) -> Heap {
        self.heap
    }

    /// Type names are registered once, and attribute names once per type.
    pub closed spec fn wf(&self) -> bool {
        &&& keys_unique(self.type_objs@)
        &&& forall|i: int| 0 <= i < self.type_objs@.len() ==> keys_unique(#[trigger] self.type_objs@[i].val@)
    }

    /// The attribute `id` of the runtime type of `obj`, if registered.
    pub fn get_type_value(&self, obj: &Value, id: &str) -> (r: Option<Value>)
        requires
            self.wf(),
        ensures
            r == (if self.attrs_of(type_name_of(*obj)).contains_key(id@) {
                Some(self.attrs_of(type_name_of(*obj))[id@])
            } else {
                None::<Value>
            }),
    {
        match find(&self.type_objs, obj.runtime_type_name()) {
            Some(i) => {
                let attrs = &self.type_objs[i].val;
                match find(attrs, id) {
                    Some(j) => Some(attrs[j].val.duplicate()),
                    None => None,
                }
            },
            None => None,
        }
    }

    /// The attribute names registered for the runtime type of `obj`, each
    /// once; empty when the type has none.
    pub fn list_type_value(&self, obj: &Value) -> (r: Vec<String>)
        requires
            self.wf(),
        ensures
            r@.map_values(|s: String| s@).no_duplicates(),
            forall|k: Seq<char>|
                r@.map_values(|s: String| s@).contains(k) <==> self.attrs_of(
                    type_name_of(*obj),
                ).contains_key(k),
    {
        let mut r: Vec<String> = Vec::new();
        match find(&self.type_objs, obj.runtime_type_name()) {
            Some(t) => {
                let attrs = &self.type_objs[t].val;
                assert(keys_unique(attrs@));
                let mut i: usize = 0;
                while i < attrs.len()
                    invariant
                        i <= attrs@.len(),
                        keys_unique(attrs@),
                        r@.len() == i,
                        forall|j: int| 0 <= j < i ==> (#[trigger] r@[j])@ == attrs@[j].key@,
                    decreases attrs@.len() - i,
                {
                    r.push(attrs[i].key.clone());
                    i = i + 1;
                }
                let ghost names = r@.map_values(|s: String| s@);
                assert forall|k: Seq<char>| names.contains(k) <==> table_map(attrs@).contains_key(k) by {
                    lemma_table_domain(attrs@, k);
                    if table_map(attrs@).contains_key(k) {
                        let j = choose|j: int| 0 <= j < attrs@.len() && attrs@[j].key@ == k;
                        assert(names[j] == k);
                    }
                }
                assert forall|a: int, b: int| 0 <= a < names.len() && 0 <= b < names.len() && a != b implies names[a]
                    != names[b] by {
                    if a < b {
                        assert(attrs@[a].key@ != attrs@[b].key@);
                    } else {
                        assert(attrs@[b].key@ != attrs@[a].key@);
                    }
                }
            },
            None => {
                assert(r@.map_values(|s: String| s@) =~= Seq::empty());
            },
        }
        r
    }

    /// Registers `value` as the attribute `attr` of the type named `obj`,
    /// in place of any earlier one; the type gets a table where it had none.
    pub fn add_type_value(&mut self, obj: &str, attr: &str, value: Value)
        requires
            old(self).wf(),
        ensures
            final(self).wf(),
            final(self).spec_heap() == old(self).spec_heap(),
            final(self).types() == old(self).types().insert(obj@),
            final(self).attrs_of(obj@) == old(self).attrs_of(obj@).insert(attr@, value),
            forall|t: Seq<char>| t != obj@ ==> final(self).attrs_of(t) == old(self).attrs_of(t),
    {
        match find(&self.type_objs, obj) {
            Some(i) => {
                let ghost before = self.type_objs@;
                put(&mut self.type_objs[i].val, attr, value);
                proof {
                    let e = self.type_objs@[i as int];
                    assert(self.type_objs@ == before.update(i as int, e));
                    lemma_table_update(before, i as int, e);
                    assert(self.types() =~= old(self).types().insert(obj@));
                }
            },
            None => {
                let mut dict: Vec<Entry<Value>> = Vec::new();
                put(&mut dict, attr, value);
                let e = Entry { key: String::from_str(obj), val: dict };
                proof {
                    lemma_table_push(self.type_objs@, e);
                    assert(table_map(Seq::<Entry<Value>>::empty()) == Map::<Seq<char>, Value>::empty());
                }
                self.type_objs.push(e);
                proof {
                    assert(self.types() =~= old(self).types().insert(obj@));
                }
            },
        }
    }

    /// The heap that type values live in.
    pub fn heap(&self) -> (r: &Heap)
        ensures
            *r == self.spec_heap(),
    {
        &self.heap
    }
}

impl Default for TypeValues {
    /// An empty table with a heap of its own.
    fn default() -> (r: TypeValues)
        ensures
            r.wf(),
            r.types() == Set::<Seq<char>>::empty(),
            forall|t: Seq<char>| r.attrs_of(t) == Map::<Seq<char>, Value>::empty(),
            r.spec_heap().name@ == "type_values"@,
            r.spec_heap().passes@.len() == 0,
    {
        let r = TypeValues { heap: Heap::new("type_values"), type_objs: Vec::new() };
        assert(r.types() =~= Set::<Seq<char>>::empty());
        r
    }
}

} // verus!
