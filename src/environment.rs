//! Lexical environments: scopes that bind names, freeze, import from one
//! another and delegate lookups to the scope they are nested in.

use std::rc::Rc;
use vstd::prelude::*;
use vstd::string::{StrSliceExecFns, StringExecFns};
use crate::error::EnvironmentError;
use crate::heap::{GcPass, Heap};
use crate::table::{Entry, find, keys_unique, lemma_table_at, lemma_table_domain, put, table_map};
use crate::value::{ListRef, Value, frozen_value, gc_head_of, is_immutable};

verus! {

/// A set-literal constructor installed by the embedding host, which keeps
/// the constructor itself and names it by `id`.
#[derive(Clone, Copy, Debug, PartialEq, Eq, Structural)]
pub struct SetConstructor {
    pub id: u64,
}

/// A set literal to build: the constructor that applies and its elements.
#[derive(Debug)]
pub struct SetCall {
    pub constructor: SetConstructor,
    pub values: Vec<Value>,
}

/// What a name is bound to, and whether it was imported from another
/// environment rather than defined here.
#[derive(Debug)]
pub struct Slot {
    pub value: Value,
    pub imported: bool,
}

/// A scope imported from: its identity, its name, and a share of its
/// identity token, which keeps that identity from going to another scope
/// while it is recorded here.
#[derive(Debug)]
struct Dep {
    id: String,
    name: String,
    token: Rc<()>,
}

/// One lexical scope. A nested scope holds a frozen copy of the scope it
/// was created from; the scopes further out are shared, not copied.
#[derive(Debug)]
pub struct Environment {
    name: String,
    id: String,
    token: Rc<()>,
    frozen: bool,
    parent: Option<Rc<Environment>>,
    deps: Vec<Dep>,
    heap: Heap,
    variables: Vec<Entry<Slot>>,
    set_constructor: Option<SetConstructor>,
}

/// A symbol that cannot be imported: empty or starting with `_`.
pub open spec fn is_private(symbol: Seq<char>) -> bool {
    symbol.len() == 0 || symbol[0] == '_'
}

/// Whether a slot gives a root: defined in place (not imported) and bound
/// to a heap-resident value.
pub open spec fn is_root_slot(s: Slot) -> bool {
    !s.imported && s.value is List
}

/// The GC heads of the bindings that give a root, in order.
pub open spec fn own_heads(s: Seq<Entry<Slot>>) -> Seq<ListRef>
    decreases s.len(),
{
    if s.len() == 0 {
        Seq::empty()
    } else if is_root_slot(s.last().val) {
        own_heads(s.drop_last()).push(s.last().val.value->List_0)
    } else {
        own_heads(s.drop_last())
    }
}

/// The identities of recorded sources, given as (identity, name) pairs.
pub open spec fn dep_ids(deps: Seq<(Seq<char>, Seq<char>)>) -> Seq<Seq<char>> {
    deps.map_values(|d: (Seq<char>, Seq<char>)| d.0)
}

/// `s` with its value made immutable.
pub open spec fn frozen_slot(s: Slot) -> Slot {
    Slot { value: frozen_value(s.value), imported: s.imported }
}

/// The entries that give a root, in order.
pub open spec fn own_entries(s: Seq<Entry<Slot>>) -> Seq<Entry<Slot>>
    decreases s.len(),
{
    if s.len() == 0 {
        Seq::empty()
    } else if is_root_slot(s.last().val) {
        own_entries(s.drop_last()).push(s.last())
    } else {
        own_entries(s.drop_last())
    }
}

/// `names` lists the bindings of `env` that give a root, one per name, in
/// the order of its roots: the i-th name is bound to the list whose head is
/// the i-th root.
pub open spec fn roots_listed_by(env: Environment, names: Seq<Seq<char>>) -> bool {
    &&& names.len() == env.spec_roots().len()
    &&& names.no_duplicates()
    &&& forall|i: int|
        0 <= i < names.len() ==> {
            &&& env.bindings().contains_key(#[trigger] names[i])
            &&& !env.bindings()[names[i]].imported
            &&& env.bindings()[names[i]].value == Value::List(env.spec_roots()[i])
        }
    &&& forall|n: Seq<char>|
        #[trigger] env.bindings().contains_key(n) && is_root_slot(env.bindings()[n]) ==> names.contains(n)
}

/// `deps` with the source of identity `id` and name `name` recorded once.
pub open spec fn with_dep(deps: Seq<(Seq<char>, Seq<char>)>, id: Seq<char>, name: Seq<char>) -> Seq<
    (Seq<char>, Seq<char>),
> {
    if dep_ids(deps).contains(id) {
        deps
    } else {
        deps.push((id, name))
    }
}

/// Relies on `Rc::clone`: the new handle shares the value of the old one.
#[verifier::external_body]
fn share<T>(rc: &Rc<T>) -> (r: Rc<T>)
    ensures
        *r == **rc,
{
    Rc::clone(rc)
}

/// Relies on the `Pointer` formatting of `Rc`: the address of the token's
/// allocation, which no other allocation alive at the same time has. It
/// depends on the allocator, so nothing is stated of it.
#[verifier::external_body]
fn address_of(token: &Rc<()>) -> String {
    format!("{:p}", *token)
}

impl Environment {
    pub closed spec fn spec_name(&self) -> Seq<char> {
        self.name@
    }

    pub closed spec fn spec_frozen(&self) -> bool {
        self.frozen
    }

    pub closed spec fn spec_parent(&self) -> Option<Environment> {
        match self.parent {
            Some(p) => Some(*p),
            None => None,
        }
    }

    /// The identity this scope was given when created.
    pub closed spec fn spec_id(&self) -> Seq<char> {
        self.id@
    }

    /// The sources imported from, as (identity, name) pairs.
    pub closed spec fn spec_deps(&self) -> Seq<(Seq<char>, Seq<char>)> {
        self.deps@.map_values(|d: Dep| (d.id@, d.name@))
    }

    pub closed spec fn spec_entries(&self) -> Seq<Entry<Slot>> {
        self.variables@
    }

    /// The bindings made in this scope itself.
    pub closed spec fn bindings(&self) -> Map<Seq<char>, Slot> {
        table_map(self.variables@)
    }

    pub closed spec fn spec_heap(&self) -> Heap {
        self.heap
    }

    pub closed spec fn spec_set_constructor(&self) -> Option<SetConstructor> {
        self.set_constructor
    }

    /// What `name` resolves to: the nearest binding along the scope chain.
    pub closed spec fn lookup(&self, name: Seq<char>) -> Option<Value>
        decreases self,
    {
        if table_map(self.variables@).contains_key(name) {
            Some(table_map(self.variables@)[name].value)
        } else {
            match self.parent {
                Some(p) => (*p).lookup(name),
                None => None,
            }
        }
    }

    /// The nearest set constructor along the scope chain.
    pub closed spec fn set_constructor_in_scope(&self) -> Option<SetConstructor>
        decreases self,
    {
        match self.set_constructor {
            Some(c) => Some(c),
            None => match self.parent {
                Some(p) => (*p).set_constructor_in_scope(),
                None => None,
            },
        }
    }

    /// Names are bound once, a frozen scope holds only immutable values,
    /// the sources are recorded once, and every enclosing scope is frozen.
    pub closed spec fn wf(&self) -> bool
        decreases self,
    {
        &&& keys_unique(self.variables@)
        &&& self.frozen ==> forall|i: int|
            0 <= i < self.variables@.len() ==> is_immutable(#[trigger] self.variables@[i].val.value)
        &&& dep_ids(self.spec_deps()).no_duplicates()
        &&& match self.parent {
            Some(p) => (*p).frozen && (*p).wf(),
            None => true,
        }
    }

    /// The roots that this scope hands to a tracing collection.
    pub closed spec fn spec_roots(&self) -> Seq<ListRef> {
        own_heads(self.variables@)
    }
}

/// `b` holds the same state as `a`.
pub open spec fn same_state(a: Environment, b: Environment) -> bool {
    &&& a.spec_name() == b.spec_name()
    &&& a.spec_id() == b.spec_id()
    &&& a.spec_frozen() == b.spec_frozen()
    &&& a.spec_parent() == b.spec_parent()
    &&& a.spec_deps() == b.spec_deps()
    &&& a.spec_entries() == b.spec_entries()
    &&& a.bindings() == b.bindings()
    &&& a.spec_heap().name@ == b.spec_heap().name@
    &&& a.spec_heap().passes@ == b.spec_heap().passes@
    &&& a.spec_set_constructor() == b.spec_set_constructor()
}

/// `b` is `a` after its first freeze, with a tracing pass when `gc` holds.
pub open spec fn froze(a: Environment, b: Environment, gc: bool) -> bool {
    &&& b.spec_frozen()
    &&& b.spec_name() == a.spec_name()
    &&& b.spec_id() == a.spec_id()
    &&& b.spec_parent() == a.spec_parent()
    &&& b.spec_deps() == a.spec_deps()
    &&& b.spec_set_constructor() == a.spec_set_constructor()
    &&& b.bindings() == a.bindings().map_values(|s: Slot| frozen_slot(s))
    &&& b.spec_entries().len() == a.spec_entries().len()
    &&& forall|i: int|
        0 <= i < a.spec_entries().len() ==> {
            &&& (#[trigger] b.spec_entries()[i]).key@ == a.spec_entries()[i].key@
            &&& b.spec_entries()[i].val.value == frozen_value(a.spec_entries()[i].val.value)
            &&& b.spec_entries()[i].val.imported == a.spec_entries()[i].val.imported
        }
    &&& b.spec_heap().name@ == a.spec_heap().name@
    &&& b.spec_heap().passes@ == a.spec_heap().passes@.push(
        if gc {
            GcPass::Full { roots: b.spec_roots().len() as usize }
        } else {
            GcPass::Weak
        },
    )
}

/// `b` is `a` with `name` bound to `slot` in its own scope.
pub open spec fn rebound(a: Environment, b: Environment, name: Seq<char>, slot: Slot) -> bool {
    &&& b.spec_frozen() == a.spec_frozen()
    &&& b.spec_name() == a.spec_name()
    &&& b.spec_id() == a.spec_id()
    &&& b.spec_parent() == a.spec_parent()
    &&& b.spec_set_constructor() == a.spec_set_constructor()
    &&& b.spec_heap() == a.spec_heap()
    &&& b.bindings() == a.bindings().insert(name, slot)
}

/// `b` has the state of `a` but for its recorded sources.
pub open spec fn same_but_deps(a: Environment, b: Environment) -> bool {
    &&& b.spec_frozen() == a.spec_frozen()
    &&& b.spec_name() == a.spec_name()
    &&& b.spec_id() == a.spec_id()
    &&& b.spec_parent() == a.spec_parent()
    &&& b.spec_set_constructor() == a.spec_set_constructor()
    &&& b.spec_heap() == a.spec_heap()
    &&& b.spec_entries() == a.spec_entries()
}

fn copy_entries(v: &Vec<Entry<Slot>>) -> (r: Vec<Entry<Slot>>)
    ensures
        r@ == v@,
{
    let mut r: Vec<Entry<Slot>> = Vec::new();
    let mut i: usize = 0;
    while i < v.len()
        invariant
            i <= v@.len(),
            r@ == v@.subrange(0, i as int),
        decreases v@.len() - i,
    {
        let e = &v[i];
        r.push(Entry { key: e.key.clone(), val: Slot { value: e.val.value.duplicate(), imported: e.val.imported } });
        i = i + 1;
        assert(r@ =~= v@.subrange(0, i as int));
    }
    assert(r@ =~= v@);
    r
}

fn copy_deps(v: &Vec<Dep>) -> (r: Vec<Dep>)
    ensures
        r@.map_values(|d: Dep| (d.id@, d.name@)) == v@.map_values(|d: Dep| (d.id@, d.name@)),
{
    let mut r: Vec<Dep> = Vec::new();
    let mut i: usize = 0;
    while i < v.len()
        invariant
            i <= v@.len(),
            r@.len() == i,
            forall|j: int| 0 <= j < i ==> (#[trigger] r@[j]).id == v@[j].id && r@[j].name == v@[j].name,
        decreases v@.len() - i,
    {
        let d = &v[i];
        r.push(Dep { id: d.id.clone(), name: d.name.clone(), token: share(&d.token) });
        i = i + 1;
    }
    assert(r@.map_values(|d: Dep| (d.id@, d.name@)) =~= v@.map_values(|d: Dep| (d.id@, d.name@)));
    r
}

impl Environment {
    /// A fresh root scope: unfrozen, with no parent, bindings or sources,
    /// and a heap of its own.
    pub fn new(name: &str) -> (r: Environment)
        ensures
            r.wf(),
            r.spec_name() == name@,
            !r.spec_frozen(),
            r.spec_parent().is_none(),
            r.spec_deps().len() == 0,
            r.spec_entries().len() == 0,
            r.bindings() == Map::<Seq<char>, Slot>::empty(),
            forall|n: Seq<char>| #[trigger] r.lookup(n) == None::<Value>,
            r.spec_set_constructor().is_none(),
            r.set_constructor_in_scope().is_none(),
            r.spec_heap().name@ == name@,
            r.spec_heap().passes@.len() == 0,
    {
        let token = Rc::new(());
        let id = address_of(&token);
        let r = Environment {
            name: String::from_str(name),
            id,
            token,
            frozen: false,
            parent: None,
            deps: Vec::new(),
            heap: Heap::new(name),
            variables: Vec::new(),
            set_constructor: None,
        };
        assert(r.spec_deps() =~= Seq::empty());
        r
    }

    /// A copy of this scope; the parent is shared, not copied.
    fn duplicate(&self) -> (r: Environment)
        requires
            self.wf(),
        ensures
            same_state(r, *self),
            r.wf(),
    {
        let parent = match &self.parent {
            Some(p) => Some(share(p)),
            None => None,
        };
        let r = Environment {
            name: self.name.clone(),
            id: self.id.clone(),
            token: share(&self.token),
            frozen: self.frozen,
            parent,
            deps: copy_deps(&self.deps),
            heap: self.heap.duplicate(),
            variables: copy_entries(&self.variables),
            set_constructor: self.set_constructor,
        };
        assert(r.spec_deps() =~= self.spec_deps());
        r
    }

    /// The GC heads of the values bound by bindings defined in this scope:
    /// imported bindings and values with no heap payload give none. These
    /// are the roots of a tracing collection of its heap.
    pub fn roots(&self) -> (r: Vec<ListRef>)
        ensures
            r@ == self.spec_roots(),
    {
        let mut r: Vec<ListRef> = Vec::new();
        let mut i: usize = 0;
        while i < self.variables.len()
            invariant
                i <= self.variables@.len(),
                r@ == own_heads(self.variables@.subrange(0, i as int)),
            decreases self.variables@.len() - i,
        {
            let e = &self.variables[i];
            assert(self.variables@.subrange(0, i + 1 as int).drop_last() =~= self.variables@.subrange(0, i as int));
            if !e.val.imported {
                if let Some(head) = e.val.value.gc_head() {
                    r.push(head);
                }
            }
            i = i + 1;
        }
        assert(self.variables@.subrange(0, i as int) =~= self.variables@);
        r
    }

    /// Freezes this scope: every bound value becomes immutable and no
    /// binding can change any more. Then runs a tracing collection of the
    /// heap from `roots` when `gc` holds, else the pass that does not trace.
    /// Returns whether anything changed: false when already frozen.
    pub fn freeze(&mut self, gc: bool) -> (changed: bool)
        requires
            old(self).wf(),
        ensures
            final(self).wf(),
            final(self).spec_frozen(),
            changed == !old(self).spec_frozen(),
            old(self).spec_frozen() ==> *final(self) == *old(self),
            !old(self).spec_frozen() ==> froze(*old(self), *final(self), gc),
    {
        if self.frozen {
            return false;
        }
        self.frozen = true;
        let mut i: usize = 0;
        while i < self.variables.len()
            invariant
                i <= self.variables@.len(),
                self.frozen,
                self.name == old(self).name,
                self.id == old(self).id,
                self.token == old(self).token,
                self.parent == old(self).parent,
                self.deps == old(self).deps,
                self.heap == old(self).heap,
                self.set_constructor == old(self).set_constructor,
                self.variables@.len() == old(self).variables@.len(),
                forall|j: int|
                    0 <= j < old(self).variables@.len() ==> {
                        &&& (#[trigger] self.variables@[j]).key == old(self).variables@[j].key
                        &&& self.variables@[j].val.imported == old(self).variables@[j].val.imported
                        &&& j < i ==> self.variables@[j].val.value == frozen_value(old(self).variables@[j].val.value)
                        &&& j >= i ==> self.variables@[j].val.value == old(self).variables@[j].val.value
                    },
            decreases self.variables@.len() - i,
        {
            self.variables[i].val.value.make_immutable();
            i = i + 1;
        }
        if gc {
            let roots = self.roots();
            self.heap.collect(&roots);
        } else {
            self.heap.collect_weak();
        }
        proof {
            lemma_frozen_table(old(self).variables@, self.variables@);
            assert forall|j: int| 0 <= j < self.variables@.len() implies is_immutable(
                #[trigger] self.variables@[j].val.value,
            ) by {
                let v = old(self).variables@[j].val.value;
                assert(self.variables@[j].val.value == frozen_value(v));
            }
        }
        true
    }

    /// Freezes this scope, as `freeze` with a tracing collection, and returns
    /// a fresh unfrozen scope nested in it, with a heap of its own.
    pub fn child(&mut self, name: &str) -> (r: Environment)
        requires
            old(self).wf(),
        ensures
            final(self).wf(),
            final(self).spec_frozen(),
            old(self).spec_frozen() ==> *final(self) == *old(self),
            !old(self).spec_frozen() ==> froze(*old(self), *final(self), true),
            r.wf(),
            r.spec_name() == name@,
            !r.spec_frozen(),
            match r.spec_parent() {
                Some(p) => same_state(p, *final(self)),
                None => false,
            },
            r.spec_deps().len() == 0,
            r.spec_entries().len() == 0,
            r.bindings() == Map::<Seq<char>, Slot>::empty(),
            r.spec_set_constructor().is_none(),
            r.spec_heap().name@ == name@,
            r.spec_heap().passes@.len() == 0,
    {
        self.freeze(true);
        let snapshot = self.duplicate();
        let token = Rc::new(());
        let id = address_of(&token);
        let r = Environment {
            name: String::from_str(name),
            id,
            token,
            frozen: false,
            parent: Some(Rc::new(snapshot)),
            deps: Vec::new(),
            heap: Heap::new(name),
            variables: Vec::new(),
            set_constructor: None,
        };
        assert(r.spec_deps() =~= Seq::empty());
        r
    }
}

impl Environment {
    /// Binds `name` in this scope, as defined here or as imported.
    fn bind(&mut self, name: &str, value: Value, imported: bool) -> (r: Result<(), EnvironmentError>)
        requires
            old(self).wf(),
        ensures
            final(self).wf(),
            old(self).spec_frozen() ==> r == Err::<(), EnvironmentError>(
                EnvironmentError::TryingToMutateFrozenEnvironment,
            ) && *final(self) == *old(self),
            !old(self).spec_frozen() ==> r is Ok && final(self).spec_deps() == old(self).spec_deps()
                && rebound(*old(self), *final(self), name@, Slot { value, imported }),
    {
        if self.frozen {
            Err(EnvironmentError::TryingToMutateFrozenEnvironment)
        } else {
            put(&mut self.variables, name, Slot { value, imported });
            Ok(())
        }
    }

    /// Binds `name` to `value` in this scope itself (never in an enclosing
    /// one). Fails, changing nothing, when this scope is frozen.
    pub fn set(&mut self, name: &str, value: Value) -> (r: Result<(), EnvironmentError>)
        requires
            old(self).wf(),
        ensures
            final(self).wf(),
            old(self).spec_frozen() ==> r == Err::<(), EnvironmentError>(
                EnvironmentError::TryingToMutateFrozenEnvironment,
            ) && *final(self) == *old(self),
            !old(self).spec_frozen() ==> r is Ok && final(self).spec_deps() == old(self).spec_deps()
                && rebound(*old(self), *final(self), name@, Slot { value, imported: false }),
    {
        self.bind(name, value, false)
    }

    /// The value `name` resolves to: bound here, or else in the nearest
    /// enclosing scope that binds it.
    pub fn get(&self, name: &str) -> (r: Result<Value, EnvironmentError>)
        requires
            self.wf(),
        ensures
            match self.lookup(name@) {
                Some(v) => r == Ok::<Value, EnvironmentError>(v),
                None => match r {
                    Err(EnvironmentError::VariableNotFound(s)) => s@ == name@,
                    _ => false,
                },
            },
        decreases self,
    {
        match find(&self.variables, name) {
            Some(i) => Ok(self.variables[i].val.value.duplicate()),
            None => match &self.parent {
                Some(p) => p.get(name),
                None => Err(EnvironmentError::VariableNotFound(String::from_str(name))),
            },
        }
    }

    /// Records `dep` among the scopes this one imported from, once: by its
    /// identity, so that two scopes of the same name are two sources.
    fn add_env_dep(&mut self, dep: &Environment)
        requires
            old(self).wf(),
        ensures
            final(self).wf(),
            same_but_deps(*old(self), *final(self)),
            final(self).spec_deps() == with_dep(old(self).spec_deps(), dep.spec_id(), dep.spec_name()),
    {
        let mut i: usize = 0;
        while i < self.deps.len()
            invariant
                i <= self.deps@.len(),
                *self == *old(self),
                self.wf(),
                forall|j: int| 0 <= j < i ==> self.deps@[j].id@ != dep.id@,
            decreases self.deps@.len() - i,
        {
            if self.deps[i].id == dep.id {
                assert(dep_ids(self.spec_deps())[i as int] == dep.id@);
                return;
            }
            i = i + 1;
        }
        assert(!dep_ids(self.spec_deps()).contains(dep.id@));
        self.deps.push(Dep { id: dep.id.clone(), name: dep.name.clone(), token: share(&dep.token) });
        assert(self.spec_deps() =~= old(self).spec_deps().push((dep.id@, dep.name@)));
        assert(dep_ids(self.spec_deps()) =~= dep_ids(old(self).spec_deps()).push(dep.id@));
    }

    /// Imports `symbol`, as `env` resolves it now, into this scope under
    /// `new_name`. A private symbol (empty or starting with `_`) is refused
    /// before anything else. Otherwise `env` is recorded as a source, then
    /// the lookup in `env` and the binding here may fail in that order.
    pub fn import_symbol(&mut self, env: &Environment, symbol: &str, new_name: &str) -> (r: Result<
        (),
        EnvironmentError,
    >)
        requires
            old(self).wf(),
            env.wf(),
        ensures
            final(self).wf(),
            is_private(symbol@) ==> *final(self) == *old(self) && match r {
                Err(EnvironmentError::CannotImportPrivateSymbol(s)) => s@ == symbol@,
                _ => false,
            },
            !is_private(symbol@) ==> final(self).spec_deps() == with_dep(
                old(self).spec_deps(),
                env.spec_id(),
                env.spec_name(),
            ),
            !is_private(symbol@) ==> match env.lookup(symbol@) {
                None => same_but_deps(*old(self), *final(self)) && match r {
                    Err(EnvironmentError::VariableNotFound(s)) => s@ == symbol@,
                    _ => false,
                },
                Some(v) => if old(self).spec_frozen() {
                    same_but_deps(*old(self), *final(self)) && r == Err::<(), EnvironmentError>(
                        EnvironmentError::TryingToMutateFrozenEnvironment,
                    )
                } else {
                    r is Ok && rebound(*old(self), *final(self), new_name@, Slot { value: v, imported: true })
                },
            },
    {
        if symbol.unicode_len() == 0 || symbol.get_char(0) == '_' {
            return Err(EnvironmentError::CannotImportPrivateSymbol(String::from_str(symbol)));
        }
        self.add_env_dep(env);
        let value = match env.get(symbol) {
            Ok(v) => v,
            Err(e) => {
                return Err(e);
            },
        };
        self.bind(new_name, value, true)
    }

    /// The scope this one is nested in, if any.
    pub fn get_parent(&self) -> (r: Option<&Environment>)
        ensures
            match r {
                Some(p) => self.spec_parent() == Some(*p),
                None => self.spec_parent().is_none(),
            },
    {
        match &self.parent {
            Some(p) => Some(&**p),
            None => None,
        }
    }

    /// Installs the constructor for set literals in this scope, in place of
    /// any installed before. Fails, changing nothing, when frozen.
    pub fn with_set_constructor(&mut self, constructor: SetConstructor) -> (r: Result<
        (),
        EnvironmentError,
    >)
        requires
            old(self).wf(),
        ensures
            final(self).wf(),
            old(self).spec_frozen() ==> r == Err::<(), EnvironmentError>(
                EnvironmentError::TryingToMutateFrozenEnvironment,
            ) && *final(self) == *old(self),
            !old(self).spec_frozen() ==> {
                &&& r is Ok
                &&& final(self).spec_set_constructor() == Some(constructor)
                &&& final(self).set_constructor_in_scope() == Some(constructor)
                &&& final(self).spec_frozen() == old(self).spec_frozen()
                &&& final(self).spec_name() == old(self).spec_name()
                &&& final(self).spec_id() == old(self).spec_id()
                &&& final(self).spec_parent() == old(self).spec_parent()
                &&& final(self).spec_deps() == old(self).spec_deps()
                &&& final(self).spec_heap() == old(self).spec_heap()
                &&& final(self).spec_entries() == old(self).spec_entries()
            },
    {
        if self.frozen {
            Err(EnvironmentError::TryingToMutateFrozenEnvironment)
        } else {
            self.set_constructor = Some(constructor);
            Ok(())
        }
    }

    /// The set literal with elements `values`, addressed to the nearest
    /// set constructor along the scope chain; the operation is unsupported
    /// when no scope of the chain has one.
    pub fn make_set(&self, values: Vec<Value>) -> (r: Result<SetCall, EnvironmentError>)
        ensures
            match self.set_constructor_in_scope() {
                Some(c) => match r {
                    Ok(call) => call.constructor == c && call.values == values,
                    Err(_) => false,
                },
                None => match r {
                    Err(EnvironmentError::UnsupportedOperation(s)) => s@ == "set"@,
                    _ => false,
                },
            },
        decreases self,
    {
        match self.set_constructor {
            Some(c) => Ok(SetCall { constructor: c, values }),
            None => match &self.parent {
                Some(p) => p.make_set(values),
                None => Err(EnvironmentError::UnsupportedOperation(String::from_str("set"))),
            },
        }
    }

    /// The name this scope was created with.
    pub fn name(&self) -> (r: String)
        ensures
            r@ == self.spec_name(),
    {
        self.name.clone()
    }

    /// Whether this scope is frozen.
    pub fn is_frozen(&self) -> (r: bool)
        ensures
            r == self.spec_frozen(),
    {
        self.frozen
    }

    /// The private heap of this scope.
    pub fn heap(&self) -> (r: &Heap)
        ensures
            *r == self.spec_heap(),
    {
        &self.heap
    }

    /// The identity this scope was given when created; a frozen copy made
    /// for its nested scopes keeps it.
    pub fn id(&self) -> (r: String)
        ensures
            r@ == self.spec_id(),
    {
        self.id.clone()
    }

    /// The names of the scopes this one imported from, one per source.
    pub fn dependencies(&self) -> (r: Vec<String>)
        ensures
            r@.map_values(|d: String| d@) == self.spec_deps().map_values(|d: (Seq<char>, Seq<char>)| d.1),
    {
        let mut r: Vec<String> = Vec::new();
        let mut i: usize = 0;
        while i < self.deps.len()
            invariant
                i <= self.deps@.len(),
                r@.len() == i,
                forall|j: int| 0 <= j < i ==> (#[trigger] r@[j])@ == self.deps@[j].name@,
            decreases self.deps@.len() - i,
        {
            r.push(self.deps[i].name.clone());
            i = i + 1;
        }
        assert(r@.map_values(|d: String| d@) =~= self.spec_deps().map_values(
            |d: (Seq<char>, Seq<char>)| d.1,
        ));
        r
    }
}

proof fn lemma_own_heads_contains(s: Seq<Entry<Slot>>, v: ListRef)
    ensures
        own_heads(s).contains(v) <==> exists|i: int|
            0 <= i < s.len() && !s[i].val.imported && s[i].val.value == Value::List(v),
    decreases s.len(),
{
    if s.len() > 0 {
        let t = s.drop_last();
        lemma_own_heads_contains(t, v);
        if exists|i: int| 0 <= i < t.len() && !t[i].val.imported && t[i].val.value == Value::List(v) {
            let i = choose|i: int| 0 <= i < t.len() && !t[i].val.imported && t[i].val.value == Value::List(v);
            assert(s[i] == t[i]);
            if is_root_slot(s.last().val) {
                assert(own_heads(s)[own_heads(t).index_of(v)] == v);
            }
        }
        if own_heads(s).contains(v) && !own_heads(t).contains(v) {
            assert(s[s.len() - 1].val.value == Value::List(v));
        }
        if exists|i: int| 0 <= i < s.len() && !s[i].val.imported && s[i].val.value == Value::List(v) {
            let i = choose|i: int| 0 <= i < s.len() && !s[i].val.imported && s[i].val.value == Value::List(v);
            if i < t.len() {
                assert(t[i] == s[i]);
            } else {
                assert(own_heads(s).last() == v);
            }
        }
    }
}

/// Once `name` is bound to `value` in a scope, looking `name` up there
/// gives `value`, whichever scopes enclose it.
pub proof fn law_get_after_set(before: Environment, after: Environment, name: Seq<char>, value: Value, imported: bool)
    requires
        rebound(before, after, name, Slot { value, imported }),
    ensures
        after.lookup(name) == Some(value),
{
    assert(after.bindings().contains_key(name));
}

/// A name that a nested scope does not bind resolves there as in the
/// scope it is nested in.
pub proof fn law_lookup_through_child(parent: Environment, child: Environment, name: Seq<char>)
    requires
        match child.spec_parent() {
            Some(p) => same_state(p, parent),
            None => false,
        },
        !child.bindings().contains_key(name),
    ensures
        child.lookup(name) == parent.lookup(name),
{
    let p = child.spec_parent().unwrap();
    assert(p.lookup(name) == parent.lookup(name)) by {
        assert(p.variables@ == parent.variables@);
        match p.parent {
            Some(q) => {
                assert(parent.parent is Some);
                assert(*q == *parent.parent.unwrap());
            },
            None => {
                assert(parent.parent is None);
            },
        }
    }
}

/// A scope without a set constructor of its own builds set literals with
/// the one that the scope it is nested in would use.
pub proof fn law_set_constructor_inherited(parent: Environment, child: Environment)
    requires
        match child.spec_parent() {
            Some(p) => same_state(p, parent),
            None => false,
        },
        child.spec_set_constructor().is_none(),
    ensures
        child.set_constructor_in_scope() == parent.set_constructor_in_scope(),
{
    let p = child.spec_parent().unwrap();
    assert(p.set_constructor_in_scope() == parent.set_constructor_in_scope()) by {
        match p.parent {
            Some(q) => {
                assert(parent.parent is Some);
                assert(*q == *parent.parent.unwrap());
            },
            None => {
                assert(parent.parent is None);
            },
        }
    }
}

/// A root scope without a set constructor supports no set literal.
pub proof fn law_no_set_constructor(env: Environment)
    requires
        env.spec_parent().is_none(),
        env.spec_set_constructor().is_none(),
    ensures
        env.set_constructor_in_scope().is_none(),
{
}

/// The roots of a scope are exactly the heads of the lists bound in it by
/// bindings defined there: an imported binding and an immediate value
/// contribute none.
pub proof fn law_roots_are_own_bindings(env: Environment, v: ListRef)
    requires
        env.wf(),
    ensures
        env.spec_roots().contains(v) <==> exists|name: Seq<char>|
            #[trigger] env.bindings().contains_key(name) && !env.bindings()[name].imported
                && env.bindings()[name].value == Value::List(v),
{
    let s = env.spec_entries();
    lemma_own_heads_contains(s, v);
    if env.spec_roots().contains(v) {
        let i = choose|i: int| 0 <= i < s.len() && !s[i].val.imported && s[i].val.value == Value::List(v);
        lemma_table_at(s, i);
        assert(env.bindings().contains_key(s[i].key@));
    }
    if exists|name: Seq<char>|
        #[trigger] env.bindings().contains_key(name) && !env.bindings()[name].imported
            && env.bindings()[name].value == Value::List(v) {
        let name = choose|name: Seq<char>|
            #[trigger] env.bindings().contains_key(name) && !env.bindings()[name].imported
                && env.bindings()[name].value == Value::List(v);
        lemma_table_domain(s, name);
        let i = choose|i: int| 0 <= i < s.len() && s[i].key@ == name;
        lemma_table_at(s, i);
    }
}

proof fn lemma_frozen_table(a: Seq<Entry<Slot>>, b: Seq<Entry<Slot>>)
    requires
        b.len() == a.len(),
        forall|i: int|
            0 <= i < a.len() ==> {
                &&& (#[trigger] b[i]).key@ == a[i].key@
                &&& b[i].val.value == frozen_value(a[i].val.value)
                &&& b[i].val.imported == a[i].val.imported
            },
    ensures
        table_map(b) == table_map(a).map_values(|s: Slot| frozen_slot(s)),
    decreases a.len(),
{
    if a.len() > 0 {
        let (ta, tb) = (a.drop_last(), b.drop_last());
        assert forall|i: int| 0 <= i < ta.len() implies {
            &&& (#[trigger] tb[i]).key@ == ta[i].key@
            &&& tb[i].val.value == frozen_value(ta[i].val.value)
            &&& tb[i].val.imported == ta[i].val.imported
        } by {
            assert(tb[i] == b[i] && ta[i] == a[i]);
        }
        lemma_frozen_table(ta, tb);
        assert(b.last().val == frozen_slot(a.last().val));
        assert(table_map(b) =~= table_map(a).map_values(|s: Slot| frozen_slot(s)));
    }
}

proof fn lemma_own_entries(s: Seq<Entry<Slot>>)
    requires
        keys_unique(s),
    ensures
        own_heads(s) == own_entries(s).map_values(|e: Entry<Slot>| e.val.value->List_0),
        keys_unique(own_entries(s)),
        forall|i: int|
            0 <= i < own_entries(s).len() ==> {
                &&& is_root_slot((#[trigger] own_entries(s)[i]).val)
                &&& table_map(s).contains_key(own_entries(s)[i].key@)
                &&& table_map(s)[own_entries(s)[i].key@] == own_entries(s)[i].val
            },
        forall|n: Seq<char>|
            #[trigger] table_map(s).contains_key(n) && is_root_slot(table_map(s)[n]) ==> own_entries(
                s,
            ).map_values(|e: Entry<Slot>| e.key@).contains(n),
    decreases s.len(),
{
    if s.len() > 0 {
        let t = s.drop_last();
        let last = s.last();
        assert(keys_unique(t));
        lemma_own_entries(t);
        let ot = own_entries(t);
        let os = own_entries(s);
        assert(own_heads(s) =~= os.map_values(|e: Entry<Slot>| e.val.value->List_0));
        // a key of an entry of `t` is not the last key
        assert forall|i: int| 0 <= i < ot.len() implies (#[trigger] ot[i]).key@ != last.key@ by {
            lemma_table_domain(t, ot[i].key@);
            let j = choose|j: int| 0 <= j < t.len() && t[j].key@ == ot[i].key@;
            assert(s[j] == t[j]);
        }
        assert forall|i: int| 0 <= i < os.len() implies {
            &&& is_root_slot((#[trigger] os[i]).val)
            &&& table_map(s).contains_key(os[i].key@)
            &&& table_map(s)[os[i].key@] == os[i].val
        } by {
            if i < ot.len() {
                assert(os[i] == ot[i]);
            }
        }
        assert forall|a: int, b: int| 0 <= a < b < os.len() implies os[a].key@ != os[b].key@ by {
            if b < ot.len() {
                assert(os[a] == ot[a] && os[b] == ot[b]);
            } else {
                assert(os[a] == ot[a]);
                assert(ot[a].key@ != last.key@);
            }
        }
        assert forall|n: Seq<char>|
            #[trigger] table_map(s).contains_key(n) && is_root_slot(table_map(s)[n]) implies os.map_values(
                |e: Entry<Slot>| e.key@,
            ).contains(n) by {
            let keys = os.map_values(|e: Entry<Slot>| e.key@);
            if n == last.key@ {
                assert(keys[keys.len() - 1] == n);
            } else {
                let kt = ot.map_values(|e: Entry<Slot>| e.key@);
                assert(table_map(s) == table_map(t).insert(last.key@, last.val));
                assert(table_map(t).contains_key(n) && table_map(t)[n] == table_map(s)[n]);
                assert(kt.contains(n));
                let k = choose|k: int| 0 <= k < kt.len() && kt[k] == n;
                assert(keys[k] == n);
            }
        }
    }
}

/// Where a name resolves: the scope's own binding of it, else what the
/// scope it is nested in resolves it to, else nowhere.
pub proof fn law_lookup_step(env: Environment, name: Seq<char>)
    ensures
        env.lookup(name) == (if env.bindings().contains_key(name) {
            Some(env.bindings()[name].value)
        } else {
            match env.spec_parent() {
                Some(p) => p.lookup(name),
                None => None::<Value>,
            }
        }),
{
}

/// The set constructor in scope: the scope's own, else the one in scope
/// where it is nested, else none.
pub proof fn law_set_constructor_step(env: Environment)
    ensures
        env.set_constructor_in_scope() == (match env.spec_set_constructor() {
            Some(c) => Some(c),
            None => match env.spec_parent() {
                Some(p) => p.set_constructor_in_scope(),
                None => None::<SetConstructor>,
            },
        }),
{
}

/// Every value bound in a frozen scope is immutable.
pub proof fn law_frozen_values_immutable(env: Environment, name: Seq<char>)
    requires
        env.wf(),
        env.spec_frozen(),
        env.bindings().contains_key(name),
    ensures
        is_immutable(env.bindings()[name].value),
{
    lemma_table_domain(env.variables@, name);
    let i = choose|i: int| 0 <= i < env.variables@.len() && env.variables@[i].key@ == name;
    lemma_table_at(env.variables@, i);
    assert(is_immutable(env.variables@[i].val.value));
}

/// The roots list the heads of the lists bound by bindings defined in the
/// scope, one per name: as many roots as such bindings, none for an
/// imported binding or a value with no heap payload.
pub proof fn law_roots_one_per_own_binding(env: Environment)
    requires
        env.wf(),
    ensures
        exists|names: Seq<Seq<char>>| #[trigger] roots_listed_by(env, names),
{
    let s = env.variables@;
    lemma_own_entries(s);
    let os = own_entries(s);
    let names = os.map_values(|e: Entry<Slot>| e.key@);
    assert forall|a: int, b: int| 0 <= a < names.len() && 0 <= b < names.len() && a != b implies names[a]
        != names[b] by {
        if a < b {
            assert(os[a].key@ != os[b].key@);
        } else {
            assert(os[b].key@ != os[a].key@);
        }
    }
    assert forall|i: int| 0 <= i < names.len() implies {
        &&& env.bindings().contains_key(#[trigger] names[i])
        &&& !env.bindings()[names[i]].imported
        &&& env.bindings()[names[i]].value == Value::List(env.spec_roots()[i])
    } by {
        assert(names[i] == os[i].key@);
        assert(Value::List(env.spec_roots()[i]) == os[i].val.value);
    }
    assert(roots_listed_by(env, names));
}

/// Each source is recorded once: no two recorded sources share an identity.
pub proof fn law_sources_recorded_once(env: Environment)
    requires
        env.wf(),
    ensures
        dep_ids(env.spec_deps()).no_duplicates(),
{
}

} // verus!
