//! Typed cache of lazily built states, keyed by a type tag and a context key.
//!
//! An entry is absent until it is first resolved or set. Invalidation marks
//! every entry stale without destroying it; the next resolution of a stale
//! entry builds it again. Each built or installed value gets a fresh instance
//! number, so callers can tell one instance from the next.
use vstd::prelude::*;

verus! {

/// Identifies an entry: the kind of state and the instance of it (the unit
/// context is `0`).
#[derive(Clone, Copy, Debug, PartialEq, Eq, Structural)]
pub struct StateKey {
    pub type_tag: u64,
    pub context: u64,
}

/// A stored value with its validity flag and instance number.
pub struct Slot<V> {
    pub key: StateKey,
    pub value: V,
    pub valid: bool,
    pub instance: u64,
}

/// What a resolver hands back for a key.
pub enum Built<V> {
    /// No resolver is registered for the key's type.
    NoResolver,
    /// The resolver ran and failed.
    Failed(String),
    /// The resolver built a value.
    Value(V),
}

/// Why an entry could not be resolved.
#[derive(Debug)]
pub enum ResolveError {
    NoResolver,
    ResolverFailed(String),
}

/// The registered constructors, looked up by key.
pub trait Resolver<V> {
    /// What `build` hands back for `key` given the registry contents `states`.
    spec fn built(&self, states: RegistryView<V>, key: StateKey) -> Built<V>;

    /// Builds the value for `key`, reading other states from `states` as needed.
    fn build(&mut self, states: &StateRegistry<V>, key: StateKey) -> (r: Built<V>)
        ensures
            r == old(self).built(states@, key),
    ;
}

pub open spec fn keys_unique<V>(s: Seq<Slot<V>>) -> bool {
    forall|i: int, j: int| 0 <= i < j < s.len() ==> s[i].key != s[j].key
}

pub open spec fn has_key<V>(s: Seq<Slot<V>>, k: StateKey) -> bool {
    exists|i: int| 0 <= i < s.len() && s[i].key == k
}

/// The slots of `s` by key.
pub open spec fn slots_map<V>(s: Seq<Slot<V>>) -> Map<StateKey, Slot<V>> {
    Map::new(|k: StateKey| has_key(s, k), |k: StateKey| s[choose|i: int| 0 <= i < s.len() && s[i].key == k])
}

/// Abstract contents of a registry.
pub struct RegistryView<V> {
    pub entries: Map<StateKey, Slot<V>>,
    /// Number of resolver invocations so far.
    pub builds: nat,
    /// The instance number the next built or installed value receives.
    pub next_instance: nat,
}

impl<V> RegistryView<V> {
    /// Whether `k` holds a value that has not been invalidated.
    pub open spec fn is_current(&self, k: StateKey) -> bool {
        self.entries.contains_key(k) && self.entries[k].valid
    }

    /// The contents after a fresh `value` is stored under `k`.
    pub open spec fn install(&self, k: StateKey, value: V) -> RegistryView<V> {
        RegistryView {
            entries: self.entries.insert(
                k,
                Slot { key: k, value, valid: true, instance: self.next_instance as u64 },
            ),
            builds: self.builds,
            next_instance: self.next_instance + 1,
        }
    }

    /// The contents after the value under `k`, if any, is replaced in place,
    /// keeping its instance number and validity.
    pub open spec fn with_value(&self, k: StateKey, value: V) -> RegistryView<V> {
        if self.entries.contains_key(k) {
            RegistryView { entries: self.entries.insert(k, Slot { value, ..self.entries[k] }), ..*self }
        } else {
            *self
        }
    }

    /// The contents after every entry is marked stale.
    pub open spec fn invalidated(&self) -> RegistryView<V> {
        RegistryView {
            entries: Map::new(
                |k: StateKey| self.entries.contains_key(k),
                |k: StateKey| Slot { valid: false, ..self.entries[k] },
            ),
            builds: self.builds,
            next_instance: self.next_instance,
        }
    }
}

/// The contents and result of resolving `k` with resolver output `b`, for an
/// entry that is not current.
pub open spec fn spec_complete<V>(r: RegistryView<V>, k: StateKey, b: Built<V>) -> (RegistryView<V>, Result<u64, ResolveError>) {
    match b {
        Built::NoResolver => (r, Err(ResolveError::NoResolver)),
        Built::Failed(msg) => (
            RegistryView { builds: r.builds + 1, ..r },
            Err(ResolveError::ResolverFailed(msg)),
        ),
        Built::Value(v) => (
            RegistryView { builds: r.builds + 1, ..r.install(k, v) },
            Ok(r.next_instance as u64),
        ),
    }
}

/// The contents and result of resolving `k` when the resolver hands back `b`
/// (consulted only where the entry is not current).
pub open spec fn spec_resolve<V>(r: RegistryView<V>, k: StateKey, b: Built<V>) -> (RegistryView<V>, Result<u64, ResolveError>) {
    if r.is_current(k) {
        (r, Ok(r.entries[k].instance))
    } else {
        spec_complete(r, k, b)
    }
}

/// The slots behind a registry, with their counters.
struct SlotStore<V> {
    slots: Vec<Slot<V>>,
    builds: u64,
    next_instance: u64,
}

proof fn lemma_slot_at<V>(s: Seq<Slot<V>>, i: int)
    requires
        keys_unique(s),
        0 <= i < s.len(),
    ensures
        slots_map(s).contains_key(s[i].key),
        slots_map(s)[s[i].key] == s[i],
{
    let k = s[i].key;
    assert(has_key(s, k));
    let j = choose|j: int| 0 <= j < s.len() && s[j].key == k;
    assert(j == i);
}

proof fn lemma_update<V>(s: Seq<Slot<V>>, i: int, x: Slot<V>)
    requires
        keys_unique(s),
        0 <= i < s.len(),
        x.key == s[i].key,
    ensures
        keys_unique(s.update(i, x)),
        slots_map(s.update(i, x)) == slots_map(s).insert(x.key, x),
{
    let t = s.update(i, x);
    assert(keys_unique(t)) by {
        assert forall|a: int, b: int| 0 <= a < b < t.len() implies t[a].key != t[b].key by {
            assert(s[a].key != s[b].key);
        }
    }
    assert forall|k: StateKey| #[trigger] has_key(t, k) == (has_key(s, k) || k == x.key) by {
        if has_key(s, k) {
            let j = choose|j: int| 0 <= j < s.len() && s[j].key == k;
            assert(t[j].key == k);
        }
        if has_key(t, k) {
            let j = choose|j: int| 0 <= j < t.len() && t[j].key == k;
            assert(s[j].key == k || j == i);
        }
        if k == x.key {
            assert(t[i].key == k);
        }
    }
    assert forall|k: StateKey| slots_map(t).contains_key(k) implies slots_map(t)[k] == slots_map(s).insert(x.key, x)[k] by {
        let j = choose|j: int| 0 <= j < t.len() && t[j].key == k;
        lemma_slot_at(t, j);
        if j != i {
            lemma_slot_at(s, j);
        }
    }
    assert(slots_map(t) =~= slots_map(s).insert(x.key, x));
}

proof fn lemma_push<V>(s: Seq<Slot<V>>, x: Slot<V>)
    requires
        keys_unique(s),
        !has_key(s, x.key),
    ensures
        keys_unique(s.push(x)),
        slots_map(s.push(x)) == slots_map(s).insert(x.key, x),
{
    let t = s.push(x);
    assert(keys_unique(t)) by {
        assert forall|a: int, b: int| 0 <= a < b < t.len() implies t[a].key != t[b].key by {
            if b == s.len() {
                assert(s[a].key == t[a].key);
            }
        }
    }
    assert forall|k: StateKey| #[trigger] has_key(t, k) == (has_key(s, k) || k == x.key) by {
        if has_key(s, k) {
            let j = choose|j: int| 0 <= j < s.len() && s[j].key == k;
            assert(t[j].key == k);
        }
        if k == x.key {
            assert(t[s.len() as int].key == k);
        }
    }
    assert forall|k: StateKey| slots_map(t).contains_key(k) implies slots_map(t)[k] == slots_map(s).insert(x.key, x)[k] by {
        let j = choose|j: int| 0 <= j < t.len() && t[j].key == k;
        lemma_slot_at(t, j);
        if j < s.len() {
            lemma_slot_at(s, j);
        }
    }
    assert(slots_map(t) =~= slots_map(s).insert(x.key, x));
}

impl<V> View for SlotStore<V> {
    type V = RegistryView<V>;

    closed spec fn view(&self) -> RegistryView<V> {
        RegistryView {
            entries: slots_map(self.slots@),
            builds: self.builds as nat,
            next_instance: self.next_instance as nat,
        }
    }
}

impl<V> SlotStore<V> {
    /// Keys are unique and every instance number was handed out already.
    closed spec fn wf(&self) -> bool {
        &&& keys_unique(self.slots@)
        &&& forall|i: int| 0 <= i < self.slots@.len() ==> self.slots@[i].instance < self.next_instance
    }

    /// An empty registry.
    fn new() -> (r: Self)
        ensures
            r.wf(),
            r@.entries == Map::<StateKey, Slot<V>>::empty(),
            r@.builds == 0,
            r@.next_instance == 0,
    {
        let r = SlotStore { slots: Vec::new(), builds: 0, next_instance: 0 };
        assert(slots_map(r.slots@) =~= Map::<StateKey, Slot<V>>::empty());
        r
    }

    fn find(&self, k: StateKey) -> (r: Option<usize>)
        requires
            self.wf(),
        ensures
            match r {
                Some(i) => i < self.slots@.len() && self.slots@[i as int].key == k,
                None => !has_key(self.slots@, k),
            },
    {
        let mut i: usize = 0;
        while i < self.slots.len()
            invariant
                0 <= i <= self.slots@.len(),
                forall|j: int| 0 <= j < i ==> self.slots@[j].key != k,
            decreases self.slots@.len() - i,
        {
            if self.slots[i].key == k {
                return Some(i);
            }
            i = i + 1;
        }
        None
    }

    /// Whether `k` holds a value that has not been invalidated.
    fn is_current(&self, k: StateKey) -> (r: bool)
        requires
            self.wf(),
        ensures
            r == self@.is_current(k),
    {
        match self.find(k) {
            Some(i) => {
                proof { lemma_slot_at(self.slots@, i as int); }
                self.slots[i].valid
            },
            None => false,
        }
    }

    /// The stored value for `k`, current or stale.
    fn get(&self, k: StateKey) -> (r: Option<&V>)
        requires
            self.wf(),
        ensures
            r is Some == self@.entries.contains_key(k),
            r is Some ==> *r->Some_0 == self@.entries[k].value,
    {
        match self.find(k) {
            Some(i) => {
                proof { lemma_slot_at(self.slots@, i as int); }
                Some(&self.slots[i].value)
            },
            None => None,
        }
    }

    /// The instance number stored under `k`, current or stale.
    fn instance_of(&self, k: StateKey) -> (r: Option<u64>)
        requires
            self.wf(),
        ensures
            r == (if self@.entries.contains_key(k) { Some(self@.entries[k].instance) } else { None::<u64> }),
    {
        match self.find(k) {
            Some(i) => {
                proof { lemma_slot_at(self.slots@, i as int); }
                Some(self.slots[i].instance)
            },
            None => None,
        }
    }

    fn store(&mut self, k: StateKey, value: V) -> (id: u64)
        requires
            old(self).wf(),
            old(self)@.next_instance < u64::MAX,
        ensures
            final(self).wf(),
            final(self)@ == old(self)@.install(k, value),
            id == old(self)@.next_instance,
    {
        let id = self.next_instance;
        let slot = Slot { key: k, value, valid: true, instance: id };
        proof {
            assert forall|i: int| 0 <= i < self.slots@.len() implies self.slots@[i].instance < id + 1 by {}
        }
        match self.find(k) {
            Some(i) => {
                proof { lemma_update(self.slots@, i as int, slot); }
                self.slots.set(i, slot);
            },
            None => {
                proof { lemma_push(self.slots@, slot); }
                self.slots.push(slot);
            },
        }
        self.next_instance = id + 1;
        id
    }

    fn update_value(&mut self, k: StateKey, value: V) -> (found: bool)
        requires
            old(self).wf(),
        ensures
            final(self).wf(),
            found == old(self)@.entries.contains_key(k),
            final(self)@ == old(self)@.with_value(k, value),
    {
        match self.find(k) {
            Some(i) => {
                proof {
                    lemma_slot_at(self.slots@, i as int);
                    lemma_update(self.slots@, i as int, Slot { value, ..self.slots@[i as int] });
                }
                self.slots[i].value = value;
                true
            },
            None => {
                proof { assert(!slots_map(self.slots@).contains_key(k)); }
                false
            },
        }
    }

    /// Marks every entry stale; builds nothing.
    fn invalidate_states(&mut self)
        requires
            old(self).wf(),
        ensures
            final(self).wf(),
            final(self)@ == old(self)@.invalidated(),
    {
        let ghost s0 = self.slots@;
        let n = self.slots.len();
        let mut i: usize = 0;
        while i < n
            invariant
                n == s0.len(),
                0 <= i <= n,
                self.slots@.len() == n,
                self.builds == old(self).builds,
                self.next_instance == old(self).next_instance,
                s0 == old(self).slots@,
                forall|j: int| 0 <= j < i ==> self.slots@[j] == (Slot { valid: false, ..s0[j] }),
                forall|j: int| i <= j < n ==> self.slots@[j] == s0[j],
            decreases n - i,
        {
            self.slots[i].valid = false;
            i = i + 1;
        }
        proof {
            let t = self.slots@;
            assert(keys_unique(t)) by {
                assert forall|a: int, b: int| 0 <= a < b < t.len() implies t[a].key != t[b].key by {
                    assert(s0[a].key != s0[b].key);
                }
            }
            assert forall|k: StateKey| #[trigger] has_key(t, k) == has_key(s0, k) by {
                if has_key(s0, k) {
                    let j = choose|j: int| 0 <= j < s0.len() && s0[j].key == k;
                    assert(t[j].key == k);
                }
                if has_key(t, k) {
                    let j = choose|j: int| 0 <= j < t.len() && t[j].key == k;
                    assert(s0[j].key == k);
                }
            }
            let goal = old(self)@.invalidated().entries;
            assert forall|k: StateKey| slots_map(t).contains_key(k) implies slots_map(t)[k] == goal[k] by {
                let j = choose|j: int| 0 <= j < t.len() && t[j].key == k;
                lemma_slot_at(t, j);
                lemma_slot_at(s0, j);
            }
            assert(slots_map(t) =~= goal);
        }
    }

    /// Stores what a resolver handed back for an entry that is not current.
    fn complete_resolve(&mut self, k: StateKey, built: Built<V>) -> (r: Result<u64, ResolveError>)
        requires
            old(self).wf(),
            !old(self)@.is_current(k),
            old(self)@.next_instance < u64::MAX,
            old(self)@.builds < u64::MAX,
        ensures
            final(self).wf(),
            (final(self)@, r) == spec_complete(old(self)@, k, built),
    {
        match built {
            Built::NoResolver => Err(ResolveError::NoResolver),
            Built::Failed(msg) => {
                self.builds = self.builds + 1;
                Err(ResolveError::ResolverFailed(msg))
            },
            Built::Value(v) => {
                let id = self.store(k, v);
                self.builds = self.builds + 1;
                Ok(id)
            },
        }
    }
}

/// Typed cache of lazily built states.
pub struct StateRegistry<V> {
    store: SlotStore<V>,
}

impl<V> View for StateRegistry<V> {
    type V = RegistryView<V>;

    closed spec fn view(&self) -> RegistryView<V> {
        self.store@
    }
}

impl<V> StateRegistry<V> {
    #[verifier::type_invariant]
    spec fn inv(&self) -> bool {
        self.store.wf()
    }

    fn take_store(&mut self) -> (s: SlotStore<V>)
        ensures
            s.wf(),
            s@ == old(self)@,
    {
        proof { use_type_invariant(&*self); }
        let mut s = SlotStore::new();
        std::mem::swap(&mut s, &mut self.store);
        s
    }

    /// An empty registry.
    pub fn new() -> (r: Self)
        ensures
            r@.entries == Map::<StateKey, Slot<V>>::empty(),
            r@.builds == 0,
            r@.next_instance == 0,
    {
        StateRegistry { store: SlotStore::new() }
    }

    /// Whether `k` holds a value that has not been invalidated.
    pub fn is_current(&self, k: StateKey) -> (r: bool)
        ensures
            r == self@.is_current(k),
    {
        proof { use_type_invariant(self); }
        self.store.is_current(k)
    }

    /// The stored value for `k`, current or stale.
    pub fn get(&self, k: StateKey) -> (r: Option<&V>)
        ensures
            r is Some == self@.entries.contains_key(k),
            r is Some ==> *r->Some_0 == self@.entries[k].value,
    {
        proof { use_type_invariant(self); }
        self.store.get(k)
    }

    /// The instance number stored under `k`, current or stale.
    pub fn instance_of(&self, k: StateKey) -> (r: Option<u64>)
        ensures
            r == (if self@.entries.contains_key(k) { Some(self@.entries[k].instance) } else { None::<u64> }),
    {
        proof { use_type_invariant(self); }
        self.store.instance_of(k)
    }

    /// Installs a value built elsewhere under `k`, bypassing any resolver;
    /// returns its instance number.
    pub fn set(&mut self, value: V, k: StateKey) -> (id: u64)
        requires
            old(self)@.next_instance < u64::MAX,
        ensures
            final(self)@ == old(self)@.install(k, value),
            id == old(self)@.next_instance,
    {
        let mut s = self.take_store();
        let id = s.store(k, value);
        self.store = s;
        id
    }

    /// Replaces in place the value of the existing entry under `k`, keeping
    /// its instance number and validity; returns whether there was one. The
    /// `&mut` borrow makes this access exclusive.
    pub fn update_value(&mut self, k: StateKey, value: V) -> (found: bool)
        ensures
            found == old(self)@.entries.contains_key(k),
            final(self)@ == old(self)@.with_value(k, value),
    {
        let mut s = self.take_store();
        let found = s.update_value(k, value);
        self.store = s;
        found
    }

    /// Marks every entry stale; builds nothing.
    pub fn invalidate_states(&mut self)
        ensures
            final(self)@ == old(self)@.invalidated(),
    {
        let mut s = self.take_store();
        s.invalidate_states();
        self.store = s;
    }

    /// Stores what a resolver handed back for an entry that is not current.
    pub fn complete_resolve(&mut self, k: StateKey, built: Built<V>) -> (r: Result<u64, ResolveError>)
        requires
            !old(self)@.is_current(k),
            old(self)@.next_instance < u64::MAX,
            old(self)@.builds < u64::MAX,
        ensures
            (final(self)@, r) == spec_complete(old(self)@, k, built),
    {
        let mut s = self.take_store();
        let r = s.complete_resolve(k, built);
        self.store = s;
        r
    }

    /// Returns the instance number of the current value under `k`, building
    /// it first through `resolvers` when it is absent or stale.
    pub fn resolve<R: Resolver<V>>(&mut self, k: StateKey, resolvers: &mut R) -> (r: Result<u64, ResolveError>)
        requires
            old(self)@.next_instance < u64::MAX,
            old(self)@.builds < u64::MAX,
        ensures
            !old(self)@.is_current(k) ==> (final(self)@, r) == spec_complete(old(self)@, k, old(resolvers).built(old(self)@, k)),
            (final(self)@, r) == spec_resolve(old(self)@, k, old(resolvers).built(old(self)@, k)),
            old(self)@.is_current(k) ==> final(self)@ == old(self)@ && r == Ok::<u64, ResolveError>(old(self)@.entries[k].instance),
    {
        if self.is_current(k) {
            let id = self.instance_of(k);
            Ok(id.unwrap())
        } else {
            let built = resolvers.build(&*self, k);
            let ghost b = built;
            let r = self.complete_resolve(k, built);
            proof { assert((self@, r) == spec_resolve(old(self)@, k, b)); }
            r
        }
    }
}

} // verus!
