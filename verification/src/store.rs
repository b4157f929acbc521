//! Registry of the scene's models while they load in the background.
//!
//! Every model is announced with [`ModelStore::spawn`], which hands out a fresh
//! id and marks it `Burning`; when its load finishes it is delivered and becomes
//! `Molten`. Static objects and light-emitting objects live in separate tables.
use std::collections::hash_map::Entry;
use std::collections::HashMap;
use std::marker::PhantomData;
use vstd::prelude::*;

verus! {

broadcast use vstd::std_specs::hash::group_hash_axioms;

/// The two kinds of model the engine draws.
#[derive(Clone, Copy, Debug, PartialEq, Eq, Structural)]
pub enum TypeModel {
    StaticObj,
    PointOfLight,
}

/// Loading state of a model: requested (`Burning`), ready (`Molten`) or
/// discarded (`Ash`).
pub enum Bead<T> {
    Burning,
    Molten(T),
    Ash,
}

/// Handle to a spawned model: the caller keeps the id while the model loads.
pub struct Ingot<T> {
    pub id: usize,
    pub _marker: PhantomData<T>,
}

/// Owns every model of the scene, keyed by the id handed out at spawn time.
pub struct ModelStore<T> {
    static_models: HashMap<usize, Bead<T>>,
    light_models: HashMap<usize, Bead<T>>,
    next_id: usize,
}

/// The `n` first ids of `m` that hold a loaded model, in increasing id order.
pub open spec fn molten_prefix<T>(m: Map<usize, Bead<T>>, n: nat) -> Seq<T>
    decreases n,
{
    if n == 0 {
        Seq::empty()
    } else {
        let before = molten_prefix(m, (n - 1) as nat);
        let id = (n - 1) as usize;
        if m.contains_key(id) && m[id] is Molten {
            before.push(m[id]->Molten_0)
        } else {
            before
        }
    }
}

/// The two tables after the finished loads of `s` arrive, in order.
pub open spec fn deliveries<T>(
    tables: (Map<usize, Bead<T>>, Map<usize, Bead<T>>),
    s: Seq<(usize, TypeModel, T)>,
) -> (Map<usize, Bead<T>>, Map<usize, Bead<T>>)
    decreases s.len(),
{
    if s.len() == 0 {
        tables
    } else {
        let (st, lt) = deliveries(tables, s.drop_last());
        let (id, kind, model) = s.last();
        match kind {
            TypeModel::StaticObj => (st.insert(id, Bead::Molten(model)), lt),
            TypeModel::PointOfLight => (st, lt.insert(id, Bead::Molten(model))),
        }
    }
}

/// Spawning a model does not change which models are drawn: a `Burning` entry
/// under a fresh id is skipped by the loaded listing.
pub proof fn lemma_spawn_keeps_loaded<T>(m: Map<usize, Bead<T>>, id: usize, n: nat)
    requires
        !m.contains_key(id),
    ensures
        molten_prefix(m.insert(id, Bead::Burning), n) == molten_prefix(m, n),
    decreases n,
{
    if n > 0 {
        lemma_spawn_keeps_loaded(m, id, (n - 1) as nat);
    }
}

/// A model delivered under an id below the spawn counter is listed among the
/// loaded models of its table.
pub proof fn lemma_delivered_is_listed<T>(m: Map<usize, Bead<T>>, id: usize, model: T, n: nat)
    requires
        id < n,
    ensures
        molten_prefix(m.insert(id, Bead::Molten(model)), n).contains(model),
    decreases n,
{
    let m2 = m.insert(id, Bead::Molten(model));
    if id == n - 1 {
        let before = molten_prefix(m2, (n - 1) as nat);
        assert(molten_prefix(m2, n) == before.push(model));
        assert(molten_prefix(m2, n)[before.len() as int] == model);
    } else {
        lemma_delivered_is_listed(m, id, model, (n - 1) as nat);
        let before = molten_prefix(m2, (n - 1) as nat);
        let k = choose|k: int| 0 <= k < before.len() && before[k] == model;
        let id2 = (n - 1) as usize;
        if m2.contains_key(id2) && m2[id2] is Molten {
            assert(molten_prefix(m2, n)[k] == model);
        }
    }
}

/// The other kind of model.
pub open spec fn other_kind(kind: TypeModel) -> TypeModel {
    match kind {
        TypeModel::StaticObj => TypeModel::PointOfLight,
        TypeModel::PointOfLight => TypeModel::StaticObj,
    }
}

/// `after` is `before` once a model of kind `kind` was spawned as `id`: the id
/// is the counter, which moves on by one; the slot was free in both tables and
/// is now `Burning` in the table of its kind; the other table is untouched.
pub open spec fn spawned<T>(before: ModelStore<T>, after: ModelStore<T>, kind: TypeModel, id: usize) -> bool {
    &&& id == before.next()
    &&& after.next() == before.next() + 1
    &&& !before.statics().contains_key(id)
    &&& !before.lights().contains_key(id)
    &&& after.table(kind) == before.table(kind).insert(id, Bead::Burning)
    &&& after.table(other_kind(kind)) == before.table(other_kind(kind))
}

/// The slot `id` of `m` holds a model that is still loading.
pub open spec fn is_burning<T>(m: Map<usize, Bead<T>>, id: usize) -> bool {
    m.contains_key(id) && m[id] is Burning
}

/// Ids are handed out in order: starting from an empty counter, the `k`-th
/// of `n` consecutive spawns returns id `k`, so no two of them share an id,
/// and each new slot starts `Burning`.
pub proof fn lemma_spawn_ids_count_up<T>(
    stores: Seq<ModelStore<T>>,
    kinds: Seq<TypeModel>,
    ids: Seq<usize>,
)
    requires
        stores.len() == ids.len() + 1,
        kinds.len() == ids.len(),
        stores[0].next() == 0,
        forall|k: int|
            0 <= k < ids.len() ==> spawned(#[trigger] stores[k], stores[k + 1], kinds[k], ids[k]),
    ensures
        forall|k: int| 0 <= k < ids.len() ==> #[trigger] ids[k] == k,
        forall|k: int| 0 <= k < ids.len() ==> is_burning(#[trigger] stores[k + 1].table(kinds[k]), ids[k]),
        stores.last().next() == ids.len(),
    decreases ids.len(),
{
    if ids.len() > 0 {
        let n = ids.len() - 1;
        lemma_spawn_ids_count_up(stores.drop_last(), kinds.drop_last(), ids.drop_last());
        assert forall|k: int| 0 <= k < ids.len() implies #[trigger] ids[k] == k by {
            if k < n {
                assert(ids.drop_last()[k] == ids[k]);
            } else {
                assert(stores.drop_last().last() == stores[n]);
                assert(spawned(stores[n], stores[n + 1], kinds[n], ids[n]));
            }
        }
        assert forall|k: int| 0 <= k < ids.len() implies is_burning(#[trigger] stores[k + 1].table(kinds[k]), ids[k]) by {
            assert(spawned(stores[k], stores[k + 1], kinds[k], ids[k]));
        }
        assert(stores.drop_last().last() == stores[n]);
        assert(spawned(stores[n], stores[n + 1], kinds[n], ids[n]));
    }
}

/// A spawn leaves every slot that existed before exactly as it was: in
/// particular a model still loading stays `Burning`.
pub proof fn lemma_spawn_keeps_slots<T>(
    before: ModelStore<T>,
    after: ModelStore<T>,
    kind: TypeModel,
    id: usize,
    k: TypeModel,
    slot: usize,
)
    requires
        spawned(before, after, kind, id),
        before.table(k).contains_key(slot),
    ensures
        after.table(k).contains_key(slot),
        after.table(k)[slot] == before.table(k)[slot],
{
    if k == kind {
        assert(slot != id);
    } else {
        assert(k == other_kind(kind));
    }
}

/// The load at position `i` of `s` is for the slot `slot` of the table of `kind`.
pub open spec fn arrives_for<T>(s: Seq<(usize, TypeModel, T)>, i: int, kind: TypeModel, slot: usize) -> bool {
    s[i].0 == slot && s[i].1 == kind
}

proof fn lemma_deliveries_last<T>(
    tables: (Map<usize, Bead<T>>, Map<usize, Bead<T>>),
    s: Seq<(usize, TypeModel, T)>,
    kind: TypeModel,
)
    requires
        s.len() > 0,
    ensures
        pick(deliveries(tables, s), kind) == if s.last().1 == kind {
            pick(deliveries(tables, s.drop_last()), kind).insert(s.last().0, Bead::Molten(s.last().2))
        } else {
            pick(deliveries(tables, s.drop_last()), kind)
        },
{
}

/// A model stays `Burning` until its load is delivered: after the finished
/// loads `s` arrive, a slot that was `Burning` in the table of `kind` is still
/// `Burning` exactly when no load of that kind arrived for it.
pub proof fn lemma_burning_until_delivered<T>(
    tables: (Map<usize, Bead<T>>, Map<usize, Bead<T>>),
    s: Seq<(usize, TypeModel, T)>,
    kind: TypeModel,
    slot: usize,
)
    requires
        is_burning(pick(tables, kind), slot),
    ensures
        is_burning(pick(deliveries(tables, s), kind), slot) == !exists|i: int|
            0 <= i < s.len() && #[trigger] arrives_for(s, i, kind, slot),
    decreases s.len(),
{
    if s.len() == 0 {
        return;
    }
    let r = s.drop_last();
    let n = s.len() - 1;
    lemma_burning_until_delivered(tables, r, kind, slot);
    lemma_deliveries_last(tables, s, kind);
    let before = pick(deliveries(tables, r), kind);
    let after = pick(deliveries(tables, s), kind);
    if arrives_for(s, n, kind, slot) {
        assert(after == before.insert(slot, Bead::Molten(s[n].2)));
        assert(after[slot] is Molten);
    } else {
        if s[n].1 == kind {
            assert(after == before.insert(s[n].0, Bead::Molten(s[n].2)));
        } else {
            assert(after == before);
        }
        assert(after.contains_key(slot) == before.contains_key(slot));
        assert(after.contains_key(slot) ==> after[slot] == before[slot]);
        if exists|i: int| 0 <= i < s.len() && #[trigger] arrives_for(s, i, kind, slot) {
            let i = choose|i: int| 0 <= i < s.len() && #[trigger] arrives_for(s, i, kind, slot);
            assert(r[i] == s[i]);
            assert(arrives_for(r, i, kind, slot));
        }
        if exists|i: int| 0 <= i < r.len() && #[trigger] arrives_for(r, i, kind, slot) {
            let i = choose|i: int| 0 <= i < r.len() && #[trigger] arrives_for(r, i, kind, slot);
            assert(r[i] == s[i]);
            assert(arrives_for(s, i, kind, slot));
        }
    }
}

/// Slot `k` of `after` is that of `before`: present in both or in neither,
/// with the same entry.
pub open spec fn slot_unchanged<T>(before: Map<usize, Bead<T>>, after: Map<usize, Bead<T>>, k: usize) -> bool {
    &&& after.contains_key(k) == before.contains_key(k)
    &&& before.contains_key(k) ==> after[k] == before[k]
}

/// A slot for which no load arrives keeps its entry, whatever it holds: a
/// loaded model stays loaded, a loading one keeps loading, an absent one
/// stays absent.
pub proof fn lemma_untouched_slot<T>(
    tables: (Map<usize, Bead<T>>, Map<usize, Bead<T>>),
    s: Seq<(usize, TypeModel, T)>,
    kind: TypeModel,
    slot: usize,
)
    requires
        forall|i: int| 0 <= i < s.len() ==> !#[trigger] arrives_for(s, i, kind, slot),
    ensures
        slot_unchanged(pick(tables, kind), pick(deliveries(tables, s), kind), slot),
    decreases s.len(),
{
    if s.len() > 0 {
        let r = s.drop_last();
        let n = s.len() - 1;
        assert forall|i: int| 0 <= i < r.len() implies !#[trigger] arrives_for(r, i, kind, slot) by {
            assert(r[i] == s[i]);
            assert(!arrives_for(s, i, kind, slot));
        }
        lemma_untouched_slot(tables, r, kind, slot);
        lemma_deliveries_last(tables, s, kind);
        assert(!arrives_for(s, n, kind, slot));
        let before = pick(deliveries(tables, r), kind);
        let after = pick(deliveries(tables, s), kind);
        if s[n].1 == kind {
            assert(after == before.insert(s[n].0, Bead::Molten(s[n].2)));
        } else {
            assert(after == before);
        }
    }
}

/// Once loads have arrived for a slot, it holds the model of the last of them.
pub proof fn lemma_last_arrival_wins<T>(
    tables: (Map<usize, Bead<T>>, Map<usize, Bead<T>>),
    s: Seq<(usize, TypeModel, T)>,
    kind: TypeModel,
    slot: usize,
    i: int,
)
    requires
        0 <= i < s.len(),
        arrives_for(s, i, kind, slot),
        forall|j: int| i < j < s.len() ==> !#[trigger] arrives_for(s, j, kind, slot),
    ensures
        pick(deliveries(tables, s), kind).contains_key(slot),
        pick(deliveries(tables, s), kind)[slot] == Bead::Molten(s[i].2),
    decreases s.len(),
{
    let r = s.drop_last();
    let n = s.len() - 1;
    lemma_deliveries_last(tables, s, kind);
    let before = pick(deliveries(tables, r), kind);
    let after = pick(deliveries(tables, s), kind);
    if i == n {
        assert(after == before.insert(slot, Bead::Molten(s[n].2)));
    } else {
        assert(!arrives_for(s, n, kind, slot));
        assert(r[i] == s[i]);
        assert forall|j: int| i < j < r.len() implies !#[trigger] arrives_for(r, j, kind, slot) by {
            assert(r[j] == s[j]);
            assert(!arrives_for(s, j, kind, slot));
        }
        lemma_last_arrival_wins(tables, r, kind, slot, i);
        if s[n].1 == kind {
            assert(s[n].0 != slot);
            assert(after == before.insert(s[n].0, Bead::Molten(s[n].2)));
        } else {
            assert(after == before);
        }
    }
}

/// The table of `kind` among the pair (statics, lights).
pub open spec fn pick<T>(
    tables: (Map<usize, Bead<T>>, Map<usize, Bead<T>>),
    kind: TypeModel,
) -> Map<usize, Bead<T>> {
    match kind {
        TypeModel::StaticObj => tables.0,
        TypeModel::PointOfLight => tables.1,
    }
}

/// Every loaded model of a table whose ids are all below `n` is listed by
/// the loaded listing, and everything listed is a loaded model of the table.
pub proof fn lemma_listing_is_exact<T>(m: Map<usize, Bead<T>>, n: nat)
    requires
        forall|id: usize| #[trigger] m.contains_key(id) ==> id < n,
    ensures
        forall|id: usize|
            #[trigger] m.contains_key(id) && m[id] is Molten ==> molten_prefix(m, n).contains(
                m[id]->Molten_0,
            ),
        forall|i: int|
            #![trigger molten_prefix(m, n)[i]]
            0 <= i < molten_prefix(m, n).len() ==> exists|id: usize|
                #[trigger] m.contains_key(id) && id < n && m[id] == Bead::Molten(
                    molten_prefix(m, n)[i],
                ),
{
    assert forall|id: usize| #[trigger] m.contains_key(id) && m[id] is Molten implies molten_prefix(
        m,
        n,
    ).contains(m[id]->Molten_0) by {
        let model = m[id]->Molten_0;
        assert(m.insert(id, Bead::Molten(model)) =~= m);
        lemma_delivered_is_listed(m, id, model, n);
    }
    lemma_listed_are_loaded(m, n);
}

proof fn lemma_listed_are_loaded<T>(m: Map<usize, Bead<T>>, n: nat)
    ensures
        forall|i: int|
            #![trigger molten_prefix(m, n)[i]]
            0 <= i < molten_prefix(m, n).len() ==> exists|id: usize|
                #[trigger] m.contains_key(id) && id < n && m[id] == Bead::Molten(
                    molten_prefix(m, n)[i],
                ),
    decreases n,
{
    if n > 0 {
        lemma_listed_are_loaded(m, (n - 1) as nat);
        let before = molten_prefix(m, (n - 1) as nat);
        let id = (n - 1) as usize;
        assert forall|i: int|
            #![trigger molten_prefix(m, n)[i]]
            0 <= i < molten_prefix(m, n).len() implies exists|j: usize|
            #[trigger] m.contains_key(j) && j < n && m[j] == Bead::Molten(molten_prefix(m, n)[i]) by {
            if i < before.len() {
                assert(molten_prefix(m, n)[i] == before[i]);
                let j = choose|j: usize| #[trigger] m.contains_key(j) && j < n - 1 && m[j] == Bead::Molten(before[i]);
                assert(m.contains_key(j) && j < n);
            } else {
                assert(m.contains_key(id) && m[id] is Molten);
                assert(m[id] == Bead::Molten(m[id]->Molten_0));
            }
        }
    }
}

impl<T> ModelStore<T> {
    /// Models of kind `StaticObj`, by id.
    pub closed spec fn statics(self) -> Map<usize, Bead<T>> {
        self.static_models@
    }

    /// Models of kind `PointOfLight`, by id.
    pub closed spec fn lights(self) -> Map<usize, Bead<T>> {
        self.light_models@
    }

    /// The id the next spawn will hand out.
    pub closed spec fn next(self) -> nat {
        self.next_id as nat
    }

    /// The table that holds models of kind `kind`.
    pub open spec fn table(self, kind: TypeModel) -> Map<usize, Bead<T>> {
        match kind {
            TypeModel::StaticObj => self.statics(),
            TypeModel::PointOfLight => self.lights(),
        }
    }

    /// Every id in either table was handed out by an earlier spawn.
    pub closed spec fn wf(self) -> bool {
        &&& forall|id: usize| #[trigger] self.static_models@.contains_key(id) ==> id < self.next_id
        &&& forall|id: usize| #[trigger] self.light_models@.contains_key(id) ==> id < self.next_id
    }

    /// In a well-formed store every id of either table is below the counter.
    pub proof fn lemma_ids_below_next(self)
        requires
            self.wf(),
        ensures
            forall|id: usize| #[trigger] self.statics().contains_key(id) ==> id < self.next(),
            forall|id: usize| #[trigger] self.lights().contains_key(id) ==> id < self.next(),
    {
    }

    pub fn new() -> (store: Self)
        ensures
            store.wf(),
            store.next() == 0,
            store.statics() == Map::<usize, Bead<T>>::empty(),
            store.lights() == Map::<usize, Bead<T>>::empty(),
    {
        ModelStore { static_models: HashMap::new(), light_models: HashMap::new(), next_id: 0 }
    }

    /// The id the next spawn will hand out.
    pub fn next_id(&self) -> (id: usize)
        ensures
            id == self.next(),
    {
        self.next_id
    }

    /// Registers a model of kind `kind` as `Burning` and returns its fresh id.
    /// Its load is started by the caller; the result comes back through
    /// [`ModelStore::collect_loaded`].
    pub fn spawn(&mut self, kind: TypeModel) -> (ingot: Ingot<T>)
        requires
            old(self).wf(),
            old(self).next() < usize::MAX,
        ensures
            final(self).wf(),
            spawned(*old(self), *final(self), kind, ingot.id),
    {
        let id = self.next_id;
        self.next_id = id + 1;
        match kind {
            TypeModel::StaticObj => {
                self.static_models.insert(id, Bead::Burning);
            },
            TypeModel::PointOfLight => {
                self.light_models.insert(id, Bead::Burning);
            },
        }
        Ingot { id, _marker: PhantomData }
    }

    /// Stores a finished load: the model of kind `kind` spawned as `id` becomes `Molten`.
    pub fn deliver(&mut self, id: usize, kind: TypeModel, model: T)
        requires
            old(self).wf(),
            id < old(self).next(),
        ensures
            final(self).wf(),
            final(self).next() == old(self).next(),
            kind == TypeModel::StaticObj ==> final(self).statics() == old(self).statics().insert(
                id,
                Bead::Molten(model),
            ) && final(self).lights() == old(self).lights(),
            kind == TypeModel::PointOfLight ==> final(self).lights() == old(self).lights().insert(
                id,
                Bead::Molten(model),
            ) && final(self).statics() == old(self).statics(),
    {
        match kind {
            TypeModel::StaticObj => {
                self.static_models.insert(id, Bead::Molten(model));
            },
            TypeModel::PointOfLight => {
                self.light_models.insert(id, Bead::Molten(model));
            },
        }
    }


    /// The loaded static models, in increasing id order.
    pub fn static_loaded(&self) -> (models: Vec<&T>)
        requires
            self.wf(),
        ensures
            models@.len() == molten_prefix(self.statics(), self.next()).len(),
            forall|i: int|
                0 <= i < models@.len() ==> *models@[i] == #[trigger] molten_prefix(
                    self.statics(),
                    self.next(),
                )[i],
            forall|id: usize|
                #[trigger] self.statics().contains_key(id) && self.statics()[id] is Molten ==> exists|i: int|
                    0 <= i < models@.len() && *models@[i] == self.statics()[id]->Molten_0,
    {
        proof {
            self.lemma_ids_below_next();
            lemma_listing_is_exact(self.statics(), self.next());
        }
        let models = Self::loaded_in(&self.static_models, self.next_id);
        proof {
            assert forall|id: usize|
                #[trigger] self.statics().contains_key(id) && self.statics()[id] is Molten implies exists|i: int|
                    0 <= i < models@.len() && *models@[i] == self.statics()[id]->Molten_0 by {
                let p = molten_prefix(self.statics(), self.next());
                let i = choose|i: int| 0 <= i < p.len() && p[i] == self.statics()[id]->Molten_0;
                assert(*models@[i] == p[i]);
            }
        }
        models
    }

    /// The loaded light-emitting models, in increasing id order.
    pub fn light_loaded(&self) -> (models: Vec<&T>)
        requires
            self.wf(),
        ensures
            models@.len() == molten_prefix(self.lights(), self.next()).len(),
            forall|i: int|
                0 <= i < models@.len() ==> *models@[i] == #[trigger] molten_prefix(
                    self.lights(),
                    self.next(),
                )[i],
            forall|id: usize|
                #[trigger] self.lights().contains_key(id) && self.lights()[id] is Molten ==> exists|i: int|
                    0 <= i < models@.len() && *models@[i] == self.lights()[id]->Molten_0,
    {
        proof {
            self.lemma_ids_below_next();
            lemma_listing_is_exact(self.lights(), self.next());
        }
        let models = Self::loaded_in(&self.light_models, self.next_id);
        proof {
            assert forall|id: usize|
                #[trigger] self.lights().contains_key(id) && self.lights()[id] is Molten implies exists|i: int|
                    0 <= i < models@.len() && *models@[i] == self.lights()[id]->Molten_0 by {
                let p = molten_prefix(self.lights(), self.next());
                let i = choose|i: int| 0 <= i < p.len() && p[i] == self.lights()[id]->Molten_0;
                assert(*models@[i] == p[i]);
            }
        }
        models
    }

    fn loaded_in(table: &HashMap<usize, Bead<T>>, count: usize) -> (models: Vec<&T>)
        ensures
            models@.len() == molten_prefix(table@, count as nat).len(),
            forall|i: int|
                0 <= i < models@.len() ==> *models@[i] == #[trigger] molten_prefix(
                    table@,
                    count as nat,
                )[i],
    {
        let mut models: Vec<&T> = Vec::new();
        let mut id: usize = 0;
        while id < count
            invariant
                id <= count,
                models@.len() == molten_prefix(table@, id as nat).len(),
                forall|i: int|
                    0 <= i < models@.len() ==> *models@[i] == #[trigger] molten_prefix(
                        table@,
                        id as nat,
                    )[i],
            decreases count - id,
        {
            match table.get(&id) {
                Some(Bead::Molten(model)) => {
                    models.push(model);
                },
                _ => {},
            }
            id = id + 1;
        }
        models
    }

    /// The loaded light-emitting model spawned as `id`, for in-place edits.
    pub fn light_model_mut(&mut self, id: &usize) -> (model: Option<&mut T>)
        requires
            old(self).wf(),
        ensures
            final(self).wf(),
            final(self).next() == old(self).next(),
            final(self).statics() == old(self).statics(),
            match model {
                Some(m) => {
                    &&& old(self).lights().contains_key(*id)
                    &&& old(self).lights()[*id] == Bead::Molten(*m)
                    &&& final(self).lights() == old(self).lights().insert(*id, Bead::Molten(*final(m)))
                },
                None => {
                    &&& !(old(self).lights().contains_key(*id) && old(self).lights()[*id] is Molten)
                    &&& final(self).lights() == old(self).lights()
                },
            },
    {
        match self.light_models.entry(*id) {
            Entry::Occupied(entry) => {
                let bead: &mut Bead<T> = entry.into_mut();
                match bead {
                    Bead::Molten(model) => Some(model),
                    _ => None,
                }
            },
            Entry::Vacant(_) => None,
        }
    }

    /// Marks every finished load of `arrived` as `Molten`, in arrival order.
    pub fn collect_loaded(&mut self, arrived: Vec<(usize, TypeModel, T)>)
        requires
            old(self).wf(),
            forall|i: int| 0 <= i < arrived@.len() ==> (#[trigger] arrived@[i]).0 < old(self).next(),
        ensures
            final(self).wf(),
            final(self).next() == old(self).next(),
            (final(self).statics(), final(self).lights()) == deliveries(
                (old(self).statics(), old(self).lights()),
                arrived@,
            ),
            forall|kind: TypeModel, k: usize|
                (forall|i: int| 0 <= i < arrived@.len() ==> !#[trigger] arrives_for(arrived@, i, kind, k))
                    ==> #[trigger] slot_unchanged(old(self).table(kind), final(self).table(kind), k),
            forall|i: int|
                0 <= i < arrived@.len() && (forall|j: int|
                    i < j < arrived@.len() ==> !#[trigger] arrives_for(
                        arrived@,
                        j,
                        arrived@[i].1,
                        arrived@[i].0,
                    )) ==> {
                    &&& final(self).table((#[trigger] arrived@[i]).1).contains_key(arrived@[i].0)
                    &&& final(self).table(arrived@[i].1)[arrived@[i].0] == Bead::Molten(arrived@[i].2)
                },
    {
        let ghost s = arrived@;
        let ghost start = (self.statics(), self.lights());
        for item in iter: arrived
            invariant
                self.wf(),
                self.next() == old(self).next(),
                iter.seq() == s,
                start == (old(self).statics(), old(self).lights()),
                forall|i: int| 0 <= i < s.len() ==> (#[trigger] s[i]).0 < old(self).next(),
                (self.statics(), self.lights()) == deliveries(start, s.take(iter.index() as int)),
        {
            let (id, kind, model) = item;
            proof {
                assert(s.take(iter.index() + 1).drop_last() =~= s.take(iter.index() as int));
            }
            self.deliver(id, kind, model);
        }
        proof {
            assert(s.take(s.len() as int) =~= s);
            let t0 = (old(self).statics(), old(self).lights());
            assert forall|kind: TypeModel, k: usize|
                (forall|i: int| 0 <= i < s.len() ==> !#[trigger] arrives_for(s, i, kind, k))
                    implies #[trigger] slot_unchanged(old(self).table(kind), self.table(kind), k) by {
                lemma_untouched_slot(t0, s, kind, k);
                assert(pick(t0, kind) == old(self).table(kind));
                assert(pick(deliveries(t0, s), kind) == self.table(kind));
            }
            assert forall|i: int|
                0 <= i < s.len() && (forall|j: int|
                    i < j < s.len() ==> !#[trigger] arrives_for(s, j, s[i].1, s[i].0)) implies {
                    &&& self.table((#[trigger] s[i]).1).contains_key(s[i].0)
                    &&& self.table(s[i].1)[s[i].0] == Bead::Molten(s[i].2)
                } by {
                lemma_last_arrival_wins(t0, s, s[i].1, s[i].0, i);
                assert(pick(deliveries(t0, s), s[i].1) == self.table(s[i].1));
            }
        }
    }
}

} // verus!
