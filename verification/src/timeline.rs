use vstd::prelude::*;

use crate::formatting::{format_month_anchor, format_month_heading, in_timestamp_range, utc_format};

verus! {

/// The kinds of entity that appear on the timeline.
#[derive(Debug, Clone, Copy, PartialEq, Eq, Hash, Structural)]
pub enum EntityType {
    Roaster,
    Roast,
    Bag,
    Brew,
    Cup,
    Gear,
    Cafe,
}

pub open spec fn entity_type_name(t: EntityType) -> Seq<char> {
    match t {
        EntityType::Roaster => "roaster"@,
        EntityType::Roast => "roast"@,
        EntityType::Bag => "bag"@,
        EntityType::Brew => "brew"@,
        EntityType::Cup => "cup"@,
        EntityType::Gear => "gear"@,
        EntityType::Cafe => "cafe"@,
    }
}

impl EntityType {
    pub fn as_str(&self) -> (res: &'static str)
        ensures
            res@ == entity_type_name(*self),
    {
        match self {
            EntityType::Roaster => "roaster",
            EntityType::Roast => "roast",
            EntityType::Bag => "bag",
            EntityType::Brew => "brew",
            EntityType::Cup => "cup",
            EntityType::Gear => "gear",
            EntityType::Cafe => "cafe",
        }
    }
}

/// A signal that timeline events have gone stale.
#[derive(Debug, Clone, Copy, PartialEq, Eq, Hash, Structural)]
pub enum TimelineInvalidation {
    /// One entity's events, and those of everything downstream of it.
    Entity { entity_type: EntityType, entity_id: i64 },
    /// Every event: delete them all and rebuild from scratch.
    Full,
}

/// What the rebuild task does with one debounced batch of signals.
#[derive(Debug, Clone, PartialEq, Eq)]
pub enum RebuildPlan {
    /// Rebuild every event.
    Full,
    /// Refresh these entities (with their cascades), each named once.
    Refresh(Vec<(EntityType, i64)>),
}

pub open spec fn is_full(s: TimelineInvalidation) -> bool {
    s is Full
}

/// Whether a batch holds a signal for this entity.
pub open spec fn signals_entity(batch: Seq<TimelineInvalidation>, t: EntityType, id: i64) -> bool {
    exists|i: int|
        0 <= i < batch.len() && #[trigger] batch[i] == (TimelineInvalidation::Entity {
            entity_type: t,
            entity_id: id,
        })
}

pub open spec fn batch_of(first: TimelineInvalidation, pending: Seq<TimelineInvalidation>) -> Seq<
    TimelineInvalidation,
> {
    seq![first] + pending
}

fn contains_target(targets: &Vec<(EntityType, i64)>, t: EntityType, id: i64) -> (res: bool)
    ensures
        res == targets@.contains((t, id)),
{
    let mut i: usize = 0;
    while i < targets.len()
        invariant
            i <= targets.len(),
            forall|j: int| 0 <= j < i ==> targets@[j] != (t, id),
        decreases targets.len() - i,
    {
        let (tt, tid) = targets[i];
        if tt == t && tid == id {
            assert(targets@[i as int] == (t, id));
            return true;
        }
        i = i + 1;
    }
    false
}

proof fn lemma_push_contains<A>(s: Seq<A>, a: A, x: A)
    ensures
        s.push(a).contains(x) <==> (s.contains(x) || x == a),
{
    if s.contains(x) {
        let k = choose|k: int| 0 <= k < s.len() && s[k] == x;
        assert(s.push(a)[k] == x);
    }
    if x == a {
        assert(s.push(a)[s.len() as int] == a);
    }
    if s.push(a).contains(x) {
        let k = choose|k: int| 0 <= k < s.push(a).len() && s.push(a)[k] == x;
        if k < s.len() {
            assert(s[k] == x);
        }
    }
}

proof fn lemma_push_no_duplicates<A>(s: Seq<A>, a: A)
    requires
        s.no_duplicates(),
        !s.contains(a),
    ensures
        s.push(a).no_duplicates(),
{
    assert forall|i: int, j: int|
        0 <= i < s.push(a).len() && 0 <= j < s.push(a).len() && i != j implies s.push(a)[i]
        != s.push(a)[j] by {
        if i < s.len() && j < s.len() {
        } else if i < s.len() {
            assert(s[i] == s.push(a)[i]);
        } else if j < s.len() {
            assert(s[j] == s.push(a)[j]);
        }
    }
}

proof fn lemma_signals_take_succ(batch: Seq<TimelineInvalidation>, n: int, t: EntityType, id: i64)
    requires
        0 <= n < batch.len(),
    ensures
        signals_entity(batch.take(n + 1), t, id) <==> (signals_entity(batch.take(n), t, id)
            || batch[n] == (TimelineInvalidation::Entity { entity_type: t, entity_id: id })),
{
    let e = TimelineInvalidation::Entity { entity_type: t, entity_id: id };
    if signals_entity(batch.take(n + 1), t, id) {
        let k = choose|k: int| 0 <= k < batch.take(n + 1).len() && #[trigger] batch.take(n + 1)[k] == e;
        if k < n {
            assert(batch.take(n)[k] == e);
        }
    }
    if signals_entity(batch.take(n), t, id) {
        let k = choose|k: int| 0 <= k < batch.take(n).len() && #[trigger] batch.take(n)[k] == e;
        assert(batch.take(n + 1)[k] == e);
    }
    if batch[n] == e {
        assert(batch.take(n + 1)[n] == e);
    }
}

/// Decides what one batch of signals (the one that woke the task, then those
/// that arrived while it waited) asks for: a full rebuild if any signal asks
/// for one, otherwise a refresh of every entity named, each once.
pub fn plan_rebuild(first: TimelineInvalidation, pending: Vec<TimelineInvalidation>) -> (res:
    RebuildPlan)
    ensures
        ({
            let batch = batch_of(first, pending@);
            match res {
                RebuildPlan::Full => exists|i: int| 0 <= i < batch.len() && is_full(#[trigger] batch[i]),
                RebuildPlan::Refresh(targets) => {
                    &&& forall|i: int| 0 <= i < batch.len() ==> !is_full(#[trigger] batch[i])
                    &&& targets@.no_duplicates()
                    &&& forall|t: EntityType, id: i64|
                        #[trigger] targets@.contains((t, id)) <==> signals_entity(batch, t, id)
                },
            }
        }),
{
    let ghost batch = batch_of(first, pending@);
    assert(batch[0] == first);
    let mut full = false;
    let mut targets: Vec<(EntityType, i64)> = Vec::new();
    match first {
        TimelineInvalidation::Full => {
            full = true;
        },
        TimelineInvalidation::Entity { entity_type, entity_id } => {
            targets.push((entity_type, entity_id));
        },
    }
    proof {
        assert forall|t: EntityType, id: i64|
            #[trigger] targets@.contains((t, id)) <==> signals_entity(batch.take(1), t, id) by {
            lemma_signals_take_succ(batch, 0, t, id);
            lemma_push_contains(Seq::<(EntityType, i64)>::empty(), (t, id), (t, id));
            if targets@.len() > 0 {
                lemma_push_contains(Seq::<(EntityType, i64)>::empty(), targets@[0], (t, id));
                assert(targets@ =~= Seq::<(EntityType, i64)>::empty().push(targets@[0]));
            }
        }
    }
    let mut i: usize = 0;
    while i < pending.len()
        invariant
            i <= pending.len(),
            batch == batch_of(first, pending@),
            full <==> exists|j: int| 0 <= j < i + 1 && is_full(#[trigger] batch[j]),
            targets@.no_duplicates(),
            forall|t: EntityType, id: i64|
                #[trigger] targets@.contains((t, id)) <==> signals_entity(
                    batch.take(i + 1),
                    t,
                    id,
                ),
        decreases pending.len() - i,
    {
        let signal = pending[i];
        assert(batch[i + 1] == signal);
        let ghost before = targets@;
        match signal {
            TimelineInvalidation::Full => {
                full = true;
            },
            TimelineInvalidation::Entity { entity_type, entity_id } => {
                if !contains_target(&targets, entity_type, entity_id) {
                    proof {
                        lemma_push_no_duplicates(before, (entity_type, entity_id));
                    }
                    targets.push((entity_type, entity_id));
                }
            },
        }
        proof {
            assert forall|t: EntityType, id: i64|
                #[trigger] targets@.contains((t, id)) <==> signals_entity(
                    batch.take(i + 2),
                    t,
                    id,
                ) by {
                lemma_signals_take_succ(batch, i + 1, t, id);
                if targets@.len() > before.len() {
                    lemma_push_contains(before, targets@.last(), (t, id));
                    assert(targets@ =~= before.push(targets@.last()));
                }
            }
        }
        i = i + 1;
    }
    proof {
        assert(batch.take(batch.len() as int) =~= batch);
    }
    if full {
        RebuildPlan::Full
    } else {
        RebuildPlan::Refresh(targets)
    }
}

/// A lookup the cascade needs from storage: the ids of the entities of one
/// kind that hang off one entity.
#[derive(Debug, Clone, Copy, PartialEq, Eq, Structural)]
pub enum CascadeQuery {
    RoastsOfRoaster(i64),
    BagsOfRoast(i64),
    CupsOfRoast(i64),
    BrewsOfBag(i64),
    BrewsOfGear(i64),
    CupsOfCafe(i64),
}

/// The lookups that find what hangs off an entity: a roaster's roasts, a
/// roast's bags and cups, a bag's brews, the brews made with a piece of gear,
/// the cups drunk at a cafe. Brews and cups have nothing downstream.
pub open spec fn downstream(t: EntityType, id: i64) -> Seq<CascadeQuery> {
    match t {
        EntityType::Roaster => seq![CascadeQuery::RoastsOfRoaster(id)],
        EntityType::Roast => seq![CascadeQuery::BagsOfRoast(id), CascadeQuery::CupsOfRoast(id)],
        EntityType::Bag => seq![CascadeQuery::BrewsOfBag(id)],
        EntityType::Gear => seq![CascadeQuery::BrewsOfGear(id)],
        EntityType::Cafe => seq![CascadeQuery::CupsOfCafe(id)],
        EntityType::Brew => seq![],
        EntityType::Cup => seq![],
    }
}

/// The kind of the entities a lookup finds.
pub open spec fn found_kind(q: CascadeQuery) -> EntityType {
    match q {
        CascadeQuery::RoastsOfRoaster(_) => EntityType::Roast,
        CascadeQuery::BagsOfRoast(_) => EntityType::Bag,
        CascadeQuery::CupsOfRoast(_) => EntityType::Cup,
        CascadeQuery::BrewsOfBag(_) => EntityType::Brew,
        CascadeQuery::BrewsOfGear(_) => EntityType::Brew,
        CascadeQuery::CupsOfCafe(_) => EntityType::Cup,
    }
}

/// The lookups for what hangs off each of the entities found, in order.
pub open spec fn downstream_all(kind: EntityType, ids: Seq<i64>) -> Seq<CascadeQuery>
    decreases ids.len(),
{
    if ids.len() == 0 {
        seq![]
    } else {
        downstream_all(kind, ids.drop_last()) + downstream(kind, ids.last())
    }
}

fn downstream_of(t: EntityType, id: i64) -> (res: Vec<CascadeQuery>)
    ensures
        res@ == downstream(t, id),
{
    match t {
        EntityType::Roaster => vec![CascadeQuery::RoastsOfRoaster(id)],
        EntityType::Roast => vec![CascadeQuery::BagsOfRoast(id), CascadeQuery::CupsOfRoast(id)],
        EntityType::Bag => vec![CascadeQuery::BrewsOfBag(id)],
        EntityType::Gear => vec![CascadeQuery::BrewsOfGear(id)],
        EntityType::Cafe => vec![CascadeQuery::CupsOfCafe(id)],
        EntityType::Brew => Vec::new(),
        EntityType::Cup => Vec::new(),
    }
}

fn found_kind_of(q: CascadeQuery) -> (res: EntityType)
    ensures
        res == found_kind(q),
{
    match q {
        CascadeQuery::RoastsOfRoaster(_) => EntityType::Roast,
        CascadeQuery::BagsOfRoast(_) => EntityType::Bag,
        CascadeQuery::CupsOfRoast(_) => EntityType::Cup,
        CascadeQuery::BrewsOfBag(_) => EntityType::Brew,
        CascadeQuery::BrewsOfGear(_) => EntityType::Brew,
        CascadeQuery::CupsOfCafe(_) => EntityType::Cup,
    }
}

/// The entities of a sequence, as a set.
pub open spec fn entity_set(s: Seq<(EntityType, i64)>) -> Set<(EntityType, i64)> {
    Set::new(|x: (EntityType, i64)| s.contains(x))
}

/// Whether a set of entities is closed under what the lookups found: with
/// an entity, it holds every entity that a lookup for what hangs off it
/// found.
pub open spec fn closed_under(
    s: Set<(EntityType, i64)>,
    found: spec_fn(CascadeQuery) -> Set<i64>,
) -> bool {
    forall|x: (EntityType, i64), q: CascadeQuery, y: i64|
        #![trigger s.contains(x), found(q).contains(y)]
        s.contains(x) && downstream(x.0, x.1).contains(q) && found(q).contains(y) ==> s.contains(
            (found_kind(q), y),
        )
}

/// Whether `s` is the cascade of `changed`: the least set of entities that
/// holds the changed ones and is closed under what the lookups found.
pub open spec fn is_cascade_of(
    s: Set<(EntityType, i64)>,
    changed: Set<(EntityType, i64)>,
    found: spec_fn(CascadeQuery) -> Set<i64>,
) -> bool {
    &&& changed.subset_of(s)
    &&& closed_under(s, found)
    &&& forall|t: Set<(EntityType, i64)>|
        #[trigger] closed_under(t, found) && changed.subset_of(t) ==> s.subset_of(t)
}

/// Whether a lookup is one of those for what hangs off one of `targets`.
pub open spec fn from_target(targets: Seq<(EntityType, i64)>, q: CascadeQuery) -> bool {
    exists|x: (EntityType, i64)| targets.contains(x) && #[trigger] downstream(x.0, x.1).contains(q)
}

/// Collects the entities whose timeline events need refreshing after some
/// entities changed: each changed entity and everything downstream of it.
/// The caller runs the lookups: it takes the next one with `next_query`,
/// performs it, and hands the ids found to `record`, until no lookup is left.
/// A lookup that fails is recorded as finding nothing.
pub struct CascadeCollector {
    targets: Vec<(EntityType, i64)>,
    pending: Vec<CascadeQuery>,
    in_flight: Option<CascadeQuery>,
    changed: Ghost<Set<(EntityType, i64)>>,
    found: Ghost<spec_fn(CascadeQuery) -> Set<i64>>,
    answered: Ghost<Set<CascadeQuery>>,
}

impl CascadeCollector {
    #[verifier::type_invariant]
    spec fn consistent(self) -> bool {
        let t = self.targets@;
        &&& t.no_duplicates()
        &&& forall|x: (EntityType, i64)| #[trigger] self.changed@.contains(x) ==> t.contains(x)
        &&& forall|u: Set<(EntityType, i64)>|
            #[trigger] closed_under(u, self.found@) && self.changed@.subset_of(u)
                ==> entity_set(t).subset_of(u)
        &&& forall|i: int| 0 <= i < self.pending@.len() ==> from_target(t, #[trigger] self.pending@[i])
        &&& self.in_flight matches Some(q) ==> from_target(t, q)
        &&& forall|x: (EntityType, i64), q: CascadeQuery|
            #![trigger t.contains(x), downstream(x.0, x.1).contains(q)]
            t.contains(x) && downstream(x.0, x.1).contains(q) ==> self.pending@.contains(q)
                || self.in_flight == Some(q) || self.answered@.contains(q)
        &&& forall|q: CascadeQuery, y: i64|
            #[trigger] (self.found@)(q).contains(y) ==> t.contains((found_kind(q), y))
    }

    /// The entities collected so far.
    pub closed spec fn collected(self) -> Seq<(EntityType, i64)> {
        self.targets@
    }

    /// The lookups not yet handed out.
    pub closed spec fn lookups(self) -> Seq<CascadeQuery> {
        self.pending@
    }

    /// The lookup handed out by `next_query` whose answer is awaited.
    pub closed spec fn outstanding(self) -> Option<CascadeQuery> {
        self.in_flight
    }

    /// The entities added as changed.
    pub closed spec fn changed_entities(self) -> Set<(EntityType, i64)> {
        self.changed@
    }

    /// Everything each lookup has found so far.
    pub closed spec fn findings(self) -> spec_fn(CascadeQuery) -> Set<i64> {
        self.found@
    }

    /// The lookups whose answers have been recorded.
    pub closed spec fn looked_up(self) -> Set<CascadeQuery> {
        self.answered@
    }

    /// No lookup is left or awaited: the collected entities are exactly the
    /// cascade of the changed ones under what the lookups found, and every
    /// lookup for what hangs off a collected entity has been performed.
    pub open spec fn complete(self) -> bool {
        &&& is_cascade_of(entity_set(self.collected()), self.changed_entities(), self.findings())
        &&& forall|x: (EntityType, i64), q: CascadeQuery|
            #![trigger self.collected().contains(x), downstream(x.0, x.1).contains(q)]
            self.collected().contains(x) && downstream(x.0, x.1).contains(q)
                ==> self.looked_up().contains(q)
    }

    pub fn new() -> (res: Self)
        ensures
            res.collected() == Seq::<(EntityType, i64)>::empty(),
            res.lookups() == Seq::<CascadeQuery>::empty(),
            res.outstanding() is None,
            res.changed_entities() == Set::<(EntityType, i64)>::empty(),
            forall|q: CascadeQuery| #[trigger] (res.findings())(q) == Set::<i64>::empty(),
            res.looked_up() == Set::<CascadeQuery>::empty(),
    {
        let ghost nothing = |q: CascadeQuery| Set::<i64>::empty();
        CascadeCollector {
            targets: Vec::new(),
            pending: Vec::new(),
            in_flight: None,
            changed: Ghost(Set::empty()),
            found: Ghost(nothing),
            answered: Ghost(Set::empty()),
        }
    }

    /// A collector started on the entities a batch of signals named: each
    /// is collected, and nothing has been looked up yet.
    pub fn for_changed(changed: &Vec<(EntityType, i64)>) -> (res: Self)
        ensures
            res.changed_entities() == entity_set(changed@),
            forall|x: (EntityType, i64)| #[trigger] res.collected().contains(x) <==> changed@.contains(x),
            res.outstanding() is None,
            forall|q: CascadeQuery| #[trigger] (res.findings())(q) == Set::<i64>::empty(),
            res.looked_up() == Set::<CascadeQuery>::empty(),
    {
        let mut c = CascadeCollector::new();
        let mut i: usize = 0;
        while i < changed.len()
            invariant
                i <= changed.len(),
                c.changed_entities() == entity_set(changed@.take(i as int)),
                forall|x: (EntityType, i64)| #[trigger] c.collected().contains(x) <==> changed@.take(i as int).contains(x),
                c.outstanding() is None,
                forall|q: CascadeQuery| #[trigger] (c.findings())(q) == Set::<i64>::empty(),
                c.looked_up() == Set::<CascadeQuery>::empty(),
            decreases changed.len() - i,
        {
            let (t, id) = changed[i];
            c.add_changed(t, id);
            proof {
                let next = changed@.take(i + 1);
                assert(next =~= changed@.take(i as int).push((t, id)));
                assert forall|x: (EntityType, i64)| #[trigger] next.contains(x) <==> changed@.take(i as int).contains(x) || x == (t, id) by {
                    lemma_push_contains(changed@.take(i as int), (t, id), x);
                }
                assert(entity_set(next) =~= entity_set(changed@.take(i as int)).insert((t, id)));
            }
            i = i + 1;
        }
        assert(changed@.take(changed.len() as int) =~= changed@);
        c
    }

    /// Adds a changed entity: it is collected, and the lookups for what hangs
    /// off it are queued.
    pub fn add_changed(&mut self, t: EntityType, id: i64)
        ensures
            final(self).lookups() == old(self).lookups() + downstream(t, id),
            final(self).outstanding() == old(self).outstanding(),
            final(self).changed_entities() == old(self).changed_entities().insert((t, id)),
            final(self).findings() == old(self).findings(),
            final(self).looked_up() == old(self).looked_up(),
            forall|x: (EntityType, i64)| #[trigger]
                final(self).collected().contains(x) <==> old(self).collected().contains(x) || x
                    == (t, id),
    {
        proof {
            use_type_invariant(&*self);
        }
        let mut prev = CascadeCollector::new();
        std::mem::swap(self, &mut prev);
        proof {
            use_type_invariant(&prev);
        }
        let CascadeCollector { targets, pending, in_flight, changed, found, answered } = prev;
        let ghost old_t = targets@;
        let ghost old_p = pending@;
        let mut targets = targets;
        let mut pending = pending;
        add_target(&mut targets, &mut pending, t, id, Ghost(found@), Ghost(in_flight), Ghost(answered@));
        let ghost new_changed = changed@.insert((t, id));
        proof {
            assert forall|u: Set<(EntityType, i64)>|
                #[trigger] closed_under(u, found@) && new_changed.subset_of(u) implies entity_set(
                targets@,
            ).subset_of(u) by {
                assert(changed@.subset_of(u));
                assert(entity_set(old_t).subset_of(u));
                assert forall|x: (EntityType, i64)| entity_set(targets@).contains(x) implies u.contains(x) by {
                    assert(targets@.contains(x));
                    if x != (t, id) {
                        assert(entity_set(old_t).contains(x));
                    } else {
                        assert(new_changed.contains(x));
                    }
                }
            }
            if let Some(q) = in_flight {
                lemma_from_target_grows(old_t, targets@, q);
            }
        }
        *self = CascadeCollector {
            targets,
            pending,
            in_flight,
            changed: Ghost(new_changed),
            found,
            answered,
        };
    }

    /// The next lookup to perform, if any is left. A lookup handed out stays
    /// outstanding, and is handed out again, until its answer is recorded.
    /// When none is left, the collection is complete.
    pub fn next_query(&mut self) -> (res: Option<CascadeQuery>)
        ensures
            final(self).collected() == old(self).collected(),
            final(self).changed_entities() == old(self).changed_entities(),
            final(self).findings() == old(self).findings(),
            final(self).looked_up() == old(self).looked_up(),
            old(self).outstanding() is Some ==> res == old(self).outstanding() && final(self).lookups()
                == old(self).lookups() && final(self).outstanding() == old(self).outstanding(),
            old(self).outstanding() is None && old(self).lookups().len() == 0 ==> res is None
                && final(self).lookups() == old(self).lookups() && final(self).outstanding() is None,
            old(self).outstanding() is None && old(self).lookups().len() > 0 ==> res == Some(
                old(self).lookups().last(),
            ) && final(self).lookups() == old(self).lookups().drop_last()
                && final(self).outstanding() == res,
            res is None ==> final(self).complete(),
    {
        proof {
            use_type_invariant(&*self);
        }
        if self.in_flight.is_some() {
            return self.in_flight;
        }
        if self.pending.len() == 0 {
            proof {
                self.lemma_complete();
            }
            return None;
        }
        let mut prev = CascadeCollector::new();
        std::mem::swap(self, &mut prev);
        proof {
            use_type_invariant(&prev);
        }
        let CascadeCollector { targets, pending, in_flight, changed, found, answered } = prev;
        let ghost old_p = pending@;
        let mut pending = pending;
        let q = pending.pop().unwrap();
        proof {
            assert(old_p[old_p.len() - 1] == q);
            assert forall|i: int| 0 <= i < pending@.len() implies from_target(
                targets@,
                #[trigger] pending@[i],
            ) by {
                assert(pending@[i] == old_p[i]);
            }
            assert forall|x: (EntityType, i64), q2: CascadeQuery|
                #![trigger targets@.contains(x), downstream(x.0, x.1).contains(q2)]
                targets@.contains(x) && downstream(x.0, x.1).contains(q2) implies pending@.contains(
                q2,
            ) || Some(q) == Some(q2) || answered@.contains(q2) by {
                if old_p.contains(q2) && q2 != q {
                    let k = choose|k: int| 0 <= k < old_p.len() && old_p[k] == q2;
                    assert(k < old_p.len() - 1);
                    assert(pending@[k] == q2);
                }
            }
        }
        *self = CascadeCollector { targets, pending, in_flight: Some(q), changed, found, answered };
        Some(q)
    }

    proof fn lemma_complete(&self)
        requires
            self.consistent(),
            self.pending@.len() == 0,
            self.in_flight is None,
        ensures
            self.complete(),
    {
        let t = self.targets@;
        assert forall|x: (EntityType, i64)| self.changed@.contains(x) implies entity_set(t).contains(x) by {
            assert(t.contains(x));
        }
        assert forall|x: (EntityType, i64), q: CascadeQuery, y: i64|
            #![trigger entity_set(t).contains(x), (self.found@)(q).contains(y)]
            entity_set(t).contains(x) && downstream(x.0, x.1).contains(q) && (self.found@)(
                q,
            ).contains(y) implies entity_set(t).contains((found_kind(q), y)) by {
            assert(t.contains((found_kind(q), y)));
        }
        assert(closed_under(entity_set(t), self.found@));
        assert forall|x: (EntityType, i64), q: CascadeQuery|
            #![trigger t.contains(x), downstream(x.0, x.1).contains(q)]
            t.contains(x) && downstream(x.0, x.1).contains(q) implies self.answered@.contains(q) by {
            assert(!self.pending@.contains(q));
        }
    }

    /// Records what the outstanding lookup `query` found: each entity found is
    /// collected, and the lookups for what hangs off each of them are queued,
    /// in order. A query that is not the outstanding one changes nothing.
    pub fn record(&mut self, query: CascadeQuery, found: Vec<i64>)
        ensures
            old(self).outstanding() != Some(query) ==> *final(self) == *old(self),
            old(self).outstanding() == Some(query) ==> {
                &&& final(self).outstanding() is None
                &&& final(self).changed_entities() == old(self).changed_entities()
                &&& final(self).looked_up() == old(self).looked_up().insert(query)
                &&& (final(self).findings())(query) == (old(self).findings())(query).union(
                    found@.to_set(),
                )
                &&& forall|q: CascadeQuery|
                    q != query ==> #[trigger] (final(self).findings())(q)
                        == (old(self).findings())(q)
                &&& forall|x: (EntityType, i64)| #[trigger]
                    final(self).collected().contains(x) <==> old(self).collected().contains(x)
                        || (x.0 == found_kind(query) && found@.contains(x.1))
                &&& final(self).lookups() == old(self).lookups() + downstream_all(
                    found_kind(query),
                    found@,
                )
            },
    {
        proof {
            use_type_invariant(&*self);
        }
        if self.in_flight != Some(query) {
            return;
        }
        let mut prev = CascadeCollector::new();
        std::mem::swap(self, &mut prev);
        proof {
            use_type_invariant(&prev);
        }
        let CascadeCollector { targets, pending, in_flight, changed, found: old_found, answered } =
            prev;
        let ghost old_t = targets@;
        let ghost old_p = pending@;
        let ghost ids = found@.to_set();
        let ghost new_found = |q: CascadeQuery|
            if q == query {
                (old_found@)(q).union(ids)
            } else {
                (old_found@)(q)
            };
        let ghost new_answered = answered@.insert(query);
        let kind = found_kind_of(query);
        let mut targets = targets;
        let mut pending = pending;
        let mut i: usize = 0;
        assert(old_p + downstream_all(kind, found@.take(0)) =~= old_p);
        while i < found.len()
            invariant
                i <= found.len(),
                kind == found_kind(query),
                targets@.no_duplicates(),
                forall|x: (EntityType, i64)| #[trigger]
                    targets@.contains(x) <==> old_t.contains(x) || (x.0 == kind && found@.take(
                        i as int,
                    ).contains(x.1)),
                pending@ == old_p + downstream_all(kind, found@.take(i as int)),
                forall|j: int| 0 <= j < pending@.len() ==> from_target(targets@, #[trigger] pending@[j]),
                forall|x: (EntityType, i64), q: CascadeQuery|
                    #![trigger targets@.contains(x), downstream(x.0, x.1).contains(q)]
                    targets@.contains(x) && downstream(x.0, x.1).contains(q) ==> pending@.contains(q)
                        || Some(query) == Some(q) || answered@.contains(q),
            decreases found.len() - i,
        {
            let id = found[i];
            let ghost before_t = targets@;
            let ghost before_p = pending@;
            add_target(
                &mut targets,
                &mut pending,
                kind,
                id,
                Ghost(new_found),
                Ghost(Some(query)),
                Ghost(answered@),
            );
            proof {
                assert(found@.take(i + 1) =~= found@.take(i as int).push(id));
                assert(found@.take(i + 1).drop_last() =~= found@.take(i as int));
                assert(pending@ =~= old_p + downstream_all(kind, found@.take(i + 1)));
                assert forall|x: (EntityType, i64)| #[trigger]
                    targets@.contains(x) <==> old_t.contains(x) || (x.0 == kind && found@.take(
                        i + 1,
                    ).contains(x.1)) by {
                    lemma_push_contains(found@.take(i as int), id, x.1);
                }
            }
            i = i + 1;
        }
        proof {
            assert(found@.take(found.len() as int) =~= found@);
            let t = targets@;
            assert forall|u: Set<(EntityType, i64)>|
                #[trigger] closed_under(u, new_found) && changed@.subset_of(u) implies entity_set(
                t,
            ).subset_of(u) by {
                assert forall|x: (EntityType, i64), q: CascadeQuery, y: i64|
                    #![trigger u.contains(x), (old_found@)(q).contains(y)]
                    u.contains(x) && downstream(x.0, x.1).contains(q) && (old_found@)(q).contains(
                        y,
                    ) implies u.contains((found_kind(q), y)) by {
                    assert(new_found(q).contains(y));
                }
                assert(closed_under(u, old_found@));
                assert(entity_set(old_t).subset_of(u));
                assert(from_target(old_t, query));
                let w = choose|w: (EntityType, i64)|
                    old_t.contains(w) && #[trigger] downstream(w.0, w.1).contains(query);
                assert(entity_set(old_t).contains(w));
                assert forall|x: (EntityType, i64)| entity_set(t).contains(x) implies u.contains(x) by {
                    if !old_t.contains(x) {
                        assert(found@.contains(x.1));
                        assert(ids.contains(x.1));
                        assert(new_found(query).contains(x.1));
                        assert(u.contains(w));
                    } else {
                        assert(entity_set(old_t).contains(x));
                    }
                }
            }
            assert forall|x: (EntityType, i64)| #[trigger] changed@.contains(x) implies t.contains(x) by {
                assert(old_t.contains(x));
            }
            assert forall|q: CascadeQuery, y: i64| #[trigger] new_found(q).contains(y) implies t.contains(
                (found_kind(q), y),
            ) by {
                if q == query && !(old_found@)(q).contains(y) {
                    assert(ids.contains(y));
                    assert(found@.contains(y));
                } else {
                    assert(old_t.contains((found_kind(q), y)));
                }
            }
            assert forall|x: (EntityType, i64), q: CascadeQuery|
                #![trigger t.contains(x), downstream(x.0, x.1).contains(q)]
                t.contains(x) && downstream(x.0, x.1).contains(q) implies pending@.contains(q)
                    || None::<CascadeQuery> == Some(q) || new_answered.contains(q) by {}
        }
        *self = CascadeCollector {
            targets,
            pending,
            in_flight: None,
            changed,
            found: Ghost(new_found),
            answered: Ghost(new_answered),
        };
    }

    /// The entities collected, each once; once no lookup is left or awaited,
    /// they are the complete cascade.
    pub fn into_targets(self) -> (res: Vec<(EntityType, i64)>)
        ensures
            res@ == self.collected(),
            res@.no_duplicates(),
            self.lookups().len() == 0 && self.outstanding() is None ==> self.complete(),
    {
        proof {
            use_type_invariant(&self);
            if self.pending@.len() == 0 && self.in_flight is None {
                self.lemma_complete();
            }
        }
        self.targets
    }
}

proof fn lemma_from_target_grows(a: Seq<(EntityType, i64)>, b: Seq<(EntityType, i64)>, q: CascadeQuery)
    requires
        from_target(a, q),
        forall|x: (EntityType, i64)| a.contains(x) ==> #[trigger] b.contains(x),
    ensures
        from_target(b, q),
{
    let w = choose|w: (EntityType, i64)| a.contains(w) && #[trigger] downstream(w.0, w.1).contains(q);
    assert(b.contains(w));
}

/// Collects one entity: it is added unless already there, and the lookups
/// for what hangs off it are queued.
fn add_target(
    targets: &mut Vec<(EntityType, i64)>,
    pending: &mut Vec<CascadeQuery>,
    t: EntityType,
    id: i64,
    Ghost(found): Ghost<spec_fn(CascadeQuery) -> Set<i64>>,
    Ghost(in_flight): Ghost<Option<CascadeQuery>>,
    Ghost(answered): Ghost<Set<CascadeQuery>>,
)
    requires
        old(targets)@.no_duplicates(),
        forall|j: int| 0 <= j < old(pending)@.len() ==> from_target(old(targets)@, #[trigger] old(pending)@[j]),
        forall|x: (EntityType, i64), q: CascadeQuery|
            #![trigger old(targets)@.contains(x), downstream(x.0, x.1).contains(q)]
            old(targets)@.contains(x) && downstream(x.0, x.1).contains(q) ==> old(pending)@.contains(q)
                || in_flight == Some(q) || answered.contains(q),
    ensures
        final(targets)@.no_duplicates(),
        final(pending)@ == old(pending)@ + downstream(t, id),
        forall|x: (EntityType, i64)| #[trigger]
            final(targets)@.contains(x) <==> old(targets)@.contains(x) || x == (t, id),
        forall|j: int| 0 <= j < final(pending)@.len() ==> from_target(final(targets)@, #[trigger] final(pending)@[j]),
        forall|x: (EntityType, i64), q: CascadeQuery|
            #![trigger final(targets)@.contains(x), downstream(x.0, x.1).contains(q)]
            final(targets)@.contains(x) && downstream(x.0, x.1).contains(q) ==> final(pending)@.contains(q)
                || in_flight == Some(q) || answered.contains(q),
{
    let ghost before = targets@;
    let ghost before_p = pending@;
    if !contains_target(targets, t, id) {
        proof {
            lemma_push_no_duplicates(before, (t, id));
        }
        targets.push((t, id));
    }
    proof {
        assert forall|x: (EntityType, i64)| #[trigger] targets@.contains(x) <==> before.contains(x) || x == (t, id) by {
            lemma_push_contains(before, (t, id), x);
        }
    }
    let mut more = downstream_of(t, id);
    let ghost added = more@;
    pending.append(&mut more);
    proof {
        let p = pending@;
        assert(p =~= before_p + added);
        assert(targets@.contains((t, id)));
        assert forall|j: int| 0 <= j < p.len() implies from_target(targets@, #[trigger] p[j]) by {
            if j < before_p.len() {
                assert(p[j] == before_p[j]);
                lemma_from_target_grows(before, targets@, before_p[j]);
            } else {
                assert(p[j] == added[j - before_p.len()]);
                let x = (t, id);
                assert(downstream(x.0, x.1)[j - before_p.len()] == p[j]);
                assert(targets@.contains(x) && downstream(x.0, x.1).contains(p[j]));
            }
        }
        assert forall|x: (EntityType, i64), q: CascadeQuery|
            #![trigger targets@.contains(x), downstream(x.0, x.1).contains(q)]
            targets@.contains(x) && downstream(x.0, x.1).contains(q) implies p.contains(q)
                || in_flight == Some(q) || answered.contains(q) by {
            if before.contains(x) {
                if before_p.contains(q) {
                    let k = choose|k: int| 0 <= k < before_p.len() && before_p[k] == q;
                    assert(p[k] == q);
                }
            } else {
                let k = choose|k: int| 0 <= k < added.len() && added[k] == q;
                assert(p[before_p.len() + k] == q);
            }
        }
    }
}

/// Whether a batch holds a signal asking for a full rebuild.
pub open spec fn has_full_signal(batch: Seq<TimelineInvalidation>) -> bool {
    exists|i: int| 0 <= i < batch.len() && is_full(#[trigger] batch[i])
}

/// The entities a batch of signals names.
pub open spec fn signalled(batch: Seq<TimelineInvalidation>) -> Set<(EntityType, i64)> {
    Set::new(|x: (EntityType, i64)| signals_entity(batch, x.0, x.1))
}

/// What one batch of signals comes to: a batch with a full-rebuild signal
/// rebuilds everything once and refreshes nothing; any other batch does no
/// full rebuild and refreshes, each once, exactly the cascade of the
/// entities it names under what the lookups found, after every lookup for
/// what hangs off those entities has been performed.
pub open spec fn batch_law(
    batch: Seq<TimelineInvalidation>,
    rebuilds: nat,
    refreshed: Seq<(EntityType, i64)>,
    found: spec_fn(CascadeQuery) -> Set<i64>,
    looked_up: Set<CascadeQuery>,
) -> bool {
    if has_full_signal(batch) {
        rebuilds == 1 && refreshed.len() == 0
    } else {
        &&& rebuilds == 0
        &&& refreshed.no_duplicates()
        &&& is_cascade_of(entity_set(refreshed), signalled(batch), found)
        &&& forall|x: (EntityType, i64), q: CascadeQuery|
            #![trigger refreshed.contains(x), downstream(x.0, x.1).contains(q)]
            refreshed.contains(x) && downstream(x.0, x.1).contains(q) ==> looked_up.contains(q)
    }
}

/// What the rebuild task does next for a batch of signals.
#[derive(Debug, Clone, Copy, PartialEq, Eq, Structural)]
pub enum BatchAction {
    /// Delete every timeline event and rebuild them all.
    RebuildAll,
    /// Perform this cascade lookup and report what it found.
    Lookup(CascadeQuery),
    /// Refresh this entity's timeline events.
    Refresh(EntityType, i64),
    /// Nothing is left to do for the batch.
    Done,
}

/// One batch of invalidation signals on its way through the rebuild task:
/// the caller takes each action from `next_action`, performs it, reports
/// what a lookup found with `report_lookup`, and stops at `Done`.
pub struct BatchRun {
    full: bool,
    full_started: bool,
    collector: CascadeCollector,
    collected: bool,
    targets: Vec<(EntityType, i64)>,
    next: usize,
    batch: Ghost<Seq<TimelineInvalidation>>,
    refreshed: Ghost<Seq<(EntityType, i64)>>,
    rebuilt: Ghost<nat>,
    found_at_end: Ghost<spec_fn(CascadeQuery) -> Set<i64>>,
    looked_at_end: Ghost<Set<CascadeQuery>>,
}

impl BatchRun {
    #[verifier::type_invariant]
    spec fn on_track(self) -> bool {
        let b = self.batch@;
        &&& self.full == has_full_signal(b)
        &&& self.full ==> self.refreshed@.len() == 0 && self.rebuilt@ == (if self.full_started {
            1nat
        } else {
            0nat
        }) && !self.collected
        &&& !self.full ==> self.rebuilt@ == 0 && !self.full_started
        &&& !self.full && !self.collected ==> self.collector.changed_entities() == signalled(b)
            && self.refreshed@.len() == 0
        &&& !self.full && self.collected ==> {
            &&& self.targets@.no_duplicates()
            &&& is_cascade_of(entity_set(self.targets@), signalled(b), self.found_at_end@)
            &&& forall|x: (EntityType, i64), q: CascadeQuery|
                #![trigger self.targets@.contains(x), downstream(x.0, x.1).contains(q)]
                self.targets@.contains(x) && downstream(x.0, x.1).contains(q)
                    ==> self.looked_at_end@.contains(q)
            &&& self.next <= self.targets.len()
            &&& self.refreshed@ == self.targets@.take(self.next as int)
        }
    }

    /// The signals of the batch: the one that woke the task, then the rest.
    pub closed spec fn batch(self) -> Seq<TimelineInvalidation> {
        self.batch@
    }

    /// How many full rebuilds the run has asked for.
    pub closed spec fn rebuilds(self) -> nat {
        self.rebuilt@
    }

    /// The entities the run has asked to refresh, in order.
    pub closed spec fn refreshed(self) -> Seq<(EntityType, i64)> {
        self.refreshed@
    }

    /// What the cascade lookups have found.
    pub closed spec fn findings(self) -> spec_fn(CascadeQuery) -> Set<i64> {
        if self.collected {
            self.found_at_end@
        } else {
            self.collector.findings()
        }
    }

    /// The cascade lookups whose answers have been reported.
    pub closed spec fn looked_up(self) -> Set<CascadeQuery> {
        if self.collected {
            self.looked_at_end@
        } else {
            self.collector.looked_up()
        }
    }

    /// The lookup whose answer the run awaits.
    pub closed spec fn awaited(self) -> Option<CascadeQuery> {
        if !self.full && !self.collected {
            self.collector.outstanding()
        } else {
            None
        }
    }

    /// Whether nothing is left to do.
    pub closed spec fn is_done(self) -> bool {
        if self.full {
            self.full_started
        } else {
            self.collected && self.next == self.targets.len()
        }
    }

    fn idle() -> (res: Self) {
        let ghost none = |q: CascadeQuery| Set::<i64>::empty();
        assert(signalled(Seq::<TimelineInvalidation>::empty()) =~= Set::<(EntityType, i64)>::empty());
        BatchRun {
            full: false,
            full_started: false,
            collector: CascadeCollector::new(),
            collected: false,
            targets: Vec::new(),
            next: 0,
            batch: Ghost(Seq::empty()),
            refreshed: Ghost(Seq::empty()),
            rebuilt: Ghost(0nat),
            found_at_end: Ghost(none),
            looked_at_end: Ghost(Set::empty()),
        }
    }

    /// Starts a batch: the signal that woke the task, and those that arrived
    /// while it waited.
    pub fn start(first: TimelineInvalidation, pending: Vec<TimelineInvalidation>) -> (res: Self)
        ensures
            res.batch() == batch_of(first, pending@),
            res.rebuilds() == 0,
            res.refreshed() == Seq::<(EntityType, i64)>::empty(),
            !res.is_done(),
    {
        let ghost b = batch_of(first, pending@);
        let plan = plan_rebuild(first, pending);
        let ghost none = |q: CascadeQuery| Set::<i64>::empty();
        match plan {
            RebuildPlan::Full => {
                assert(has_full_signal(b));
                BatchRun {
                full: true,
                full_started: false,
                collector: CascadeCollector::new(),
                collected: false,
                targets: Vec::new(),
                next: 0,
                batch: Ghost(b),
                refreshed: Ghost(Seq::empty()),
                rebuilt: Ghost(0nat),
                found_at_end: Ghost(none),
                looked_at_end: Ghost(Set::empty()),
            }
            },
            RebuildPlan::Refresh(targets) => {
                let collector = CascadeCollector::for_changed(&targets);
                proof {
                    assert forall|x: (EntityType, i64)| #[trigger]
                        entity_set(targets@).contains(x) == signalled(b).contains(x) by {
                        assert((x.0, x.1) == x);
                        assert(targets@.contains((x.0, x.1)) <==> signals_entity(b, x.0, x.1));
                    }
                    assert(entity_set(targets@) =~= signalled(b));
                }
                BatchRun {
                    full: false,
                    full_started: false,
                    collector,
                    collected: false,
                    targets: Vec::new(),
                    next: 0,
                    batch: Ghost(b),
                    refreshed: Ghost(Seq::empty()),
                    rebuilt: Ghost(0nat),
                    found_at_end: Ghost(none),
                    looked_at_end: Ghost(Set::empty()),
                }
            },
        }
    }

    /// The next thing to do for the batch. Once it is `Done`, the batch has
    /// come to what `batch_law` says.
    pub fn next_action(&mut self) -> (res: BatchAction)
        ensures
            final(self).batch() == old(self).batch(),
            res is Done ==> final(self).is_done(),
            old(self).is_done() ==> res is Done,
            res is Done ==> batch_law(
                final(self).batch(),
                final(self).rebuilds(),
                final(self).refreshed(),
                final(self).findings(),
                final(self).looked_up(),
            ),
            res is RebuildAll ==> final(self).rebuilds() == old(self).rebuilds() + 1
                && final(self).refreshed() == old(self).refreshed(),
            res matches BatchAction::Refresh(t, id) ==> final(self).refreshed() == old(
                self,
            ).refreshed().push((t, id)) && final(self).rebuilds() == old(self).rebuilds(),
            res is Lookup || res is Done ==> final(self).refreshed() == old(self).refreshed()
                && final(self).rebuilds() == old(self).rebuilds(),
            res matches BatchAction::Lookup(q) ==> final(self).awaited() == Some(q),
    {
        proof {
            use_type_invariant(&*self);
        }
        let mut cur = BatchRun::idle();
        std::mem::swap(self, &mut cur);
        proof {
            use_type_invariant(&cur);
        }
        let BatchRun {
            full,
            full_started,
            mut collector,
            collected,
            targets,
            next,
            batch,
            refreshed,
            rebuilt,
            found_at_end,
            looked_at_end,
        } = cur;
        if full {
            if full_started {
                *self = BatchRun {
                    full,
                    full_started,
                    collector,
                    collected,
                    targets,
                    next,
                    batch,
                    refreshed,
                    rebuilt,
                    found_at_end,
                    looked_at_end,
                };
                return BatchAction::Done;
            }
            *self = BatchRun {
                full,
                full_started: true,
                collector,
                collected,
                targets,
                next,
                batch,
                refreshed,
                rebuilt: Ghost(1nat),
                found_at_end,
                looked_at_end,
            };
            return BatchAction::RebuildAll;
        }
        if !collected {
            match collector.next_query() {
                Some(q) => {
                    *self = BatchRun {
                        full,
                        full_started,
                        collector,
                        collected,
                        targets,
                        next,
                        batch,
                        refreshed,
                        rebuilt,
                        found_at_end,
                        looked_at_end,
                    };
                    return BatchAction::Lookup(q);
                },
                None => {
                    let ghost fg = collector.findings();
                    let ghost lg = collector.looked_up();
                    let ghost done = collector;
                    let ts = collector.into_targets();
                    assert(ts@ == done.collected());
                    let ghost empty = Seq::<(EntityType, i64)>::empty();
                    if ts.len() == 0 {
                        proof {
                            assert(ts@.take(0) =~= empty);
                        }
                        *self = BatchRun {
                            full,
                            full_started,
                            collector: CascadeCollector::new(),
                            collected: true,
                            targets: ts,
                            next: 0,
                            batch,
                            refreshed: Ghost(empty),
                            rebuilt,
                            found_at_end: Ghost(fg),
                            looked_at_end: Ghost(lg),
                        };
                        return BatchAction::Done;
                    }
                    let (t, id) = ts[0];
                    proof {
                        assert(ts@.take(1) =~= empty.push((t, id)));
                    }
                    *self = BatchRun {
                        full,
                        full_started,
                        collector: CascadeCollector::new(),
                        collected: true,
                        targets: ts,
                        next: 1,
                        batch,
                        refreshed: Ghost(empty.push((t, id))),
                        rebuilt,
                        found_at_end: Ghost(fg),
                        looked_at_end: Ghost(lg),
                    };
                    return BatchAction::Refresh(t, id);
                },
            }
        }
        if next < targets.len() {
            let (t, id) = targets[next];
            proof {
                assert(targets@.take(next + 1) =~= targets@.take(next as int).push((t, id)));
            }
            *self = BatchRun {
                full,
                full_started,
                collector,
                collected,
                targets,
                next: next + 1,
                batch,
                refreshed: Ghost(refreshed@.push((t, id))),
                rebuilt,
                found_at_end,
                looked_at_end,
            };
            return BatchAction::Refresh(t, id);
        }
        proof {
            assert(targets@.take(next as int) =~= targets@);
        }
        *self = BatchRun {
            full,
            full_started,
            collector,
            collected,
            targets,
            next,
            batch,
            refreshed,
            rebuilt,
            found_at_end,
            looked_at_end,
        };
        BatchAction::Done
    }

    /// Reports what the awaited lookup `query` found (a failed lookup found
    /// nothing). A report for any other query changes nothing.
    pub fn report_lookup(&mut self, query: CascadeQuery, found: Vec<i64>)
        ensures
            final(self).batch() == old(self).batch(),
            final(self).rebuilds() == old(self).rebuilds(),
            final(self).refreshed() == old(self).refreshed(),
            final(self).is_done() == old(self).is_done(),
            old(self).awaited() == Some(query) ==> (final(self).findings())(query) == (old(
                self,
            ).findings())(query).union(found@.to_set()) && final(self).awaited() is None,
            old(self).awaited() != Some(query) ==> final(self).findings() == old(self).findings(),
    {
        proof {
            use_type_invariant(&*self);
        }
        let mut cur = BatchRun::idle();
        std::mem::swap(self, &mut cur);
        proof {
            use_type_invariant(&cur);
        }
        let BatchRun {
            full,
            full_started,
            mut collector,
            collected,
            targets,
            next,
            batch,
            refreshed,
            rebuilt,
            found_at_end,
            looked_at_end,
        } = cur;
        if !full && !collected {
            collector.record(query, found);
        }
        *self = BatchRun {
            full,
            full_started,
            collector,
            collected,
            targets,
            next,
            batch,
            refreshed,
            rebuilt,
            found_at_end,
            looked_at_end,
        };
    }
}

/// An event ready to be placed under its month.
pub struct TimelinePreparedEvent<V> {
    pub anchor: String,
    pub heading: String,
    pub view: V,
}

/// The events of one month, in timeline order.
pub struct TimelineMonthView<V> {
    pub anchor: String,
    pub heading: String,
    pub events: Vec<V>,
}

/// Labels an event with its month: the anchor (`2024-05`) that links to it
/// and the heading (`May 2024`) shown above it.
pub fn prepare_event<V>(occurred_at: i64, view: V) -> (res: TimelinePreparedEvent<V>)
    requires
        in_timestamp_range(occurred_at),
    ensures
        res.anchor@ == utc_format(occurred_at, "%Y-%m"@),
        res.heading@ == utc_format(occurred_at, "%B %Y"@),
        res.view == view,
{
    let anchor = format_month_anchor(occurred_at);
    let heading = format_month_heading(occurred_at);
    TimelinePreparedEvent { anchor, heading, view }
}

pub open spec fn prepared_view<V>(p: TimelinePreparedEvent<V>) -> (Seq<char>, Seq<char>, V) {
    (p.anchor@, p.heading@, p.view)
}

pub open spec fn prepared_views<V>(ps: Seq<TimelinePreparedEvent<V>>) -> Seq<(Seq<char>, Seq<char>, V)> {
    ps.map_values(|p: TimelinePreparedEvent<V>| prepared_view(p))
}

pub open spec fn month_view<V>(m: TimelineMonthView<V>) -> (Seq<char>, Seq<char>, Seq<V>) {
    (m.anchor@, m.heading@, m.events@)
}

pub open spec fn month_views<V>(ms: Seq<TimelineMonthView<V>>) -> Seq<(Seq<char>, Seq<char>, Seq<V>)> {
    ms.map_values(|m: TimelineMonthView<V>| month_view(m))
}

/// Runs of consecutive events with the same anchor, each run under the
/// anchor and the heading of its first event.
pub open spec fn group_months<V>(ps: Seq<(Seq<char>, Seq<char>, V)>) -> Seq<
    (Seq<char>, Seq<char>, Seq<V>),
>
    decreases ps.len(),
{
    if ps.len() == 0 {
        seq![]
    } else {
        let g = group_months(ps.drop_last());
        let p = ps.last();
        if g.len() > 0 && g.last().0 == p.0 {
            g.update(g.len() - 1, (g.last().0, g.last().1, g.last().2.push(p.2)))
        } else {
            g.push((p.0, p.1, seq![p.2]))
        }
    }
}

/// Groups a page of events by month, keeping their order.
pub fn build_months<V>(prepared_events: Vec<TimelinePreparedEvent<V>>) -> (res: Vec<
    TimelineMonthView<V>,
>)
    ensures
        month_views(res@) == group_months(prepared_views(prepared_events@)),
{
    let ghost items = prepared_events@;
    let ghost src = prepared_views(items);
    let mut months: Vec<TimelineMonthView<V>> = Vec::new();
    for prepared in it: prepared_events.into_iter()
        invariant
            it.seq() == items,
            src == prepared_views(items),
            month_views(months@) == group_months(src.take(it.index() as int)),
    {
        let ghost k = it.index();
        let ghost g = group_months(src.take(k as int));
        let ghost old_months = months@;
        assert(src.take(k + 1).drop_last() =~= src.take(k as int));
        assert(src.take(k + 1).last() == prepared_view(prepared));
        let n = months.len();
        if n > 0 && months[n - 1].anchor == prepared.anchor {
            let mut last = months.pop().unwrap();
            assert(last == old_months[n - 1]);
            assert(g.last() == month_view(last));
            last.events.push(prepared.view);
            months.push(last);
            assert(months@ =~= old_months.drop_last().push(last));
            assert(month_views(months@) =~= group_months(src.take(k + 1)));
        } else {
            let TimelinePreparedEvent { anchor, heading, view } = prepared;
            let events = vec![view];
            assert(events@ =~= seq![view]);
            months.push(TimelineMonthView { anchor, heading, events });
            assert(month_views(months@) =~= group_months(src.take(k + 1)));
        }
    }
    assert(src.take(items.len() as int) =~= src);
    months
}

/// All the events of the months, month after month.
pub open spec fn flatten_months<V>(g: Seq<(Seq<char>, Seq<char>, Seq<V>)>) -> Seq<V>
    decreases g.len(),
{
    if g.len() == 0 {
        seq![]
    } else {
        flatten_months(g.drop_last()) + g.last().2
    }
}

/// Grouping by month loses no event and reorders none; every month holds at
/// least one event; two months next to each other never share an anchor.
pub proof fn law_months_partition_events<V>(ps: Seq<(Seq<char>, Seq<char>, V)>)
    ensures
        flatten_months(group_months(ps)) == ps.map_values(|p: (Seq<char>, Seq<char>, V)| p.2),
        forall|i: int|
            0 <= i < group_months(ps).len() ==> #[trigger] group_months(ps)[i].2.len() > 0,
        forall|i: int|
            0 <= i < group_months(ps).len() - 1 ==> #[trigger] group_months(ps)[i].0
                != group_months(ps)[i + 1].0,
        group_months(ps).len() <= ps.len(),
    decreases ps.len(),
{
    if ps.len() > 0 {
        let rest = ps.drop_last();
        law_months_partition_events(rest);
        let g = group_months(rest);
        let p = ps.last();
        let vals = ps.map_values(|p: (Seq<char>, Seq<char>, V)| p.2);
        assert(vals.drop_last() =~= rest.map_values(|p: (Seq<char>, Seq<char>, V)| p.2));
        assert(vals =~= vals.drop_last().push(p.2));
        if g.len() > 0 && g.last().0 == p.0 {
            let g2 = group_months(ps);
            assert(g2.drop_last() =~= g.drop_last());
            assert(flatten_months(g) == flatten_months(g.drop_last()) + g.last().2);
            assert(flatten_months(g2) == flatten_months(g2.drop_last()) + g2.last().2);
            assert(flatten_months(g2) =~= flatten_months(g).push(p.2));
        } else {
            let g2 = group_months(ps);
            assert(g2.drop_last() =~= g);
            assert(flatten_months(g2) =~= flatten_months(g) + seq![p.2]);
        }
    }
}

} // verus!
