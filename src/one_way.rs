use std::collections::HashMap;
use std::collections::HashSet;
use vstd::prelude::*;

use crate::geometry::{UNIT, Vec2i};

verus! {

broadcast use vstd::std_specs::hash::group_hash_axioms;

/// How a collider that is not a one-way platform meets one-way platforms.
#[derive(Clone, Copy, Debug, PartialEq, Eq, Structural)]
pub enum PassThroughOneWayPlatform {
    /// Collide when approaching from above, pass through otherwise.
    ByNormal,
    /// Always collide.
    Never,
    /// Always pass through.
    Always,
}

/// One contact manifold between two colliders.
pub struct ContactManifold {
    /// Contact normal in the frame of the first collider.
    pub normal1: Vec2i,
    /// Contact normal in the frame of the second collider.
    pub normal2: Vec2i,
    /// Penetration depth of each contact point (fixed point).
    pub penetrations: Vec<i64>,
}

/// A candidate contact between two colliders, with its manifolds.
pub struct Contacts {
    pub entity1: u64,
    pub entity2: u64,
    pub manifolds: Vec<ContactManifold>,
}

/// Which side of a contact is the one-way platform.
#[derive(Clone, Copy, Debug, PartialEq, Eq, Structural)]
pub enum Side {
    First,
    Second,
}

pub open spec fn manifold_penetrating(m: ContactManifold) -> bool {
    exists|j: int| 0 <= j < m.penetrations@.len() && m.penetrations@[j] > 0
}

/// Whether some contact point of some manifold penetrates.
pub open spec fn penetrating(c: Contacts) -> bool {
    exists|i: int| 0 <= i < c.manifolds@.len() && manifold_penetrating(#[trigger] c.manifolds@[i])
}

/// The normal of a manifold seen from the given side.
pub open spec fn side_normal(m: ContactManifold, side: Side) -> Vec2i {
    match side {
        Side::First => m.normal1,
        Side::Second => m.normal2,
    }
}

/// A normal is aligned with "up" when it is not zero and its dot product with
/// the unit up axis is at least one half.
pub open spec fn normal_aligned(n: Vec2i) -> bool {
    (n.x != 0 || n.y != 0) && 2 * n.y >= UNIT
}

/// Whether the platform-side normal of every manifold is aligned with "up".
pub open spec fn all_aligned(c: Contacts, side: Side) -> bool {
    forall|i: int|
        0 <= i < c.manifolds@.len() ==> normal_aligned(side_normal(#[trigger] c.manifolds@[i], side))
}

/// The decision for one contact between a platform whose passing set is
/// `passing` and another body `other`: whether the contact is kept, and the
/// platform's passing set afterwards.
pub open spec fn pass_decision(
    passing: Set<u64>,
    other: u64,
    policy: PassThroughOneWayPlatform,
    c: Contacts,
    side: Side,
) -> (bool, Set<u64>) {
    if passing.contains(other) && penetrating(c) {
        (false, passing)
    } else {
        let rest = passing.remove(other);
        match policy {
            PassThroughOneWayPlatform::Never => (true, rest),
            PassThroughOneWayPlatform::Always => (false, rest.insert(other)),
            PassThroughOneWayPlatform::ByNormal => {
                if all_aligned(c, side) {
                    (true, rest)
                } else if penetrating(c) {
                    (false, rest.insert(other))
                } else {
                    (true, rest)
                }
            },
        }
    }
}

fn manifold_any_penetrating(m: &ContactManifold) -> (r: bool)
    ensures
        r == manifold_penetrating(*m),
{
    let mut j: usize = 0;
    while j < m.penetrations.len()
        invariant
            j <= m.penetrations@.len(),
            forall|k: int| 0 <= k < j ==> m.penetrations@[k] <= 0,
        decreases m.penetrations@.len() - j,
    {
        if m.penetrations[j] > 0 {
            return true;
        }
        j = j + 1;
    }
    false
}

/// Whether any contact point of any manifold penetrates.
pub fn any_penetrating(c: &Contacts) -> (r: bool)
    ensures
        r == penetrating(*c),
{
    let mut i: usize = 0;
    while i < c.manifolds.len()
        invariant
            i <= c.manifolds@.len(),
            forall|k: int| 0 <= k < i ==> !manifold_penetrating(#[trigger] c.manifolds@[k]),
        decreases c.manifolds@.len() - i,
    {
        if manifold_any_penetrating(&c.manifolds[i]) {
            return true;
        }
        i = i + 1;
    }
    false
}

/// Whether a normal points within about sixty degrees of "up".
pub fn is_aligned(n: Vec2i) -> (r: bool)
    ensures
        r == normal_aligned(n),
{
    (n.x != 0 || n.y != 0) && 2 * (n.y as i128) >= UNIT as i128
}

/// Whether the platform-side normal of every manifold is aligned with "up".
pub fn all_normals_aligned(c: &Contacts, side: Side) -> (r: bool)
    ensures
        r == all_aligned(*c, side),
{
    let mut i: usize = 0;
    while i < c.manifolds.len()
        invariant
            i <= c.manifolds@.len(),
            forall|k: int|
                0 <= k < i ==> normal_aligned(side_normal(#[trigger] c.manifolds@[k], side)),
        decreases c.manifolds@.len() - i,
    {
        let m = &c.manifolds[i];
        let n = match side {
            Side::First => m.normal1,
            Side::Second => m.normal2,
        };
        if !is_aligned(n) {
            return false;
        }
        i = i + 1;
    }
    true
}

/// State of a one-way platform: the bodies currently passing through it.
pub struct OneWayPlatform {
    pub passing: HashSet<u64>,
}

impl View for OneWayPlatform {
    type V = Set<u64>;

    open spec fn view(&self) -> Set<u64> {
        self.passing@
    }
}

impl OneWayPlatform {
    /// A platform with nobody passing through.
    pub fn new() -> (r: OneWayPlatform)
        ensures
            r@ == Set::<u64>::empty(),
    {
        OneWayPlatform { passing: HashSet::new() }
    }

    /// Whether `entity` is currently passing through this platform.
    pub fn is_passing(&self, entity: u64) -> (r: bool)
        ensures
            r == self@.contains(entity),
    {
        self.passing.contains(&entity)
    }

    /// Decides one contact between this platform (on `side` of the contact) and
    /// `other`, and updates the set of bodies passing through.
    pub fn decide(
        &mut self,
        other: u64,
        policy: PassThroughOneWayPlatform,
        contacts: &Contacts,
        side: Side,
    ) -> (keep: bool)
        ensures
            (keep, final(self)@) == pass_decision(old(self)@, other, policy, *contacts, side),
    {
        if self.passing.contains(&other) {
            if any_penetrating(contacts) {
                return false;
            } else {
                self.passing.remove(&other);
            }
        }
        assert(self@ == old(self)@.remove(other));
        match policy {
            PassThroughOneWayPlatform::Never => true,
            PassThroughOneWayPlatform::Always => {
                self.passing.insert(other);
                false
            },
            PassThroughOneWayPlatform::ByNormal => {
                if all_normals_aligned(contacts, side) {
                    true
                } else if any_penetrating(contacts) {
                    self.passing.insert(other);
                    false
                } else {
                    true
                }
            },
        }
    }
}

/// The top-level body that owns a collider: its parent when it has one.
pub open spec fn owner(parents: Map<u64, u64>, e: u64) -> u64 {
    if parents.contains_key(e) {
        parents[e]
    } else {
        e
    }
}

/// The pass-through policy of a body; `ByNormal` when it carries none.
pub open spec fn policy_of(
    policies: Map<u64, PassThroughOneWayPlatform>,
    e: u64,
) -> PassThroughOneWayPlatform {
    if policies.contains_key(e) {
        policies[e]
    } else {
        PassThroughOneWayPlatform::ByNormal
    }
}

/// The decision for one contact candidate, given the passing set of every
/// one-way platform: whether it is kept, and the passing sets afterwards.
pub open spec fn contact_step(
    platforms: Map<u64, Set<u64>>,
    parents: Map<u64, u64>,
    policies: Map<u64, PassThroughOneWayPlatform>,
    c: Contacts,
) -> (bool, Map<u64, Set<u64>>) {
    let e1 = owner(parents, c.entity1);
    let e2 = owner(parents, c.entity2);
    if platforms.contains_key(e1) && platforms.contains_key(e2) {
        (true, platforms)
    } else if platforms.contains_key(e1) {
        let d = pass_decision(platforms[e1], e2, policy_of(policies, e2), c, Side::First);
        (d.0, platforms.insert(e1, d.1))
    } else if platforms.contains_key(e2) {
        let d = pass_decision(platforms[e2], e1, policy_of(policies, e1), c, Side::Second);
        (d.0, platforms.insert(e2, d.1))
    } else {
        (true, platforms)
    }
}

/// One pass of the filter over a sequence of contact candidates, in order:
/// the candidates kept, and the passing sets afterwards.
pub open spec fn filter_pass(
    platforms: Map<u64, Set<u64>>,
    parents: Map<u64, u64>,
    policies: Map<u64, PassThroughOneWayPlatform>,
    cs: Seq<Contacts>,
) -> (Seq<Contacts>, Map<u64, Set<u64>>)
    decreases cs.len(),
{
    if cs.len() == 0 {
        (Seq::empty(), platforms)
    } else {
        let step = contact_step(platforms, parents, policies, cs[0]);
        let rest = filter_pass(step.1, parents, policies, cs.drop_first());
        if step.0 {
            (seq![cs[0]] + rest.0, rest.1)
        } else {
            rest
        }
    }
}

/// The bodies, one-way platforms and policies that the filter consults.
pub struct ContactWorld {
    /// Owning body of each collider that has one.
    pub parents: HashMap<u64, u64>,
    /// State of each one-way platform body.
    pub platforms: HashMap<u64, OneWayPlatform>,
    /// Pass-through policy of each body that carries one.
    pub policies: HashMap<u64, PassThroughOneWayPlatform>,
}

impl ContactWorld {
    /// The passing set of every one-way platform.
    pub open spec fn passing_sets(&self) -> Map<u64, Set<u64>> {
        Map::new(|k: u64| self.platforms@.contains_key(k), |k: u64| self.platforms@[k]@)
    }

    /// An empty world.
    pub fn new() -> (r: ContactWorld)
        ensures
            r.parents@ == Map::<u64, u64>::empty(),
            r.passing_sets() == Map::<u64, Set<u64>>::empty(),
            r.policies@ == Map::<u64, PassThroughOneWayPlatform>::empty(),
    {
        let r = ContactWorld {
            parents: HashMap::new(),
            platforms: HashMap::new(),
            policies: HashMap::new(),
        };
        assert(r.passing_sets() =~= Map::<u64, Set<u64>>::empty());
        r
    }

    /// Records that `collider` belongs to the body `body`.
    pub fn set_parent(&mut self, collider: u64, body: u64)
        ensures
            final(self).parents@ == old(self).parents@.insert(collider, body),
            final(self).passing_sets() == old(self).passing_sets(),
            final(self).policies@ == old(self).policies@,
    {
        self.parents.insert(collider, body);
    }

    /// Makes `body` a one-way platform with nobody passing through.
    pub fn add_platform(&mut self, body: u64)
        ensures
            final(self).parents@ == old(self).parents@,
            final(self).passing_sets() == old(self).passing_sets().insert(body, Set::empty()),
            final(self).policies@ == old(self).policies@,
    {
        self.platforms.insert(body, OneWayPlatform::new());
        assert(self.passing_sets() =~= old(self).passing_sets().insert(body, Set::empty()));
    }

    /// Gives `body` a pass-through policy.
    pub fn set_policy(&mut self, body: u64, policy: PassThroughOneWayPlatform)
        ensures
            final(self).parents@ == old(self).parents@,
            final(self).passing_sets() == old(self).passing_sets(),
            final(self).policies@ == old(self).policies@.insert(body, policy),
    {
        self.policies.insert(body, policy);
    }

    /// Whether `other` is passing through the platform `platform`.
    pub fn is_passing(&self, platform: u64, other: u64) -> (r: bool)
        ensures
            r == (self.passing_sets().contains_key(platform) && self.passing_sets()[platform].contains(
                other,
            )),
    {
        match self.platforms.get(&platform) {
            Some(p) => p.is_passing(other),
            None => false,
        }
    }

    fn owner_of(&self, e: u64) -> (r: u64)
        ensures
            r == owner(self.parents@, e),
    {
        match self.parents.get(&e) {
            Some(p) => *p,
            None => e,
        }
    }

    fn policy(&self, e: u64) -> (r: PassThroughOneWayPlatform)
        ensures
            r == policy_of(self.policies@, e),
    {
        match self.policies.get(&e) {
            Some(p) => *p,
            None => PassThroughOneWayPlatform::ByNormal,
        }
    }

    /// Decides one contact of `platform` with `other` and writes the new
    /// passing set back.
    fn decide_for(
        &mut self,
        platform: u64,
        other: u64,
        contacts: &Contacts,
        side: Side,
    ) -> (keep: bool)
        requires
            old(self).platforms@.contains_key(platform),
        ensures
            final(self).parents@ == old(self).parents@,
            final(self).policies@ == old(self).policies@,
            ({
                let d = pass_decision(
                    old(self).passing_sets()[platform],
                    other,
                    policy_of(old(self).policies@, other),
                    *contacts,
                    side,
                );
                keep == d.0 && final(self).passing_sets() == old(self).passing_sets().insert(
                    platform,
                    d.1,
                )
            }),
    {
        let policy = self.policy(other);
        let removed = self.platforms.remove(&platform);
        match removed {
            Some(mut p) => {
                let keep = p.decide(other, policy, contacts, side);
                let ghost set_after = p@;
                self.platforms.insert(platform, p);
                assert(self.passing_sets() =~= old(self).passing_sets().insert(platform, set_after));
                keep
            },
            None => true,
        }
    }

    /// Decides one contact candidate: whether the solver should still enforce
    /// it. Updates the passing set of the platform involved.
    pub fn filter_contact(&mut self, contacts: &Contacts) -> (keep: bool)
        ensures
            final(self).parents@ == old(self).parents@,
            final(self).policies@ == old(self).policies@,
            (keep, final(self).passing_sets()) == contact_step(
                old(self).passing_sets(),
                old(self).parents@,
                old(self).policies@,
                *contacts,
            ),
    {
        let e1 = self.owner_of(contacts.entity1);
        let e2 = self.owner_of(contacts.entity2);
        let first_is_platform = self.platforms.contains_key(&e1);
        let second_is_platform = self.platforms.contains_key(&e2);
        if first_is_platform && second_is_platform {
            true
        } else if first_is_platform {
            self.decide_for(e1, e2, contacts, Side::First)
        } else if second_is_platform {
            self.decide_for(e2, e1, contacts, Side::Second)
        } else {
            true
        }
    }
}

/// Filters the contact candidates of one physics tick, in order: keeps those
/// that the solver should still enforce, and updates the passing set of every
/// one-way platform.
pub fn one_way_platform_system(world: &mut ContactWorld, collisions: &mut Vec<Contacts>)
    ensures
        final(world).parents@ == old(world).parents@,
        final(world).policies@ == old(world).policies@,
        (final(collisions)@, final(world).passing_sets()) == filter_pass(
            old(world).passing_sets(),
            old(world).parents@,
            old(world).policies@,
            old(collisions)@,
        ),
{
    let mut pending: Vec<Contacts> = Vec::new();
    std::mem::swap(collisions, &mut pending);
    let ghost all = pending@;
    let ghost parents = world.parents@;
    let ghost policies = world.policies@;
    let ghost start = world.passing_sets();
    let mut kept: Vec<Contacts> = Vec::new();
    while pending.len() > 0
        invariant
            world.parents@ == parents,
            world.policies@ == policies,
            filter_pass(start, parents, policies, all) == ({
                let rest = filter_pass(world.passing_sets(), parents, policies, pending@);
                (kept@ + rest.0, rest.1)
            }),
        decreases pending@.len(),
    {
        let ghost before = pending@;
        let ghost sets = world.passing_sets();
        let c = pending.remove(0);
        assert(pending@ =~= before.drop_first());
        let keep = world.filter_contact(&c);
        if keep {
            let ghost kept_before = kept@;
            kept.push(c);
            assert(kept@ + filter_pass(world.passing_sets(), parents, policies, pending@).0
                =~= kept_before + (seq![before[0]] + filter_pass(world.passing_sets(), parents, policies, pending@).0));
        }
    }
    assert(kept@ + Seq::<Contacts>::empty() =~= kept@);
    *collisions = kept;
}

/// A contact where neither side belongs to a one-way platform is kept, and no
/// passing set changes.
pub proof fn lemma_no_platform_kept(
    platforms: Map<u64, Set<u64>>,
    parents: Map<u64, u64>,
    policies: Map<u64, PassThroughOneWayPlatform>,
    c: Contacts,
)
    requires
        !platforms.contains_key(owner(parents, c.entity1)),
        !platforms.contains_key(owner(parents, c.entity2)),
    ensures
        contact_step(platforms, parents, policies, c) == (true, platforms),
{
}

/// Deciding a contact changes passing sets only: the set of platforms stays.
pub proof fn lemma_step_keeps_platforms(
    platforms: Map<u64, Set<u64>>,
    parents: Map<u64, u64>,
    policies: Map<u64, PassThroughOneWayPlatform>,
    c: Contacts,
)
    ensures
        contact_step(platforms, parents, policies, c).1.dom() == platforms.dom(),
{
    let r = contact_step(platforms, parents, policies, c);
    assert(r.1.dom() =~= platforms.dom());
}

/// In a pass of the filter, every contact candidate where neither side
/// belongs to a one-way platform is among those kept.
pub proof fn lemma_pass_keeps_non_platform(
    platforms: Map<u64, Set<u64>>,
    parents: Map<u64, u64>,
    policies: Map<u64, PassThroughOneWayPlatform>,
    cs: Seq<Contacts>,
    i: int,
)
    requires
        0 <= i < cs.len(),
        !platforms.contains_key(owner(parents, cs[i].entity1)),
        !platforms.contains_key(owner(parents, cs[i].entity2)),
    ensures
        filter_pass(platforms, parents, policies, cs).0.contains(cs[i]),
    decreases cs.len(),
{
    let step = contact_step(platforms, parents, policies, cs[0]);
    let rest = filter_pass(step.1, parents, policies, cs.drop_first());
    lemma_step_keeps_platforms(platforms, parents, policies, cs[0]);
    if i == 0 {
        lemma_no_platform_kept(platforms, parents, policies, cs[0]);
        assert((seq![cs[0]] + rest.0)[0] == cs[0]);
    } else {
        assert(cs.drop_first()[i - 1] == cs[i]);
        lemma_pass_keeps_non_platform(step.1, parents, policies, cs.drop_first(), i - 1);
        let k = choose|k: int| 0 <= k < rest.0.len() && rest.0[k] == cs[i];
        if step.0 {
            assert((seq![cs[0]] + rest.0)[k + 1] == cs[i]);
        }
    }
}

/// A contact between two one-way platforms is kept as it is.
pub proof fn lemma_platform_pair_kept(
    platforms: Map<u64, Set<u64>>,
    parents: Map<u64, u64>,
    policies: Map<u64, PassThroughOneWayPlatform>,
    c: Contacts,
)
    requires
        platforms.contains_key(owner(parents, c.entity1)),
        platforms.contains_key(owner(parents, c.entity2)),
    ensures
        contact_step(platforms, parents, policies, c) == (true, platforms),
{
}

/// Under the `ByNormal` policy, a body that is not already passing through and
/// whose platform-side normals all point up is kept, whether it penetrates or
/// not, and does not start passing through.
pub proof fn lemma_aligned_kept(passing: Set<u64>, other: u64, c: Contacts, side: Side)
    requires
        !passing.contains(other),
        all_aligned(c, side),
    ensures
        pass_decision(passing, other, PassThroughOneWayPlatform::ByNormal, c, side) == (
            true,
            passing,
        ),
{
    assert(passing.remove(other) =~= passing);
}

/// Under the `ByNormal` policy, a body that is neither aligned nor penetrating
/// is kept and is no longer passing through; deciding again gives the same.
pub proof fn lemma_side_approach_kept(passing: Set<u64>, other: u64, c: Contacts, side: Side)
    requires
        !all_aligned(c, side),
        !penetrating(c),
    ensures
        ({
            let d = pass_decision(passing, other, PassThroughOneWayPlatform::ByNormal, c, side);
            &&& d == (true, passing.remove(other))
            &&& pass_decision(d.1, other, PassThroughOneWayPlatform::ByNormal, c, side) == d
        }),
{
    assert(passing.remove(other).remove(other) =~= passing.remove(other));
}

/// Deciding the same contact twice, the second time on the passing set that
/// the first left, gives the same decision and the same set.
pub proof fn lemma_decision_idempotent(
    passing: Set<u64>,
    other: u64,
    policy: PassThroughOneWayPlatform,
    c: Contacts,
    side: Side,
)
    ensures
        ({
            let d = pass_decision(passing, other, policy, c, side);
            pass_decision(d.1, other, policy, c, side) == d
        }),
{
    let rest = passing.remove(other);
    assert(rest.remove(other) =~= rest);
    assert(rest.insert(other).remove(other).insert(other) =~= rest.insert(other));
}

/// A body that is passing through stays passing, and its contact stays
/// rejected, while it penetrates; once it no longer penetrates it leaves the
/// passing set, unless the `Always` policy starts a new passage at once.
pub proof fn lemma_passing_persists(
    passing: Set<u64>,
    other: u64,
    policy: PassThroughOneWayPlatform,
    c: Contacts,
    side: Side,
)
    requires
        passing.contains(other),
    ensures
        penetrating(c) ==> pass_decision(passing, other, policy, c, side) == (false, passing),
        !penetrating(c) && policy != PassThroughOneWayPlatform::Always ==> !pass_decision(
            passing,
            other,
            policy,
            c,
            side,
        ).1.contains(other),
{
}

/// Under the `Always` policy the contact is rejected and the body is passing
/// through afterwards.
pub proof fn lemma_always_passes(passing: Set<u64>, other: u64, c: Contacts, side: Side)
    ensures
        ({
            let d = pass_decision(passing, other, PassThroughOneWayPlatform::Always, c, side);
            !d.0 && d.1.contains(other)
        }),
{
}

/// Under the `Never` policy the contact is kept and the body is not passing
/// through afterwards.
pub proof fn lemma_never_passes(passing: Set<u64>, other: u64, c: Contacts, side: Side)
    requires
        !(passing.contains(other) && penetrating(c)),
    ensures
        ({
            let d = pass_decision(passing, other, PassThroughOneWayPlatform::Never, c, side);
            d.0 && !d.1.contains(other)
        }),
{
}

} // verus!
