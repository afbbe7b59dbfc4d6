use platformer_core::geometry::{Vec2i, UNIT};
use platformer_core::one_way::{
    one_way_platform_system, ContactManifold, ContactWorld, Contacts, OneWayPlatform,
    PassThroughOneWayPlatform, Side,
};

const PLATFORM: u64 = 1;
const PLATFORM_COLLIDER: u64 = 11;
const BODY: u64 = 2;
const OTHER_BODY: u64 = 3;

fn manifold(n1: (i64, i64), penetrations: Vec<i64>) -> ContactManifold {
    ContactManifold {
        normal1: Vec2i::new(n1.0, n1.1),
        normal2: Vec2i::new(-n1.0, -n1.1),
        penetrations,
    }
}

fn contact(e1: u64, e2: u64, n1: (i64, i64), penetrations: Vec<i64>) -> Contacts {
    Contacts { entity1: e1, entity2: e2, manifolds: vec![manifold(n1, penetrations)] }
}

fn world() -> ContactWorld {
    let mut w = ContactWorld::new();
    w.add_platform(PLATFORM);
    w.set_parent(PLATFORM_COLLIDER, PLATFORM);
    w
}

#[test]
fn contact_without_platform_is_kept() {
    let mut w = world();
    let c = contact(BODY, OTHER_BODY, (0, -UNIT), vec![50]);
    assert!(w.filter_contact(&c));
    assert!(!w.is_passing(PLATFORM, BODY));
}

#[test]
fn landing_from_above_is_kept_even_when_penetrating() {
    let mut w = world();
    let c = contact(PLATFORM, BODY, (0, UNIT), vec![20]);
    assert!(w.filter_contact(&c));
    assert!(!w.is_passing(PLATFORM, BODY));
}

#[test]
fn normal_at_sixty_degrees_counts_as_aligned() {
    let mut w = world();
    let c = contact(PLATFORM, BODY, (866, 500), vec![20]);
    assert!(w.filter_contact(&c));
    let c = contact(PLATFORM, BODY, (867, 499), vec![20]);
    assert!(!w.filter_contact(&c));
}

#[test]
fn side_approach_without_penetration_is_kept_every_time() {
    let mut w = world();
    let c = contact(PLATFORM, BODY, (UNIT, 0), vec![0, -5]);
    assert!(w.filter_contact(&c));
    assert!(w.filter_contact(&c));
    assert!(!w.is_passing(PLATFORM, BODY));
}

#[test]
fn zero_normal_is_not_aligned() {
    let mut w = world();
    let c = contact(PLATFORM, BODY, (0, 0), vec![0]);
    assert!(w.filter_contact(&c));
    let c = contact(PLATFORM, BODY, (0, 0), vec![3]);
    assert!(!w.filter_contact(&c));
    assert!(w.is_passing(PLATFORM, BODY));
}

#[test]
fn passage_persists_while_penetrating_and_ends_after() {
    let mut w = world();
    let from_below = contact(PLATFORM, BODY, (0, -UNIT), vec![10]);
    assert!(!w.filter_contact(&from_below));
    assert!(w.is_passing(PLATFORM, BODY));
    // Even an aligned normal does not end the passage while penetrating.
    let inside = contact(PLATFORM, BODY, (0, UNIT), vec![0, 4]);
    assert!(!w.filter_contact(&inside));
    assert!(w.is_passing(PLATFORM, BODY));
    let out = contact(PLATFORM, BODY, (0, UNIT), vec![0]);
    assert!(w.filter_contact(&out));
    assert!(!w.is_passing(PLATFORM, BODY));
}

#[test]
fn always_policy_rejects_and_registers() {
    let mut w = world();
    w.set_policy(BODY, PassThroughOneWayPlatform::Always);
    let c = contact(PLATFORM, BODY, (0, UNIT), vec![0]);
    assert!(!w.filter_contact(&c));
    assert!(w.is_passing(PLATFORM, BODY));
    assert!(!w.filter_contact(&c));
    assert!(w.is_passing(PLATFORM, BODY));
}

#[test]
fn never_policy_keeps_and_never_registers() {
    let mut w = world();
    w.set_policy(BODY, PassThroughOneWayPlatform::Never);
    let c = contact(BODY, PLATFORM, (0, UNIT), vec![30]);
    assert!(w.filter_contact(&c));
    assert!(!w.is_passing(PLATFORM, BODY));
}

#[test]
fn platform_on_second_side_uses_second_normal() {
    let mut w = world();
    // normal2 of this manifold is (0, UNIT): the body lands on the platform.
    let c = contact(BODY, PLATFORM, (0, -UNIT), vec![7]);
    assert!(w.filter_contact(&c));
    // normal2 is (0, -UNIT): the body comes from below.
    let c = contact(BODY, PLATFORM, (0, UNIT), vec![7]);
    assert!(!w.filter_contact(&c));
    assert!(w.is_passing(PLATFORM, BODY));
}

#[test]
fn child_collider_resolves_to_its_platform() {
    let mut w = world();
    let c = contact(PLATFORM_COLLIDER, BODY, (0, -UNIT), vec![2]);
    assert!(!w.filter_contact(&c));
    assert!(w.is_passing(PLATFORM, BODY));
    assert!(!w.is_passing(PLATFORM_COLLIDER, BODY));
}

#[test]
fn two_platforms_are_never_filtered() {
    let mut w = world();
    w.add_platform(OTHER_BODY);
    let c = contact(PLATFORM, OTHER_BODY, (0, -UNIT), vec![9]);
    assert!(w.filter_contact(&c));
    assert!(!w.is_passing(PLATFORM, OTHER_BODY));
    assert!(!w.is_passing(OTHER_BODY, PLATFORM));
}

#[test]
fn system_keeps_accepted_contacts_in_order() {
    let mut w = world();
    let mut collisions = vec![
        contact(BODY, OTHER_BODY, (UNIT, 0), vec![1]),
        contact(PLATFORM, BODY, (0, -UNIT), vec![5]),
        contact(PLATFORM, OTHER_BODY, (0, UNIT), vec![5]),
        // BODY is now passing and still penetrating: rejected again.
        contact(PLATFORM, BODY, (0, UNIT), vec![5]),
    ];
    one_way_platform_system(&mut w, &mut collisions);
    assert_eq!(collisions.len(), 2);
    assert_eq!((collisions[0].entity1, collisions[0].entity2), (BODY, OTHER_BODY));
    assert_eq!((collisions[1].entity1, collisions[1].entity2), (PLATFORM, OTHER_BODY));
    assert!(w.is_passing(PLATFORM, BODY));
    assert!(!w.is_passing(PLATFORM, OTHER_BODY));
}

#[test]
fn platform_state_decides_directly() {
    let mut p = OneWayPlatform::new();
    let c = contact(PLATFORM, BODY, (0, -UNIT), vec![1]);
    assert!(!p.decide(BODY, PassThroughOneWayPlatform::ByNormal, &c, Side::First));
    assert!(p.is_passing(BODY));
    let c = contact(PLATFORM, BODY, (0, -UNIT), vec![0]);
    assert!(p.decide(BODY, PassThroughOneWayPlatform::ByNormal, &c, Side::First));
    assert!(!p.is_passing(BODY));
}
