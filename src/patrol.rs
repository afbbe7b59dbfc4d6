use vstd::prelude::*;

use crate::geometry::{COORD_LIMIT, Vec2i, dot};

verus! {

/// `r` is the integer square root of `n`.
pub open spec fn is_root(n: int, r: int) -> bool {
    0 <= r && r * r <= n < (r + 1) * (r + 1)
}

/// The integer square root of `n`.
pub open spec fn root(n: int) -> int {
    choose|r: int| is_root(n, r)
}

/// Division of `a` by a positive `b`, rounded toward zero.
pub open spec fn trunc_div(a: int, b: int) -> int {
    if a >= 0 {
        a / b
    } else {
        -((-a) / b)
    }
}

/// The velocity of magnitude `speed` (up to rounding) pointing from `from`
/// to `to`; zero where the two coincide.
pub open spec fn toward(from: Vec2i, to: Vec2i, speed: int) -> Vec2i {
    let dx = to.x - from.x;
    let dy = to.y - from.y;
    let len = root(dx * dx + dy * dy);
    if len == 0 {
        Vec2i { x: 0, y: 0 }
    } else {
        Vec2i { x: trunc_div(dx * speed, len) as i64, y: trunc_div(dy * speed, len) as i64 }
    }
}

proof fn lemma_root_unique(n: int, r1: int, r2: int)
    requires
        is_root(n, r1),
        is_root(n, r2),
    ensures
        r1 == r2,
{
    if r1 < r2 {
        assert((r1 + 1) * (r1 + 1) <= r2 * r2) by (nonlinear_arith)
            requires
                0 <= r1 + 1 <= r2,
        ;
    } else if r2 < r1 {
        assert((r2 + 1) * (r2 + 1) <= r1 * r1) by (nonlinear_arith)
            requires
                0 <= r2 + 1 <= r1,
        ;
    }
}

/// Integer square root, by bisection.
fn isqrt(n: u128) -> (r: u64)
    requires
        n < 0x1_0000_0000_0000_0000_0,
    ensures
        is_root(n as int, r as int),
        r as int == root(n as int),
{
    let mut lo: u64 = 0;
    let mut hi: u64 = 0x4_0000_0000;
    assert(n < (hi as int) * (hi as int)) by (nonlinear_arith)
        requires
            hi == 0x4_0000_0000,
            n < 0x1_0000_0000_0000_0000_0,
    ;
    while hi - lo > 1
        invariant
            lo < hi <= 0x4_0000_0000,
            (lo as int) * (lo as int) <= n,
            n < (hi as int) * (hi as int),
        decreases hi - lo,
    {
        let mid: u64 = lo + (hi - lo) / 2;
        assert((mid as int) * (mid as int) <= 0x10_0000_0000_0000_0000) by (nonlinear_arith)
            requires
                0 <= mid <= 0x4_0000_0000,
        ;
        if (mid as u128) * (mid as u128) <= n {
            lo = mid;
        } else {
            hi = mid;
        }
    }
    proof {
        lemma_root_unique(n as int, lo as int, root(n as int));
    }
    lo
}

/// `trunc_div(dc * speed, len)`, whose magnitude stays within that of `speed`.
fn scale(dc: i64, speed: i64, len: u64) -> (r: i64)
    requires
        len > 0,
        -(len as int) <= dc <= len,
        -COORD_LIMIT <= speed <= COORD_LIMIT,
        len <= 0x4_0000_0000,
    ensures
        r == trunc_div(dc * speed, len as int),
        -COORD_LIMIT <= r <= COORD_LIMIT,
{
    assert(-0x8_0000_0000_0000_0000 <= dc * speed <= 0x8_0000_0000_0000_0000) by (nonlinear_arith)
        requires
            -0x4_0000_0000 <= dc <= 0x4_0000_0000,
            -0x8000_0000 <= speed <= 0x8000_0000,
    ;
    let a: i128 = (dc as i128) * (speed as i128);
    let ghost abs_dc: int = if dc >= 0 { dc as int } else { -dc };
    let ghost abs_speed: int = if speed >= 0 { speed as int } else { -speed };
    assert(abs_dc * abs_speed <= (len as int) * abs_speed) by (nonlinear_arith)
        requires
            0 <= abs_dc <= len,
            0 <= abs_speed,
    ;
    assert(a == dc * speed);
    assert(a >= 0 ==> a == abs_dc * abs_speed) by (nonlinear_arith)
        requires
            a == dc * speed,
            abs_dc == if dc >= 0 { dc as int } else { -dc },
            abs_speed == if speed >= 0 { speed as int } else { -speed },
    ;
    assert(a < 0 ==> -a == abs_dc * abs_speed) by (nonlinear_arith)
        requires
            a == dc * speed,
            abs_dc == if dc >= 0 { dc as int } else { -dc },
            abs_speed == if speed >= 0 { speed as int } else { -speed },
    ;
    proof {
        vstd::arithmetic::div_mod::lemma_div_is_ordered(
            abs_dc * abs_speed,
            (len as int) * abs_speed,
            len as int,
        );
        vstd::arithmetic::div_mod::lemma_div_multiples_vanish(abs_speed, len as int);
        vstd::arithmetic::mul::lemma_mul_is_commutative(len as int, abs_speed);
    }
    if a >= 0 {
        let q: u128 = (a as u128) / (len as u128);
        q as i64
    } else {
        let q: u128 = ((-a) as u128) / (len as u128);
        -(q as i64)
    }
}

/// The velocity of magnitude `speed` pointing from `from` to `to`.
pub fn velocity_toward(from: Vec2i, to: Vec2i, speed: i64) -> (r: Vec2i)
    requires
        from.in_range(),
        to.in_range(),
        -COORD_LIMIT <= speed <= COORD_LIMIT,
    ensures
        r == toward(from, to, speed as int),
        r.in_range(),
{
    let dx: i64 = to.x - from.x;
    let dy: i64 = to.y - from.y;
    assert(0 <= dx * dx <= 0x1_0000_0000_0000_0000 && 0 <= dy * dy <= 0x1_0000_0000_0000_0000)
        by (nonlinear_arith)
        requires
            -0x1_0000_0000 <= dx <= 0x1_0000_0000,
            -0x1_0000_0000 <= dy <= 0x1_0000_0000,
    ;
    let n: i128 = (dx as i128) * (dx as i128) + (dy as i128) * (dy as i128);
    let len = isqrt(n as u128);
    if len == 0 {
        return Vec2i { x: 0, y: 0 };
    }
    assert(-(len as int) <= dx <= len && -(len as int) <= dy <= len) by (nonlinear_arith)
        requires
            (len as int) * (len as int) <= n,
            n < (len + 1) * (len + 1),
            n == dx * dx + dy * dy,
            len >= 0,
    ;
    assert(len <= 0x4_0000_0000) by (nonlinear_arith)
        requires
            (len as int) * (len as int) <= n,
            n < 0x1_0000_0000_0000_0000_0,
            len >= 0,
    ;
    Vec2i { x: scale(dx, speed, len), y: scale(dy, speed, len) }
}

/// A patrol path: waypoints visited back and forth at a fixed speed.
pub struct Path {
    pub points: Vec<Vec2i>,
    pub speed: i64,
    /// Index of the waypoint currently aimed at.
    pub index: usize,
    /// Whether the index moves up after the current waypoint.
    pub forward: bool,
}

impl Path {
    /// Waypoints and speed within range, and the index on a waypoint whenever
    /// the path has two or more.
    pub open spec fn wf(&self) -> bool {
        &&& forall|i: int| 0 <= i < self.points@.len() ==> (#[trigger] self.points@[i]).in_range()
        &&& -COORD_LIMIT <= self.speed <= COORD_LIMIT
        &&& self.points@.len() >= 2 ==> self.index < self.points@.len()
    }

    /// A path that starts by aiming at its first waypoint, moving forward.
    pub fn new(points: Vec<Vec2i>, speed: i64) -> (r: Path)
        ensures
            r.points@ == points@,
            r.speed == speed,
            r.index == 0,
            r.forward,
    {
        Path { points, speed, index: 0, forward: true }
    }
}

/// Whether the waypoint aimed at has been reached, or passed: the desired
/// velocity turns against the current one.
pub open spec fn waypoint_passed(position: Vec2i, target: Vec2i, desired: Vec2i, velocity: Vec2i) -> bool {
    position == target || dot(desired, velocity) < 0
}

/// One tick of the patrol mover: the index, direction flag, position and
/// velocity afterwards.
pub open spec fn patrol_step(
    points: Seq<Vec2i>,
    speed: int,
    index: int,
    forward: bool,
    position: Vec2i,
    velocity: Vec2i,
) -> (int, bool, Vec2i, Vec2i) {
    if points.len() <= 1 {
        (index, forward, position, velocity)
    } else {
        let target = points[index];
        let desired = toward(position, target, speed);
        if waypoint_passed(position, target, desired, velocity) {
            let fwd = if index == 0 {
                true
            } else if index == points.len() - 1 {
                false
            } else {
                forward
            };
            let next = if fwd {
                index + 1
            } else {
                index - 1
            };
            (next, fwd, target, toward(target, points[next], speed))
        } else {
            (index, forward, position, desired)
        }
    }
}

/// Moves a platform one tick along its path: aims its velocity at the current
/// waypoint and, once that waypoint is reached or passed, snaps the position
/// onto it, turns around at either end, and aims at the next one.
pub fn move_platform(path: &mut Path, position: &mut Vec2i, velocity: &mut Vec2i)
    requires
        old(path).wf(),
        old(position).in_range(),
    ensures
        final(path).wf(),
        final(position).in_range(),
        final(path).points@ == old(path).points@,
        final(path).speed == old(path).speed,
        (final(path).index as int, final(path).forward, *final(position), *final(velocity))
            == patrol_step(
            old(path).points@,
            old(path).speed as int,
            old(path).index as int,
            old(path).forward,
            *old(position),
            *old(velocity),
        ),
{
    let n = path.points.len();
    if n <= 1 {
        return;
    }
    let target = path.points[path.index];
    let desired = velocity_toward(*position, target, path.speed);
    assert(-0x1_0000_0000_0000_0000_0000_0000 <= desired.x * velocity.x <= 0x1_0000_0000_0000_0000_0000_0000)
        by (nonlinear_arith)
        requires
            -0x8000_0000 <= desired.x <= 0x8000_0000,
            -0x8000_0000_0000_0000 <= velocity.x <= 0x8000_0000_0000_0000,
    ;
    assert(-0x1_0000_0000_0000_0000_0000_0000 <= desired.y * velocity.y <= 0x1_0000_0000_0000_0000_0000_0000)
        by (nonlinear_arith)
        requires
            -0x8000_0000 <= desired.y <= 0x8000_0000,
            -0x8000_0000_0000_0000 <= velocity.y <= 0x8000_0000_0000_0000,
    ;
    let d: i128 = (desired.x as i128) * (velocity.x as i128) + (desired.y as i128) * (
    velocity.y as i128);
    if *position == target || d < 0 {
        if path.index == 0 {
            path.forward = true;
        } else if path.index == n - 1 {
            path.forward = false;
        }
        *position = target;
        if path.forward {
            path.index = path.index + 1;
        } else {
            path.index = path.index - 1;
        }
        *velocity = velocity_toward(target, path.points[path.index], path.speed);
    } else {
        *velocity = desired;
    }
}

/// A platform body that patrols a path.
pub struct PatrolPlatform {
    pub path: Path,
    pub position: Vec2i,
    pub velocity: Vec2i,
}

impl PatrolPlatform {
    pub open spec fn wf(&self) -> bool {
        self.path.wf() && self.position.in_range()
    }
}

/// Moves every patrolling platform one tick, each as `move_platform` does.
pub fn move_platforms_system(platforms: &mut Vec<PatrolPlatform>)
    requires
        forall|i: int| 0 <= i < old(platforms)@.len() ==> (#[trigger] old(platforms)@[i]).wf(),
    ensures
        final(platforms)@.len() == old(platforms)@.len(),
        forall|i: int|
            0 <= i < final(platforms)@.len() ==> {
                let p = #[trigger] final(platforms)@[i];
                let q = old(platforms)@[i];
                &&& p.wf()
                &&& p.path.points@ == q.path.points@
                &&& p.path.speed == q.path.speed
                &&& (p.path.index as int, p.path.forward, p.position, p.velocity) == patrol_step(
                    q.path.points@,
                    q.path.speed as int,
                    q.path.index as int,
                    q.path.forward,
                    q.position,
                    q.velocity,
                )
            },
{
    let ghost start = platforms@;
    let mut i: usize = 0;
    while i < platforms.len()
        invariant
            platforms@.len() == start.len(),
            0 <= i <= start.len(),
            forall|k: int| i <= k < start.len() ==> platforms@[k] == start[k],
            forall|k: int| 0 <= k < start.len() ==> (#[trigger] start[k]).wf(),
            forall|k: int|
                0 <= k < i ==> {
                    let p = #[trigger] platforms@[k];
                    let q = start[k];
                    &&& p.wf()
                    &&& p.path.points@ == q.path.points@
                    &&& p.path.speed == q.path.speed
                    &&& (p.path.index as int, p.path.forward, p.position, p.velocity)
                        == patrol_step(
                        q.path.points@,
                        q.path.speed as int,
                        q.path.index as int,
                        q.path.forward,
                        q.position,
                        q.velocity,
                    )
                },
        decreases start.len() - i,
    {
        let mut p = platforms.remove(i);
        assert(p == start[i as int]);
        assert(start[i as int].wf());
        move_platform(&mut p.path, &mut p.position, &mut p.velocity);
        platforms.insert(i, p);
        i = i + 1;
    }
}

/// The patrol mover keeps the index on a waypoint, and turns around only at
/// the two ends of the path.
pub proof fn lemma_turns_only_at_ends(
    points: Seq<Vec2i>,
    speed: int,
    index: int,
    forward: bool,
    position: Vec2i,
    velocity: Vec2i,
)
    requires
        points.len() >= 2,
        0 <= index < points.len(),
    ensures
        ({
            let r = patrol_step(points, speed, index, forward, position, velocity);
            &&& 0 <= r.0 < points.len()
            &&& r.1 != forward ==> index == 0 || index == points.len() - 1
        }),
{
}

} // verus!
