use vstd::prelude::*;
use vstd::string::StrSliceExecFns;
use vstd::string::StringExecFns;

verus! {

/// Collision layers of the game.
#[derive(Clone, Copy, Debug, PartialEq, Eq, Structural)]
pub enum GamePhysicsLayer {
    Ground,
    Enemy,
    Player,
    Collectible,
    Dead,
}

impl GamePhysicsLayer {
    pub open spec fn mask_spec(self) -> u32 {
        match self {
            GamePhysicsLayer::Ground => 1,
            GamePhysicsLayer::Enemy => 2,
            GamePhysicsLayer::Player => 4,
            GamePhysicsLayer::Collectible => 8,
            GamePhysicsLayer::Dead => 16,
        }
    }

    /// The layer mask holding this layer alone.
    pub fn mask(self) -> (r: u32)
        ensures
            r == self.mask_spec(),
    {
        match self {
            GamePhysicsLayer::Ground => 1,
            GamePhysicsLayer::Enemy => 2,
            GamePhysicsLayer::Player => 4,
            GamePhysicsLayer::Collectible => 8,
            GamePhysicsLayer::Dead => 16,
        }
    }
}

/// A player body as the kill zones see it.
#[derive(Clone, Copy, Debug, PartialEq, Eq, Structural)]
pub struct PlayerBody {
    pub entity: u64,
    /// Layer mask of the layers the body belongs to.
    pub memberships: u32,
    pub is_dead: bool,
}

/// Whether some kill zone overlaps `e`; `zones[z]` lists what zone `z` overlaps.
pub open spec fn overlapping(zones: Seq<Vec<u64>>, e: u64) -> bool {
    exists|z: int, j: int|
        0 <= z < zones.len() && 0 <= j < zones[z]@.len() && #[trigger] zones[z]@[j] == e
}

/// Whether a player dies this tick: alive and overlapping a kill zone.
pub open spec fn killed(p: PlayerBody, zones: Seq<Vec<u64>>) -> bool {
    !p.is_dead && overlapping(zones, p.entity)
}

/// The player after the kill zones have acted.
pub open spec fn after_kill(p: PlayerBody, zones: Seq<Vec<u64>>) -> PlayerBody {
    if killed(p, zones) {
        PlayerBody { memberships: GamePhysicsLayer::Dead.mask_spec(), is_dead: true, ..p }
    } else {
        p
    }
}

/// The players that die, in order: one sound cue each.
pub open spec fn deaths(ps: Seq<PlayerBody>, zones: Seq<Vec<u64>>) -> Seq<u64>
    decreases ps.len(),
{
    if ps.len() == 0 {
        Seq::empty()
    } else {
        let before = deaths(ps.drop_last(), zones);
        if killed(ps.last(), zones) {
            before.push(ps.last().entity)
        } else {
            before
        }
    }
}

fn overlaps_any(zones: &Vec<Vec<u64>>, e: u64) -> (r: bool)
    ensures
        r == overlapping(zones@, e),
{
    let mut z: usize = 0;
    while z < zones.len()
        invariant
            z <= zones@.len(),
            forall|a: int, j: int|
                0 <= a < z && 0 <= j < zones@[a]@.len() ==> #[trigger] zones@[a]@[j] != e,
        decreases zones@.len() - z,
    {
        let zone = &zones[z];
        let mut j: usize = 0;
        while j < zone.len()
            invariant
                z < zones@.len(),
                zone == zones@[z as int],
                j <= zone@.len(),
                forall|a: int, k: int|
                    0 <= a < z && 0 <= k < zones@[a]@.len() ==> #[trigger] zones@[a]@[k] != e,
                forall|k: int| 0 <= k < j ==> zone@[k] != e,
            decreases zone@.len() - j,
        {
            if zone[j] == e {
                return true;
            }
            j = j + 1;
        }
        z = z + 1;
    }
    false
}

/// Moves every living player that overlaps a kill zone onto the dead layer
/// alone and marks it dead. Returns the players that died, one sound cue each.
pub fn kill_zone_system(zones: &Vec<Vec<u64>>, players: &mut Vec<PlayerBody>) -> (cues: Vec<u64>)
    ensures
        final(players)@ == old(players)@.map_values(|p: PlayerBody| after_kill(p, zones@)),
        cues@ == deaths(old(players)@, zones@),
{
    let ghost start = players@;
    let mut cues: Vec<u64> = Vec::new();
    let mut i: usize = 0;
    while i < players.len()
        invariant
            players@.len() == start.len(),
            0 <= i <= start.len(),
            forall|k: int| i <= k < start.len() ==> players@[k] == start[k],
            forall|k: int| 0 <= k < i ==> #[trigger] players@[k] == after_kill(start[k], zones@),
            cues@ == deaths(start.subrange(0, i as int), zones@),
        decreases start.len() - i,
    {
        let p = players[i];
        assert(start.subrange(0, i + 1).drop_last() =~= start.subrange(0, i as int));
        if !p.is_dead && overlaps_any(zones, p.entity) {
            players.set(
                i,
                PlayerBody { memberships: GamePhysicsLayer::Dead.mask(), is_dead: true, ..p },
            );
            cues.push(p.entity);
        }
        i = i + 1;
    }
    assert(start.subrange(0, start.len() as int) =~= start);
    assert(players@ =~= start.map_values(|p: PlayerBody| after_kill(p, zones@)));
    cues
}

/// A player that the kill zones have acted on is left alone by them: running
/// them again changes nothing and gives no further sound cue.
pub proof fn lemma_kill_zone_once(ps: Seq<PlayerBody>, zones: Seq<Vec<u64>>)
    ensures
        ({
            let after = ps.map_values(|p: PlayerBody| after_kill(p, zones));
            &&& after.map_values(|p: PlayerBody| after_kill(p, zones)) == after
            &&& deaths(after, zones) == Seq::<u64>::empty()
        }),
    decreases ps.len(),
{
    let after = ps.map_values(|p: PlayerBody| after_kill(p, zones));
    assert(after.map_values(|p: PlayerBody| after_kill(p, zones)) =~= after);
    if ps.len() > 0 {
        lemma_kill_zone_once(ps.drop_last(), zones);
        assert(after.drop_last() =~= ps.drop_last().map_values(
            |p: PlayerBody| after_kill(p, zones),
        ));
    }
}

/// The character of a decimal digit.
pub open spec fn digit_char(d: nat) -> char {
    seq!['0', '1', '2', '3', '4', '5', '6', '7', '8', '9'][d as int]
}

/// The decimal numeral of `n`, without sign or leading zeros.
pub open spec fn decimal(n: nat) -> Seq<char>
    decreases n,
{
    if n < 10 {
        seq![digit_char(n)]
    } else {
        decimal(n / 10).push(digit_char(n % 10))
    }
}

/// Relies on `ToString::to_string` for `u64` (its `Display`): the decimal
/// numeral of the value.
#[verifier::external_body]
fn decimal_text(n: u64) -> (r: String)
    ensures
        r@ == decimal(n as nat),
{
    n.to_string()
}

/// What the score display shows after `total` coins.
pub open spec fn score_text(total: nat) -> Seq<char> {
    "You collected\n"@ + decimal(total) + " coins!"@
}

/// What the score display shows before any coin.
pub open spec fn initial_score_text_spec() -> Seq<char> {
    "You collected\n0 coins :("@
}

/// The text of the score display after `total` coins.
pub fn score_display_text(total: u64) -> (r: String)
    ensures
        r@ == score_text(total as nat),
{
    let mut s = String::from_str("You collected\n");
    let digits = decimal_text(total);
    s.append(digits.as_str());
    s.append(" coins!");
    s
}

/// The text of the score display before any coin.
pub fn setup_score_display_system() -> (r: String)
    ensures
        r@ == initial_score_text_spec(),
{
    String::from_str("You collected\n0 coins :(")
}

/// A coin was picked up; `total_collected` counts all coins so far.
#[derive(Clone, Copy, Debug, PartialEq, Eq, Structural)]
pub struct CoinCollected {
    pub total_collected: u64,
}

/// Rewrites the score display for each event of this tick: the last event's
/// total is what remains shown. Without events the text is left alone.
pub fn update_score_display_system(text: &mut String, events: &Vec<CoinCollected>)
    ensures
        events@.len() == 0 ==> final(text)@ == old(text)@,
        events@.len() > 0 ==> final(text)@ == score_text(events@.last().total_collected as nat),
{
    let mut i: usize = 0;
    while i < events.len()
        invariant
            i <= events@.len(),
            i == 0 ==> text@ == old(text)@,
            i > 0 ==> text@ == score_text(events@[i - 1].total_collected as nat),
        decreases events@.len() - i,
    {
        *text = score_display_text(events[i].total_collected);
        i = i + 1;
    }
}

/// The number of pickup sound cues for this tick's events: one per event.
pub fn play_pickup_sound_system(events: &Vec<CoinCollected>) -> (cues: usize)
    ensures
        cues == events@.len(),
{
    let mut cues: usize = 0;
    let mut i: usize = 0;
    while i < events.len()
        invariant
            i <= events@.len(),
            cues == i,
        decreases events@.len() - i,
    {
        cues = cues + 1;
        i = i + 1;
    }
    cues
}

/// The three kinds of bridge tile, each with its own collider.
#[derive(Clone, Copy, Debug, PartialEq, Eq, Structural)]
pub enum BridgePiece {
    Start,
    Middle,
    End,
}

/// Whether one of `tags` reads `t`.
pub open spec fn has_tag(tags: Seq<String>, t: Seq<char>) -> bool {
    exists|i: int| 0 <= i < tags.len() && (#[trigger] tags[i])@ == t
}

/// The piece a bridge tile's tags name: start before middle before end; none
/// when no tag names a piece.
pub open spec fn bridge_piece_spec(tags: Seq<String>) -> Option<BridgePiece> {
    if has_tag(tags, "StartBridge"@) {
        Some(BridgePiece::Start)
    } else if has_tag(tags, "MiddleBridge"@) {
        Some(BridgePiece::Middle)
    } else if has_tag(tags, "EndBridge"@) {
        Some(BridgePiece::End)
    } else {
        None
    }
}

fn contains_tag(tags: &Vec<String>, t: &str) -> (r: bool)
    ensures
        r == has_tag(tags@, t@),
{
    let target = String::from_str(t);
    let mut i: usize = 0;
    while i < tags.len()
        invariant
            i <= tags@.len(),
            target@ == t@,
            forall|k: int| 0 <= k < i ==> (#[trigger] tags@[k])@ != t@,
        decreases tags@.len() - i,
    {
        if tags[i] == target {
            return true;
        }
        i = i + 1;
    }
    false
}

/// Which bridge piece a tile's tags name.
pub fn bridge_piece(tags: &Vec<String>) -> (r: Option<BridgePiece>)
    ensures
        r == bridge_piece_spec(tags@),
{
    if contains_tag(tags, "StartBridge") {
        Some(BridgePiece::Start)
    } else if contains_tag(tags, "MiddleBridge") {
        Some(BridgePiece::Middle)
    } else if contains_tag(tags, "EndBridge") {
        Some(BridgePiece::End)
    } else {
        None
    }
}

} // verus!
