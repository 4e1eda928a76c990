//! The encounter engine: the live units, their walk toward the anchor, the
//! area freeze triggered by the player, and the encounter's lifecycle.

use crate::config::Config;
use crate::player::{Player, FREEZE_COOLDOWN};
use crate::spawn_point::{generate_spawn_points, is_valid_sample, SpawnPoint};
use crate::spell::Spell;
use vstd::prelude::*;

verus! {

/// The anchor's reference tile, toward which every unit walks.
pub const ANCHOR_X: i64 = 1;

pub const ANCHOR_Z: i64 = 13;

/// Width of the arena, in tiles.
pub const MAP_WIDTH: i64 = 24;

/// The capture zone around the anchor, in tiles. A unit whose next step
/// would end inside it leaks instead of moving. In the world the zone is the
/// box `[2, 8] x [8, MAP_WIDTH - 9]`; the tiles whose centres lie in it are
/// these.
pub const ZONE_MIN_X: i64 = 2;

pub const ZONE_MAX_X: i64 = 7;

pub const ZONE_MIN_Z: i64 = 8;

pub const ZONE_MAX_Z: i64 = MAP_WIDTH - 10;

/// Delay, in milliseconds, between entering the encounter and the units
/// appearing.
pub const SPAWN_DELAY_MS: u64 = 3000;

/// Length, in milliseconds, of the fade shown on a frozen unit.
pub const FADE_MS: u64 = 2400;

/// Where a unit stands in the freeze pipeline.
#[derive(Clone, Copy, Debug, PartialEq, Eq, Structural)]
pub enum FrozenState {
    NotFrozen,
    ShouldFreeze,
    Frozen,
}

/// A live hostile unit. `slot` is the index of the spawn point it came from,
/// and names it for the rest of the encounter.
#[derive(Clone, Copy, Debug, PartialEq, Eq, Structural)]
pub struct Matomenos {
    pub slot: usize,
    pub x: i64,
    pub z: i64,
    pub frozen: FrozenState,
    pub fade_elapsed_ms: u64,
}

/// The encounter's lifecycle phase.
#[derive(Clone, Copy, Debug, PartialEq, Eq, Structural)]
pub enum ActionState {
    NotSpawned,
    Spawned,
    Moving,
}

/// The encounter: its phase, the spawn points chosen for this run, the
/// elapsed part of the spawn delay, the live units, the leak count, and
/// whether the next reset keeps the spawn points.
pub struct CurrentSpawn {
    pub spawn_delay_ms: u64,
    pub spawns: Vec<SpawnPoint>,
    pub state: ActionState,
    pub nylos: Vec<Matomenos>,
    pub leaks: usize,
    pub rerun: bool,
}

/// A click on the unit whose slot is the field.
#[derive(Clone, Copy, Debug, PartialEq, Eq, Structural)]
pub struct NylocasClicked(pub usize);

/// One step from `c` toward `t`.
pub open spec fn step_toward(c: int, t: int) -> int {
    if c < t {
        c + 1
    } else if c > t {
        c - 1
    } else {
        c
    }
}

pub open spec fn next_x(u: Matomenos) -> int {
    step_toward(u.x as int, ANCHOR_X as int)
}

pub open spec fn next_z(u: Matomenos) -> int {
    step_toward(u.z as int, ANCHOR_Z as int)
}

pub open spec fn in_capture_zone(x: int, z: int) -> bool {
    ZONE_MIN_X <= x <= ZONE_MAX_X && ZONE_MIN_Z <= z <= ZONE_MAX_Z
}

/// A unit leaks on this tick: it is free to move and its step ends in the
/// capture zone.
pub open spec fn leaks_now(u: Matomenos) -> bool {
    u.frozen == FrozenState::NotFrozen && in_capture_zone(next_x(u), next_z(u))
}

/// A unit after a movement tick that it survives: a free unit steps, a unit
/// about to freeze becomes frozen in place, a frozen one stays.
pub open spec fn advanced(u: Matomenos) -> Matomenos {
    match u.frozen {
        FrozenState::NotFrozen => Matomenos {
            slot: u.slot,
            x: next_x(u) as i64,
            z: next_z(u) as i64,
            frozen: u.frozen,
            fade_elapsed_ms: u.fade_elapsed_ms,
        },
        FrozenState::ShouldFreeze => Matomenos {
            slot: u.slot,
            x: u.x,
            z: u.z,
            frozen: FrozenState::Frozen,
            fade_elapsed_ms: u.fade_elapsed_ms,
        },
        FrozenState::Frozen => u,
    }
}

/// The units left after a movement tick, in their order.
pub open spec fn after_move(s: Seq<Matomenos>) -> Seq<Matomenos>
    decreases s.len(),
{
    if s.len() == 0 {
        seq![]
    } else if leaks_now(s.last()) {
        after_move(s.drop_last())
    } else {
        after_move(s.drop_last()).push(advanced(s.last()))
    }
}

/// How many units leak on a movement tick.
pub open spec fn leak_count(s: Seq<Matomenos>) -> nat
    decreases s.len(),
{
    if s.len() == 0 {
        0
    } else if leaks_now(s.last()) {
        leak_count(s.drop_last()) + 1
    } else {
        leak_count(s.drop_last())
    }
}

/// The units that appear on the given spawn points, slot `i` on point `i`.
pub open spec fn units_at(points: Seq<SpawnPoint>) -> Seq<Matomenos> {
    Seq::new(
        points.len(),
        |i: int|
            Matomenos {
                slot: i as usize,
                x: points[i].x,
                z: points[i].y,
                frozen: FrozenState::NotFrozen,
                fade_elapsed_ms: 0,
            },
    )
}

pub open spec fn slots_increasing(s: Seq<Matomenos>) -> bool {
    forall|a: int, b: int| 0 <= a < b < s.len() ==> #[trigger] s[a].slot < #[trigger] s[b].slot
}

/// The spawn delay's elapsed time after `delta` more milliseconds.
pub open spec fn delay_after(elapsed: u64, delta: u64) -> u64 {
    if elapsed + delta >= SPAWN_DELAY_MS {
        SPAWN_DELAY_MS
    } else {
        (elapsed + delta) as u64
    }
}

/// A frozen unit's fade after `delta` more milliseconds; others are untouched.
pub open spec fn faded(u: Matomenos, delta: u64) -> Matomenos {
    if u.frozen == FrozenState::Frozen {
        Matomenos {
            slot: u.slot,
            x: u.x,
            z: u.z,
            frozen: u.frozen,
            fade_elapsed_ms: if u.fade_elapsed_ms + delta >= FADE_MS {
                FADE_MS
            } else {
                (u.fade_elapsed_ms + delta) as u64
            },
        }
    } else {
        u
    }
}

/// What is left of the frozen fade, for display: the whole of it while the
/// freeze is pending, the remainder while a frozen unit fades, else nothing.
pub open spec fn fade_left_spec(u: Matomenos) -> Option<u64> {
    match u.frozen {
        FrozenState::ShouldFreeze => Some(FADE_MS),
        FrozenState::Frozen => if u.fade_elapsed_ms < FADE_MS {
            Some((FADE_MS - u.fade_elapsed_ms) as u64)
        } else {
            None
        },
        FrozenState::NotFrozen => None,
    }
}

/// The spawn points kept by a reset.
pub open spec fn spawns_after_reset(spawns: Seq<SpawnPoint>, rerun: bool) -> Seq<SpawnPoint> {
    if rerun {
        spawns
    } else {
        seq![]
    }
}

impl Matomenos {
    /// See `fade_left_spec`.
    pub fn fade_left_ms(&self) -> (r: Option<u64>)
        ensures
            r == fade_left_spec(*self),
    {
        match self.frozen {
            FrozenState::ShouldFreeze => Some(FADE_MS),
            FrozenState::Frozen => if self.fade_elapsed_ms < FADE_MS {
                Some(FADE_MS - self.fade_elapsed_ms)
            } else {
                None
            },
            FrozenState::NotFrozen => None,
        }
    }
}

impl Default for CurrentSpawn {
    /// An encounter that has not started, as `new`.
    fn default() -> (r: CurrentSpawn)
        ensures
            r.wf(),
            r.state == ActionState::NotSpawned,
            r.spawns@.len() == 0,
            r.nylos@.len() == 0,
            r.spawn_delay_ms == 0,
            r.leaks == 0,
            !r.rerun,
    {
        CurrentSpawn::new()
    }
}

fn step_toward_exec(c: i64, t: i64) -> (r: i64)
    ensures
        r == step_toward(c as int, t as int),
{
    if c < t {
        c + 1
    } else if c > t {
        c - 1
    } else {
        c
    }
}

/// Builds the units for the given spawn points.
fn spawn_units(points: &Vec<SpawnPoint>) -> (r: Vec<Matomenos>)
    ensures
        r@ == units_at(points@),
{
    let mut r: Vec<Matomenos> = Vec::new();
    let mut i: usize = 0;
    while i < points.len()
        invariant
            i <= points.len(),
            r@ == units_at(points@).take(i as int),
        decreases points.len() - i,
    {
        let p = points[i];
        r.push(
            Matomenos {
                slot: i,
                x: p.x,
                z: p.y,
                frozen: FrozenState::NotFrozen,
                fade_elapsed_ms: 0,
            },
        );
        i = i + 1;
        assert(r@ =~= units_at(points@).take(i as int));
    }
    assert(r@ =~= units_at(points@));
    r
}

impl CurrentSpawn {
    /// The encounter's invariant: before the units appear there are none and
    /// nothing has leaked; afterwards every spawned unit is either live or
    /// counted as a leak. Live units are kept in increasing slot order, and
    /// neither a spawn point nor a unit lies in the capture zone.
    pub open spec fn wf(&self) -> bool {
        &&& slots_increasing(self.nylos@)
        &&& forall|j: int|
            0 <= j < self.spawns@.len() ==> !in_capture_zone(
                (#[trigger] self.spawns@[j]).x as int,
                self.spawns@[j].y as int,
            )
        &&& forall|j: int|
            0 <= j < self.nylos@.len() ==> !in_capture_zone(
                (#[trigger] self.nylos@[j]).x as int,
                self.nylos@[j].z as int,
            )
        &&& self.spawn_delay_ms <= SPAWN_DELAY_MS
        &&& self.state == ActionState::NotSpawned ==> self.nylos@.len() == 0 && self.leaks == 0
        &&& self.state != ActionState::NotSpawned ==> self.leaks + self.nylos@.len()
            == self.spawns@.len()
    }

    /// An encounter that has not started.
    pub fn new() -> (r: CurrentSpawn)
        ensures
            r.wf(),
            r.state == ActionState::NotSpawned,
            r.spawns@.len() == 0,
            r.nylos@.len() == 0,
            r.spawn_delay_ms == 0,
            r.leaks == 0,
            !r.rerun,
    {
        CurrentSpawn {
            spawn_delay_ms: 0,
            spawns: Vec::new(),
            state: ActionState::NotSpawned,
            nylos: Vec::new(),
            leaks: 0,
            rerun: false,
        }
    }
}

impl CurrentSpawn {
    /// Runs once per fixed tick. Right after the units appear the phase turns
    /// to moving without anyone moving; while moving, every unit that is not
    /// frozen either steps toward the anchor or, when that step would end in
    /// the capture zone, is removed and counted as a leak. A unit about to
    /// freeze becomes frozen in place.
    pub fn move_nylos(&mut self)
        requires
            old(self).wf(),
        ensures
            final(self).wf(),
            final(self).spawns@ == old(self).spawns@,
            final(self).spawn_delay_ms == old(self).spawn_delay_ms,
            final(self).rerun == old(self).rerun,
            old(self).state == ActionState::NotSpawned ==> final(self).state
                == ActionState::NotSpawned && final(self).nylos@ == old(self).nylos@
                && final(self).leaks == old(self).leaks,
            old(self).state == ActionState::Spawned ==> final(self).state == ActionState::Moving
                && final(self).nylos@ == old(self).nylos@ && final(self).leaks == old(self).leaks,
            old(self).state == ActionState::Moving ==> final(self).state == ActionState::Moving
                && final(self).nylos@ == after_move(old(self).nylos@) && final(self).leaks
                == old(self).leaks + leak_count(old(self).nylos@),
    {
        match self.state {
            ActionState::NotSpawned => {
                return;
            },
            ActionState::Spawned => {
                self.state = ActionState::Moving;
                return;
            },
            ActionState::Moving => {},
        }
        let ghost s = self.nylos@;
        let n = self.nylos.len();
        let mut kept: Vec<Matomenos> = Vec::new();
        let mut leaked: usize = 0;
        let mut i: usize = 0;
        while i < n
            invariant
                n == s.len(),
                self.nylos@ == s,
                self.leaks + n == self.spawns@.len(),
                i <= n,
                slots_increasing(s),
                kept@ == after_move(s.take(i as int)),
                leaked == leak_count(s.take(i as int)),
                leaked + kept.len() == i,
                slots_increasing(kept@),
                forall|j: int| 0 <= j < n ==> !in_capture_zone((#[trigger] s[j]).x as int, s[j].z as int),
                forall|j: int|
                    0 <= j < kept.len() ==> !in_capture_zone(
                        (#[trigger] kept@[j]).x as int,
                        kept@[j].z as int,
                    ),
                forall|j: int, m: int|
                    0 <= j < kept.len() && i <= m < n ==> #[trigger] kept@[j].slot
                        < #[trigger] s[m].slot,
            decreases n - i,
        {
            let u = self.nylos[i];
            proof {
                assert(s.take(i + 1).drop_last() =~= s.take(i as int));
                assert(s.take(i + 1).last() == u);
            }
            match u.frozen {
                FrozenState::Frozen => {
                    kept.push(u);
                },
                FrozenState::ShouldFreeze => {
                    kept.push(
                        Matomenos {
                            slot: u.slot,
                            x: u.x,
                            z: u.z,
                            frozen: FrozenState::Frozen,
                            fade_elapsed_ms: u.fade_elapsed_ms,
                        },
                    );
                },
                FrozenState::NotFrozen => {
                    let x = step_toward_exec(u.x, ANCHOR_X);
                    let z = step_toward_exec(u.z, ANCHOR_Z);
                    if ZONE_MIN_X <= x && x <= ZONE_MAX_X && ZONE_MIN_Z <= z && z <= ZONE_MAX_Z {
                        leaked = leaked + 1;
                    } else {
                        kept.push(
                            Matomenos {
                                slot: u.slot,
                                x: x,
                                z: z,
                                frozen: u.frozen,
                                fade_elapsed_ms: u.fade_elapsed_ms,
                            },
                        );
                    }
                },
            }
            i = i + 1;
        }
        proof {
            assert(s.take(n as int) =~= s);
        }
        let spawned = self.spawns.len();
        assert(self.leaks + leaked <= spawned);
        self.nylos = kept;
        self.leaks = self.leaks + leaked;
    }
}

impl CurrentSpawn {
    /// Runs every frame, `delta_ms` after the previous one. Before the units
    /// appear it advances the spawn delay; when the delay is over, the units
    /// appear on the stored spawn points if there are any (a rerun), and
    /// otherwise on two freshly sampled points per player, which are stored.
    pub fn spawn_nylos(&mut self, delta_ms: u64, config: &Config)
        requires
            old(self).wf(),
            config.wf(),
        ensures
            final(self).wf(),
            final(self).leaks == old(self).leaks,
            final(self).rerun == old(self).rerun,
            old(self).state != ActionState::NotSpawned ==> final(self).state == old(self).state
                && final(self).spawn_delay_ms == old(self).spawn_delay_ms
                && final(self).spawns@ == old(self).spawns@ && final(self).nylos@
                == old(self).nylos@,
            old(self).state == ActionState::NotSpawned ==> final(self).spawn_delay_ms
                == delay_after(old(self).spawn_delay_ms, delta_ms),
            old(self).state == ActionState::NotSpawned && final(self).spawn_delay_ms
                < SPAWN_DELAY_MS ==> final(self).state == ActionState::NotSpawned
                && final(self).spawns@ == old(self).spawns@ && final(self).nylos@
                == old(self).nylos@,
            old(self).state == ActionState::NotSpawned && final(self).spawn_delay_ms
                == SPAWN_DELAY_MS ==> final(self).state == ActionState::Spawned
                && final(self).nylos@ == units_at(final(self).spawns@),
            old(self).state == ActionState::NotSpawned && final(self).spawn_delay_ms
                == SPAWN_DELAY_MS && old(self).spawns@.len() > 0 ==> final(self).spawns@
                == old(self).spawns@,
            old(self).state == ActionState::NotSpawned && final(self).spawn_delay_ms
                == SPAWN_DELAY_MS && old(self).spawns@.len() == 0 ==> is_valid_sample(
                2 * config.players,
                final(self).spawns@,
            ),
    {
        match self.state {
            ActionState::Spawned | ActionState::Moving => {
                return;
            },
            ActionState::NotSpawned => {},
        }
        if delta_ms >= SPAWN_DELAY_MS - self.spawn_delay_ms {
            self.spawn_delay_ms = SPAWN_DELAY_MS;
        } else {
            self.spawn_delay_ms = self.spawn_delay_ms + delta_ms;
        }
        if self.spawn_delay_ms < SPAWN_DELAY_MS {
            return;
        }
        if self.spawns.len() == 0 {
            self.spawns = generate_spawn_points(config.spawn_count());
        }
        self.nylos = spawn_units(&self.spawns);
        self.state = ActionState::Spawned;
    }

    /// Runs every frame: the fade of every frozen unit advances by `delta_ms`,
    /// up to its full length.
    pub fn draw_freeze(&mut self, delta_ms: u64)
        requires
            old(self).wf(),
        ensures
            final(self).wf(),
            final(self).nylos@ == old(self).nylos@.map_values(|u: Matomenos| faded(u, delta_ms)),
            final(self).state == old(self).state,
            final(self).spawns@ == old(self).spawns@,
            final(self).spawn_delay_ms == old(self).spawn_delay_ms,
            final(self).leaks == old(self).leaks,
            final(self).rerun == old(self).rerun,
    {
        let ghost s = self.nylos@;
        let n = self.nylos.len();
        let mut i: usize = 0;
        while i < n
            invariant
                n == s.len(),
                self.nylos@.len() == n,
                i <= n,
                forall|j: int| 0 <= j < i ==> #[trigger] self.nylos@[j] == faded(s[j], delta_ms),
                forall|j: int| i <= j < n ==> #[trigger] self.nylos@[j] == s[j],
                self.state == old(self).state,
                self.spawns@ == old(self).spawns@,
                self.spawn_delay_ms == old(self).spawn_delay_ms,
                self.leaks == old(self).leaks,
                self.rerun == old(self).rerun,
            decreases n - i,
        {
            let u = self.nylos[i];
            if u.frozen == FrozenState::Frozen {
                let elapsed = if u.fade_elapsed_ms >= FADE_MS || delta_ms >= FADE_MS
                    - u.fade_elapsed_ms {
                    FADE_MS
                } else {
                    u.fade_elapsed_ms + delta_ms
                };
                self.nylos.set(
                    i,
                    Matomenos {
                        slot: u.slot,
                        x: u.x,
                        z: u.z,
                        frozen: u.frozen,
                        fade_elapsed_ms: elapsed,
                    },
                );
            }
            i = i + 1;
        }
        assert(self.nylos@ =~= s.map_values(|u: Matomenos| faded(u, delta_ms)));
        assert forall|a: int, b: int| 0 <= a < b < self.nylos@.len() implies #[trigger] self.nylos@[a].slot
            < #[trigger] self.nylos@[b].slot by {
            assert(self.nylos@[a].slot == s[a].slot);
            assert(self.nylos@[b].slot == s[b].slot);
        }
    }

    /// Leaves the encounter: every unit is removed, the phase returns to not
    /// spawned, the delay and the leak count restart from zero, and the spawn
    /// points are kept only when a rerun was asked for. The rerun request is
    /// cleared.
    pub fn reset(&mut self)
        requires
            old(self).wf(),
        ensures
            final(self).wf(),
            final(self).state == ActionState::NotSpawned,
            final(self).nylos@.len() == 0,
            final(self).spawn_delay_ms == 0,
            final(self).leaks == 0,
            !final(self).rerun,
            final(self).spawns@ == spawns_after_reset(old(self).spawns@, old(self).rerun),
    {
        self.nylos = Vec::new();
        self.state = ActionState::NotSpawned;
        self.spawn_delay_ms = 0;
        if !self.rerun {
            self.spawns = Vec::new();
        }
        self.leaks = 0;
        self.rerun = false;
    }
}

/// `u` lies in the 3x3 block of tiles centred on `(tx, tz)`.
pub open spec fn near(u: Matomenos, tx: i64, tz: i64) -> bool {
    tx - 1 <= u.x <= tx + 1 && tz - 1 <= u.z <= tz + 1
}

/// `u` is caught by an area freeze centred on `(tx, tz)`.
pub open spec fn freezes(u: Matomenos, tx: i64, tz: i64) -> bool {
    u.frozen == FrozenState::NotFrozen && near(u, tx, tz)
}

pub open spec fn frozen_one(u: Matomenos, tx: i64, tz: i64) -> Matomenos {
    if freezes(u, tx, tz) {
        Matomenos {
            slot: u.slot,
            x: u.x,
            z: u.z,
            frozen: FrozenState::ShouldFreeze,
            fade_elapsed_ms: u.fade_elapsed_ms,
        }
    } else {
        u
    }
}

/// The units after an area freeze centred on `(tx, tz)`.
pub open spec fn frozen_around(s: Seq<Matomenos>, tx: i64, tz: i64) -> Seq<Matomenos> {
    s.map_values(|u: Matomenos| frozen_one(u, tx, tz))
}

pub open spec fn has_unit(s: Seq<Matomenos>, id: usize) -> bool {
    exists|j: int| 0 <= j < s.len() && #[trigger] s[j].slot == id
}

/// The unit named `id`, where there is one.
pub open spec fn unit_of(s: Seq<Matomenos>, id: usize) -> Matomenos {
    s[choose|j: int| 0 <= j < s.len() && #[trigger] s[j].slot == id]
}

/// The units, the player's cooldown, and whether the spell is armed.
pub type Board = (Seq<Matomenos>, u32, bool);

/// A click on unit `id` casts the area freeze: the player is off cooldown,
/// the spell is armed, and the unit is alive.
pub open spec fn click_takes_effect(b: Board, id: usize) -> bool {
    &&& b.1 == 0
    &&& b.2
    &&& has_unit(b.0, id)
}

/// The board after one click on unit `id`: when the click takes effect, every
/// free unit around the clicked one is marked to freeze, the cooldown starts
/// over and the spell is disarmed, even where no unit around it was free;
/// otherwise nothing changes.
pub open spec fn click(b: Board, id: usize) -> Board {
    if click_takes_effect(b, id) {
        (frozen_around(b.0, unit_of(b.0, id).x, unit_of(b.0, id).z), FREEZE_COOLDOWN, false)
    } else {
        b
    }
}

/// The board after a frame's clicks, taken in order.
pub open spec fn clicks(b: Board, ids: Seq<usize>) -> Board
    decreases ids.len(),
{
    if ids.len() == 0 {
        b
    } else {
        click(clicks(b, ids.drop_last()), ids.last())
    }
}

pub open spec fn clicked_ids(events: Seq<NylocasClicked>) -> Seq<usize> {
    events.map_values(|e: NylocasClicked| e.0)
}

impl CurrentSpawn {
    /// One click on unit `target`, see `click`.
    pub fn handle_click(&mut self, player: &mut Player, spell: &mut Spell, target: usize)
        requires
            old(self).wf(),
        ensures
            final(self).wf(),
            (final(self).nylos@, final(player).attack_delay, final(spell).is_active) == click(
                (old(self).nylos@, old(player).attack_delay, old(spell).is_active),
                target,
            ),
            final(self).state == old(self).state,
            final(self).spawns@ == old(self).spawns@,
            final(self).spawn_delay_ms == old(self).spawn_delay_ms,
            final(self).leaks == old(self).leaks,
            final(self).rerun == old(self).rerun,
    {
        let ghost b: Board = (self.nylos@, player.attack_delay, spell.is_active);
        if player.attack_delay != 0 || !spell.is_active {
            return;
        }
        let ghost s = self.nylos@;
        let n = self.nylos.len();
        let mut found: Option<usize> = None;
        let mut i: usize = 0;
        while i < n
            invariant_except_break
                found.is_none(),
            invariant
                n == s.len(),
                self.nylos@ == s,
                i <= n,
                forall|j: int| 0 <= j < i ==> #[trigger] s[j].slot != target,
            ensures
                found.is_none() ==> forall|j: int| 0 <= j < n ==> #[trigger] s[j].slot != target,
                found.is_some() ==> found.unwrap() < n && s[found.unwrap() as int].slot == target,
            decreases n - i,
        {
            if self.nylos[i].slot == target {
                found = Some(i);
                break;
            }
            i = i + 1;
        }
        let k = match found {
            Some(k) => k,
            None => {
                assert(!has_unit(s, target));
                return;
            },
        };
        proof {
            let c = choose|j: int| 0 <= j < s.len() && #[trigger] s[j].slot == target;
            assert(s[k as int].slot == target);
            assert(has_unit(s, target));
            if c < k {
                assert(s[c].slot < s[k as int].slot);
            } else if c > k {
                assert(s[k as int].slot < s[c].slot);
            }
            assert(unit_of(s, target) == s[k as int]);
        }
        let tx = self.nylos[k].x;
        let tz = self.nylos[k].z;
        let mut i: usize = 0;
        while i < n
            invariant
                n == s.len(),
                self.nylos@.len() == n,
                i <= n,
                forall|j: int| 0 <= j < i ==> #[trigger] self.nylos@[j] == frozen_one(s[j], tx, tz),
                forall|j: int| i <= j < n ==> #[trigger] self.nylos@[j] == s[j],
                self.state == old(self).state,
                self.spawns@ == old(self).spawns@,
                self.spawn_delay_ms == old(self).spawn_delay_ms,
                self.leaks == old(self).leaks,
                self.rerun == old(self).rerun,
            decreases n - i,
        {
            let u = self.nylos[i];
            let dx: i128 = u.x as i128 - tx as i128;
            let dz: i128 = u.z as i128 - tz as i128;
            if u.frozen == FrozenState::NotFrozen && -1 <= dx && dx <= 1 && -1 <= dz && dz <= 1 {
                self.nylos.set(
                    i,
                    Matomenos {
                        slot: u.slot,
                        x: u.x,
                        z: u.z,
                        frozen: FrozenState::ShouldFreeze,
                        fade_elapsed_ms: u.fade_elapsed_ms,
                    },
                );
            }
            i = i + 1;
        }
        assert(self.nylos@ =~= frozen_around(s, tx, tz));
        assert forall|a: int, b: int| 0 <= a < b < self.nylos@.len() implies #[trigger] self.nylos@[a].slot
            < #[trigger] self.nylos@[b].slot by {
            assert(self.nylos@[a].slot == s[a].slot);
            assert(self.nylos@[b].slot == s[b].slot);
        }
        player.attack_delay = FREEZE_COOLDOWN;
        spell.is_active = false;
    }
}

impl NylocasClicked {
    /// Handles a frame's clicks in order, while the units are moving; during
    /// the settle tick and before the units appear, clicks do nothing.
    pub fn handle_events(
        events: &Vec<NylocasClicked>,
        current: &mut CurrentSpawn,
        player: &mut Player,
        spell: &mut Spell,
    )
        requires
            old(current).wf(),
        ensures
            final(current).wf(),
            old(current).state == ActionState::Moving ==> (
                final(current).nylos@,
                final(player).attack_delay,
                final(spell).is_active,
            ) == clicks(
                (old(current).nylos@, old(player).attack_delay, old(spell).is_active),
                clicked_ids(events@),
            ),
            old(current).state != ActionState::Moving ==> final(current).nylos@
                == old(current).nylos@ && final(player).attack_delay == old(player).attack_delay
                && final(spell).is_active == old(spell).is_active,
            final(current).state == old(current).state,
            final(current).spawns@ == old(current).spawns@,
            final(current).spawn_delay_ms == old(current).spawn_delay_ms,
            final(current).leaks == old(current).leaks,
            final(current).rerun == old(current).rerun,
    {
        match current.state {
            ActionState::Moving => {},
            _ => {
                return;
            },
        }
        let ghost b: Board = (current.nylos@, player.attack_delay, spell.is_active);
        let ghost ids = clicked_ids(events@);
        let mut i: usize = 0;
        while i < events.len()
            invariant
                ids == clicked_ids(events@),
                i <= events.len(),
                current.wf(),
                (current.nylos@, player.attack_delay, spell.is_active) == clicks(
                    b,
                    ids.take(i as int),
                ),
                current.state == old(current).state,
                current.spawns@ == old(current).spawns@,
                current.spawn_delay_ms == old(current).spawn_delay_ms,
                current.leaks == old(current).leaks,
                current.rerun == old(current).rerun,
            decreases events.len() - i,
        {
            proof {
                assert(ids.take(i + 1).drop_last() =~= ids.take(i as int));
            }
            current.handle_click(player, spell, events[i].0);
            i = i + 1;
        }
        proof {
            assert(ids.take(events.len() as int) =~= ids);
            assert(clicks(b, seq![]) == b);
            assert(ids.take(0) =~= seq![]);
        }
    }
}

/// A unit leaks within `n` movement ticks, no click coming in between.
pub open spec fn leaks_within(u: Matomenos, n: nat) -> bool
    decreases n,
{
    n > 0 && (leaks_now(u) || leaks_within(advanced(u), (n - 1) as nat))
}

/// The units after `n` movement ticks with no click in between.
pub open spec fn moved(s: Seq<Matomenos>, n: nat) -> Seq<Matomenos>
    decreases n,
{
    if n == 0 {
        s
    } else {
        moved(after_move(s), (n - 1) as nat)
    }
}

/// A unit leaks on exactly the `n`-th movement tick from now, no click
/// coming in between: it survives the first `n - 1`.
pub open spec fn leaks_exactly(u: Matomenos, n: nat) -> bool
    decreases n,
{
    if n == 0 {
        false
    } else if n == 1 {
        leaks_now(u)
    } else {
        !leaks_now(u) && leaks_exactly(advanced(u), (n - 1) as nat)
    }
}

/// The tick on which a free unit at `(x, z)` leaks: it walks one tile a tick
/// on each axis, so this is the first tick by which its column has reached
/// the zone's eastern edge and its row lies within the zone's rows.
pub open spec fn leak_time(x: int, z: int) -> int {
    let by_x = x - ZONE_MAX_X;
    let by_north = ZONE_MIN_Z - z;
    let by_south = z - ZONE_MAX_Z;
    if by_x >= by_north && by_x >= by_south {
        by_x
    } else if by_north >= by_south {
        by_north
    } else {
        by_south
    }
}

/// A free unit leaks exactly at `leak_time` when that time is at least one
/// tick away and its column is still east of the zone's western edge then.
proof fn lemma_leak_time(u: Matomenos)
    requires
        u.frozen == FrozenState::NotFrozen,
        leak_time(u.x as int, u.z as int) >= 1,
        u.x - leak_time(u.x as int, u.z as int) >= ZONE_MIN_X,
    ensures
        leaks_exactly(u, leak_time(u.x as int, u.z as int) as nat),
    decreases leak_time(u.x as int, u.z as int),
{
    let t = leak_time(u.x as int, u.z as int);
    if t > 1 {
        let v = advanced(u);
        assert(!leaks_now(u));
        assert(leak_time(v.x as int, v.z as int) == t - 1);
        lemma_leak_time(v);
        assert((t - 1) as nat == (t as nat - 1) as nat);
    }
}

proof fn lemma_leaks_exactly_within(u: Matomenos, n: nat, m: nat)
    requires
        leaks_exactly(u, n),
        n <= m,
    ensures
        leaks_within(u, m),
    decreases n,
{
    if n > 1 {
        lemma_leaks_exactly_within(advanced(u), (n - 1) as nat, (m - 1) as nat);
    }
}

/// A free unit that stands on a spawn point of the table leaks on exactly
/// the `leak_time` tick: 7 from the points at column 13, 10 from column 17,
/// 14 from column 21 and 18 from column 25. So it has leaked within 18
/// movement ticks: its walk always crosses the capture zone, and it can
/// neither stop short of it nor go round it.
pub proof fn lemma_spawned_unit_leaks(u: Matomenos)
    requires
        u.frozen == FrozenState::NotFrozen,
        crate::spawn_point::spawn_table_spec().contains(SpawnPoint { x: u.x, y: u.z }),
    ensures
        leak_time(u.x as int, u.z as int) == if u.x == 13 {
            7int
        } else if u.x == 17 {
            10int
        } else if u.x == 21 {
            14int
        } else {
            18int
        },
        leaks_exactly(u, leak_time(u.x as int, u.z as int) as nat),
        leaks_within(u, 18),
{
    let t = crate::spawn_point::spawn_table_spec();
    let i = choose|i: int| 0 <= i < t.len() && t[i] == SpawnPoint { x: u.x, y: u.z };
    assert(t[i] == crate::spawn_point::spawn_at(i));
    lemma_leak_time(u);
    lemma_leaks_exactly_within(u, leak_time(u.x as int, u.z as int) as nat, 18);
}

proof fn lemma_after_move_from(s: Seq<Matomenos>)
    ensures
        forall|j: int|
            0 <= j < after_move(s).len() ==> exists|m: int|
                0 <= m < s.len() && !leaks_now(s[m]) && #[trigger] after_move(s)[j] == advanced(
                    s[m],
                ),
    decreases s.len(),
{
    if s.len() > 0 {
        let t = s.drop_last();
        lemma_after_move_from(t);
        assert forall|j: int| 0 <= j < after_move(s).len() implies exists|m: int|
            0 <= m < s.len() && !leaks_now(s[m]) && #[trigger] after_move(s)[j] == advanced(
                s[m],
            ) by {
            if j < after_move(t).len() {
                let m = choose|m: int|
                    0 <= m < t.len() && !leaks_now(t[m]) && after_move(t)[j] == advanced(t[m]);
                assert(s[m] == t[m]);
            } else {
                assert(s[s.len() - 1] == s.last());
            }
        }
    }
}

proof fn lemma_moved_empty(s: Seq<Matomenos>, n: nat)
    requires
        forall|j: int| 0 <= j < s.len() ==> leaks_within(#[trigger] s[j], n),
    ensures
        moved(s, n).len() == 0,
    decreases n,
{
    let r = after_move(s);
    lemma_after_move_from(s);
    if n == 0 {
        if s.len() > 0 {
            assert(leaks_within(s[0], 0));
        }
    } else {
        assert forall|j: int| 0 <= j < r.len() implies leaks_within(#[trigger] r[j], (n - 1) as nat) by {
            let m = choose|m: int| 0 <= m < s.len() && !leaks_now(s[m]) && r[j] == advanced(s[m]);
            assert(leaks_within(s[m], n));
        }
        lemma_moved_empty(r, (n - 1) as nat);
    }
}

/// When every unit is free and stands on a spawn point of the table, 18
/// movement ticks without a click leave no unit alive: each one has leaked.
pub proof fn lemma_encounter_drains(s: Seq<Matomenos>)
    requires
        forall|j: int|
            0 <= j < s.len() ==> (#[trigger] s[j]).frozen == FrozenState::NotFrozen
                && crate::spawn_point::spawn_table_spec().contains(
                SpawnPoint { x: s[j].x, y: s[j].z },
            ),
    ensures
        moved(s, 18).len() == 0,
{
    assert forall|j: int| 0 <= j < s.len() implies leaks_within(#[trigger] s[j], 18) by {
        lemma_spawned_unit_leaks(s[j]);
    }
    lemma_moved_empty(s, 18);
}

/// A movement tick counts a leak exactly when some unit's next step ends in
/// the capture zone, and every unit is either counted or kept.
pub proof fn lemma_leak_count_zone(s: Seq<Matomenos>)
    ensures
        leak_count(s) > 0 <==> exists|j: int| 0 <= j < s.len() && #[trigger] leaks_now(s[j]),
        leak_count(s) + after_move(s).len() == s.len(),
    decreases s.len(),
{
    if s.len() > 0 {
        let t = s.drop_last();
        lemma_leak_count_zone(t);
        if leak_count(t) > 0 {
            let j = choose|j: int| 0 <= j < t.len() && leaks_now(t[j]);
            assert(s[j] == t[j]);
        }
        if exists|j: int| 0 <= j < s.len() && #[trigger] leaks_now(s[j]) {
            let j = choose|j: int| 0 <= j < s.len() && leaks_now(s[j]);
            if j < t.len() {
                assert(t[j] == s[j]);
            }
        }
    }
}

/// A reset without a rerun forgets the spawn points; one with a rerun keeps
/// them, so the next encounter's units appear on exactly the same tiles.
pub proof fn lemma_rerun_replays(spawns: Seq<SpawnPoint>, rerun: bool)
    ensures
        !rerun ==> spawns_after_reset(spawns, rerun).len() == 0,
        rerun ==> spawns_after_reset(spawns, rerun) == spawns,
        rerun ==> units_at(spawns_after_reset(spawns, rerun)) == units_at(spawns),
        forall|j: int|
            0 <= j < spawns.len() ==> #[trigger] units_at(spawns)[j].x == spawns[j].x
                && units_at(spawns)[j].z == spawns[j].y,
{
}

/// An area freeze that takes effect marks every free unit in the 3x3 block
/// around the clicked unit and no other, starts the cooldown and disarms the
/// spell. Afterwards no click changes anything, neither at once nor one tick
/// later with the spell armed again, while the cooldown runs.
pub proof fn lemma_freeze_then_blocked(b: Board, id: usize, next: usize)
    requires
        click_takes_effect(b, id),
    ensures
        click(b, id).1 == FREEZE_COOLDOWN,
        !click(b, id).2,
        click(b, id).0.len() == b.0.len(),
        forall|j: int|
            0 <= j < b.0.len() ==> (#[trigger] click(b, id).0[j]).frozen == if freezes(
                b.0[j],
                unit_of(b.0, id).x,
                unit_of(b.0, id).z,
            ) {
                FrozenState::ShouldFreeze
            } else {
                b.0[j].frozen
            },
        click(click(b, id), next) == click(b, id),
        click((click(b, id).0, (FREEZE_COOLDOWN - 1) as u32, true), next) == (
            click(b, id).0,
            (FREEZE_COOLDOWN - 1) as u32,
            true,
        ),
{
}

/// What may happen to the units between two movement ticks: clicks mark free
/// units to freeze and frozen units fade, but no unit moves, appears or
/// disappears.
pub open spec fn between_ticks(s: Seq<Matomenos>, t: Seq<Matomenos>) -> bool {
    &&& t.len() == s.len()
    &&& forall|j: int|
        0 <= j < s.len() ==> {
            &&& (#[trigger] t[j]).slot == s[j].slot
            &&& t[j].x == s[j].x
            &&& t[j].z == s[j].z
            &&& (t[j].frozen == s[j].frozen || (s[j].frozen == FrozenState::NotFrozen
                && t[j].frozen == FrozenState::ShouldFreeze))
        }
}

/// Frame after frame, what happens between two ticks still only marks and
/// fades.
pub proof fn lemma_between_ticks_compose(s: Seq<Matomenos>, t: Seq<Matomenos>, w: Seq<Matomenos>)
    requires
        between_ticks(s, t),
        between_ticks(t, w),
    ensures
        between_ticks(s, w),
{
    assert forall|j: int| 0 <= j < s.len() implies {
        &&& (#[trigger] w[j]).slot == s[j].slot
        &&& w[j].x == s[j].x
        &&& w[j].z == s[j].z
        &&& (w[j].frozen == s[j].frozen || (s[j].frozen == FrozenState::NotFrozen && w[j].frozen
            == FrozenState::ShouldFreeze))
    } by {
        assert(t[j].slot == s[j].slot);
        assert(w[j].slot == t[j].slot);
    }
}

/// A frame's clicks only mark free units to freeze.
pub proof fn lemma_clicks_between_ticks(b: Board, ids: Seq<usize>)
    ensures
        between_ticks(b.0, clicks(b, ids).0),
    decreases ids.len(),
{
    if ids.len() > 0 {
        let c = clicks(b, ids.drop_last());
        lemma_clicks_between_ticks(b, ids.drop_last());
        let d = click(c, ids.last());
        assert(between_ticks(c.0, d.0)) by {
            if click_takes_effect(c, ids.last()) {
                assert forall|j: int| 0 <= j < c.0.len() implies #[trigger] d.0[j] == frozen_one(
                    c.0[j],
                    unit_of(c.0, ids.last()).x,
                    unit_of(c.0, ids.last()).z,
                ) by {}
            }
        }
        lemma_between_ticks_compose(b.0, c.0, d.0);
    }
}

/// A frame's fade only changes frozen units' timers.
pub proof fn lemma_fade_between_ticks(s: Seq<Matomenos>, delta: u64)
    ensures
        between_ticks(s, s.map_values(|u: Matomenos| faded(u, delta))),
{
}

/// A unit's walk depends on its tile and freeze state alone.
proof fn lemma_leaks_within_same_walk(u: Matomenos, v: Matomenos, n: nat)
    requires
        u.x == v.x,
        u.z == v.z,
        u.frozen == v.frozen,
    ensures
        leaks_within(u, n) == leaks_within(v, n),
    decreases n,
{
    if n > 0 {
        lemma_leaks_within_same_walk(advanced(u), advanced(v), (n - 1) as nat);
    }
}

/// A unit is frozen or on its way to freezing, or leaks within `n` ticks.
pub open spec fn settles_within(u: Matomenos, n: nat) -> bool {
    u.frozen != FrozenState::NotFrozen || leaks_within(u, n)
}

proof fn lemma_between_ticks_settles(s: Seq<Matomenos>, t: Seq<Matomenos>, n: nat)
    requires
        between_ticks(s, t),
        forall|j: int| 0 <= j < s.len() ==> settles_within(#[trigger] s[j], n),
    ensures
        forall|j: int| 0 <= j < t.len() ==> settles_within(#[trigger] t[j], n),
{
    assert forall|j: int| 0 <= j < t.len() implies settles_within(#[trigger] t[j], n) by {
        assert(settles_within(s[j], n));
        if t[j].frozen == FrozenState::NotFrozen {
            lemma_leaks_within_same_walk(s[j], t[j], n);
        }
    }
}

proof fn lemma_move_settles(s: Seq<Matomenos>, n: nat)
    requires
        forall|j: int| 0 <= j < s.len() ==> settles_within(#[trigger] s[j], n + 1),
    ensures
        forall|j: int|
            0 <= j < after_move(s).len() ==> settles_within(#[trigger] after_move(s)[j], n)
                && after_move(s)[j].frozen != FrozenState::ShouldFreeze,
{
    let r = after_move(s);
    lemma_after_move_from(s);
    assert forall|j: int| 0 <= j < r.len() implies settles_within(#[trigger] r[j], n)
        && r[j].frozen != FrozenState::ShouldFreeze by {
        let m = choose|m: int| 0 <= m < s.len() && !leaks_now(s[m]) && r[j] == advanced(s[m]);
        assert(settles_within(s[m], n + 1));
    }
}

/// How many units the first `n` movement ticks counted as leaks.
pub open spec fn total_leaks(ticks: Seq<Seq<Matomenos>>, n: nat) -> nat
    decreases n,
{
    if n == 0 {
        0
    } else {
        total_leaks(ticks, (n - 1) as nat) + leak_count(ticks[n - 1])
    }
}

/// The units before each movement tick (`rounds[k]`) and as that tick finds
/// them (`ticked[k]`), after the frames in between.
pub open spec fn is_run(rounds: Seq<Seq<Matomenos>>, ticked: Seq<Seq<Matomenos>>, n: nat) -> bool {
    &&& rounds.len() == n + 1
    &&& ticked.len() == n
    &&& forall|k: int|
        0 <= k < n ==> between_ticks(rounds[k], #[trigger] ticked[k]) && rounds[k + 1]
            == after_move(ticked[k])
}

proof fn lemma_run_prefix(rounds: Seq<Seq<Matomenos>>, ticked: Seq<Seq<Matomenos>>, k: nat)
    requires
        is_run(rounds, ticked, 18),
        k <= 18,
        forall|j: int|
            0 <= j < rounds[0].len() ==> (#[trigger] rounds[0][j]).frozen
                == FrozenState::NotFrozen && crate::spawn_point::spawn_table_spec().contains(
                SpawnPoint { x: rounds[0][j].x, y: rounds[0][j].z },
            ),
    ensures
        forall|j: int|
            0 <= j < rounds[k as int].len() ==> settles_within(
                #[trigger] rounds[k as int][j],
                (18 - k) as nat,
            ),
        total_leaks(ticked, k) + rounds[k as int].len() == rounds[0].len(),
    decreases k,
{
    if k == 0 {
        assert forall|j: int| 0 <= j < rounds[0].len() implies settles_within(
            #[trigger] rounds[0][j],
            18,
        ) by {
            lemma_spawned_unit_leaks(rounds[0][j]);
        }
    } else {
        let p = (k - 1) as int;
        lemma_run_prefix(rounds, ticked, (k - 1) as nat);
        assert(between_ticks(rounds[p], ticked[p]));
        lemma_between_ticks_settles(rounds[p], ticked[p], (18 - p) as nat);
        lemma_move_settles(ticked[p], (18 - k) as nat);
        lemma_leak_count_zone(ticked[p]);
    }
}

/// Over 18 movement ticks from units that all stood free on spawn points of
/// the table, with any clicks and fades in the frames between the ticks, no
/// free or pending unit is left at the end: every unit has either leaked or
/// is frozen, and the ticks together counted as leaks exactly the units that
/// are gone.
pub proof fn lemma_drain_with_freezes(rounds: Seq<Seq<Matomenos>>, ticked: Seq<Seq<Matomenos>>)
    requires
        is_run(rounds, ticked, 18),
        forall|j: int|
            0 <= j < rounds[0].len() ==> (#[trigger] rounds[0][j]).frozen
                == FrozenState::NotFrozen && crate::spawn_point::spawn_table_spec().contains(
                SpawnPoint { x: rounds[0][j].x, y: rounds[0][j].z },
            ),
    ensures
        forall|j: int|
            0 <= j < rounds[18].len() ==> (#[trigger] rounds[18][j]).frozen
                == FrozenState::Frozen,
        total_leaks(ticked, 18) + rounds[18].len() == rounds[0].len(),
{
    lemma_run_prefix(rounds, ticked, 17);
    lemma_run_prefix(rounds, ticked, 18);
    assert(between_ticks(rounds[17], ticked[17]));
    lemma_between_ticks_settles(rounds[17], ticked[17], 1);
    lemma_move_settles(ticked[17], 0);
}

} // verus!
