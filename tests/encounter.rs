use maiden::config::{config_command, Command, Config, GameState};
use maiden::matomenos::{
    ActionState, CurrentSpawn, FrozenState, Matomenos, NylocasClicked, FADE_MS, SPAWN_DELAY_MS,
};
use maiden::player::{attack_delay, Player};
use maiden::spawn_point::{spawn_table, SpawnPoint};
use maiden::spell::{handle_spell_click, Spell};

fn unit(slot: usize, x: i64, z: i64) -> Matomenos {
    Matomenos { slot, x, z, frozen: FrozenState::NotFrozen, fade_elapsed_ms: 0 }
}

/// An encounter that has spawned on the given points and is past its settle tick.
fn moving_on(points: Vec<SpawnPoint>) -> CurrentSpawn {
    let mut c = CurrentSpawn::new();
    c.spawns = points;
    c.spawn_nylos(SPAWN_DELAY_MS, &Config::default());
    assert_eq!(c.state, ActionState::Spawned);
    c.move_nylos();
    assert_eq!(c.state, ActionState::Moving);
    c
}

/// A moving encounter holding exactly the given units.
fn moving_with(units: Vec<Matomenos>) -> CurrentSpawn {
    let points = units.iter().map(|u| SpawnPoint { x: u.x, y: u.z }).collect();
    let mut c = moving_on(points);
    c.nylos = units;
    c
}

#[test]
fn spawn_waits_for_the_delay() {
    let mut c = CurrentSpawn::new();
    let config = Config { players: 2 };
    c.spawn_nylos(1000, &config);
    assert_eq!(c.state, ActionState::NotSpawned);
    assert_eq!(c.spawn_delay_ms, 1000);
    assert!(c.nylos.is_empty());
    c.spawn_nylos(1999, &config);
    assert_eq!(c.state, ActionState::NotSpawned);
    c.spawn_nylos(5, &config);
    assert_eq!(c.state, ActionState::Spawned);
    assert_eq!(c.spawn_delay_ms, SPAWN_DELAY_MS);
    assert_eq!(c.spawns.len(), 4);
    assert_eq!(c.nylos.len(), 4);
    for (i, (u, p)) in c.nylos.iter().zip(c.spawns.iter()).enumerate() {
        assert_eq!(*u, unit(i, p.x, p.y));
    }
    // Once spawned, further frames change nothing.
    let before = c.nylos.clone();
    c.spawn_nylos(10_000, &config);
    assert_eq!(c.nylos, before);
    assert_eq!(c.state, ActionState::Spawned);
}

#[test]
fn settle_tick_does_not_move() {
    let mut c = CurrentSpawn::new();
    c.spawns = vec![SpawnPoint { x: 13, y: 1 }];
    c.spawn_nylos(SPAWN_DELAY_MS, &Config::default());
    c.move_nylos();
    assert_eq!(c.state, ActionState::Moving);
    assert_eq!(c.nylos, vec![unit(0, 13, 1)]);
    c.move_nylos();
    assert_eq!(c.nylos, vec![unit(0, 12, 2)]);
}

#[test]
fn movement_before_spawn_does_nothing() {
    let mut c = CurrentSpawn::new();
    c.move_nylos();
    assert_eq!(c.state, ActionState::NotSpawned);
    assert_eq!(c.leaks, 0);
}

#[test]
fn step_is_diagonal_then_straight() {
    let mut c = moving_with(vec![unit(0, 25, 3)]);
    for _ in 0..10 {
        c.move_nylos();
    }
    assert_eq!((c.nylos[0].x, c.nylos[0].z), (15, 13));
    c.move_nylos();
    assert_eq!((c.nylos[0].x, c.nylos[0].z), (14, 13));
}

#[test]
fn leak_only_when_next_step_in_zone() {
    let mut c = moving_with(vec![unit(0, 9, 13), unit(1, 20, 1)]);
    c.move_nylos();
    assert_eq!(c.leaks, 0);
    assert_eq!((c.nylos[0].x, c.nylos[0].z), (8, 13));
    c.move_nylos();
    assert_eq!(c.leaks, 1);
    assert_eq!(c.nylos.len(), 1);
    assert_eq!(c.nylos[0].slot, 1);
}

#[test]
fn frozen_units_never_move_or_leak() {
    let mut frozen = unit(0, 8, 13);
    frozen.frozen = FrozenState::Frozen;
    let mut c = moving_with(vec![frozen]);
    for _ in 0..30 {
        c.move_nylos();
    }
    assert_eq!(c.nylos, vec![frozen]);
    assert_eq!(c.leaks, 0);
}

#[test]
fn pending_freeze_completes_in_place() {
    let mut pending = unit(0, 8, 13);
    pending.frozen = FrozenState::ShouldFreeze;
    let mut c = moving_with(vec![pending]);
    c.move_nylos();
    assert_eq!(c.nylos[0].frozen, FrozenState::Frozen);
    assert_eq!((c.nylos[0].x, c.nylos[0].z), (8, 13));
    assert_eq!(c.leaks, 0);
}

#[test]
fn every_spawn_point_converges() {
    let table = spawn_table();
    for start in 0..10 {
        let points: Vec<SpawnPoint> = (0..4).map(|j| table[(start + j) % 10]).collect();
        let mut c = moving_on(points);
        let mut ticks = 0;
        while !c.nylos.is_empty() {
            c.move_nylos();
            ticks += 1;
            assert!(ticks <= 24, "units still alive after 24 ticks from {:?}", table[start]);
        }
        assert_eq!(c.leaks, 4);
    }
}

#[test]
fn freeze_area_then_cooldown_blocks() {
    let units = vec![
        unit(0, 13, 1),
        unit(1, 14, 2),
        unit(2, 12, 0),
        unit(3, 15, 1),
        unit(4, 13, 3),
    ];
    let mut c = moving_with(units);
    let mut player = Player::new();
    let mut spell = Spell::new();
    handle_spell_click(&mut spell);
    assert!(spell.is_active);

    NylocasClicked::handle_events(&vec![NylocasClicked(0)], &mut c, &mut player, &mut spell);
    let states: Vec<FrozenState> = c.nylos.iter().map(|u| u.frozen).collect();
    assert_eq!(
        states,
        vec![
            FrozenState::ShouldFreeze,
            FrozenState::ShouldFreeze,
            FrozenState::ShouldFreeze,
            FrozenState::NotFrozen,
            FrozenState::NotFrozen,
        ]
    );
    assert_eq!(player.attack_delay, 5);
    assert!(!spell.is_active);

    attack_delay(&mut player);
    assert_eq!(player.attack_delay, 4);
    handle_spell_click(&mut spell);
    let before = c.nylos.clone();
    NylocasClicked::handle_events(&vec![NylocasClicked(3)], &mut c, &mut player, &mut spell);
    assert_eq!(c.nylos, before);
    assert_eq!(player.attack_delay, 4);
    assert!(spell.is_active);
}

#[test]
fn freeze_needs_armed_spell() {
    let mut c = moving_with(vec![unit(0, 13, 1)]);
    let mut player = Player::new();
    let mut spell = Spell::new();
    NylocasClicked::handle_events(&vec![NylocasClicked(0)], &mut c, &mut player, &mut spell);
    assert_eq!(c.nylos[0].frozen, FrozenState::NotFrozen);
    assert_eq!(player.attack_delay, 0);
}

#[test]
fn click_on_missing_unit_is_skipped() {
    let mut c = moving_with(vec![unit(0, 13, 1), unit(1, 25, 21)]);
    let mut player = Player::new();
    let mut spell = Spell { is_active: true };
    NylocasClicked::handle_events(
        &vec![NylocasClicked(7), NylocasClicked(1)],
        &mut c,
        &mut player,
        &mut spell,
    );
    assert_eq!(c.nylos[0].frozen, FrozenState::NotFrozen);
    assert_eq!(c.nylos[1].frozen, FrozenState::ShouldFreeze);
    assert_eq!(player.attack_delay, 5);
    assert!(!spell.is_active);
}

#[test]
fn only_first_effective_click_counts() {
    let mut c = moving_with(vec![unit(0, 13, 1), unit(1, 25, 21)]);
    let mut player = Player::new();
    let mut spell = Spell { is_active: true };
    NylocasClicked::handle_events(
        &vec![NylocasClicked(0), NylocasClicked(1)],
        &mut c,
        &mut player,
        &mut spell,
    );
    assert_eq!(c.nylos[0].frozen, FrozenState::ShouldFreeze);
    assert_eq!(c.nylos[1].frozen, FrozenState::NotFrozen);
}

#[test]
fn clicks_during_settle_tick_do_nothing() {
    let mut c = CurrentSpawn::new();
    c.spawns = vec![SpawnPoint { x: 13, y: 1 }];
    c.spawn_nylos(SPAWN_DELAY_MS, &Config::default());
    assert_eq!(c.state, ActionState::Spawned);
    let mut player = Player::new();
    let mut spell = Spell { is_active: true };
    NylocasClicked::handle_events(&vec![NylocasClicked(0)], &mut c, &mut player, &mut spell);
    assert_eq!(c.nylos[0].frozen, FrozenState::NotFrozen);
    assert!(spell.is_active);
    assert_eq!(player.attack_delay, 0);
}

#[test]
fn cooldown_stops_at_zero() {
    let mut player = Player { attack_delay: 2 };
    attack_delay(&mut player);
    assert_eq!(player.attack_delay, 1);
    attack_delay(&mut player);
    attack_delay(&mut player);
    assert_eq!(player.attack_delay, 0);
}

#[test]
fn fade_counts_down_on_frozen_units() {
    let mut frozen = unit(0, 13, 1);
    frozen.frozen = FrozenState::Frozen;
    let mut pending = unit(1, 25, 21);
    pending.frozen = FrozenState::ShouldFreeze;
    let free = unit(2, 25, 3);
    let mut c = moving_with(vec![frozen, pending, free]);
    assert_eq!(c.nylos[0].fade_left_ms(), Some(FADE_MS));
    c.draw_freeze(400);
    assert_eq!(c.nylos[0].fade_elapsed_ms, 400);
    assert_eq!(c.nylos[0].fade_left_ms(), Some(2000));
    assert_eq!(c.nylos[1].fade_left_ms(), Some(FADE_MS));
    assert_eq!(c.nylos[2].fade_left_ms(), None);
    c.draw_freeze(5000);
    assert_eq!(c.nylos[0].fade_elapsed_ms, FADE_MS);
    assert_eq!(c.nylos[0].fade_left_ms(), None);
    assert_eq!(c.nylos[1].fade_elapsed_ms, 0);
}

#[test]
fn reset_without_rerun_clears_spawns() {
    let mut c = CurrentSpawn::new();
    c.spawn_nylos(SPAWN_DELAY_MS, &Config { players: 3 });
    assert_eq!(c.spawns.len(), 6);
    c.move_nylos();
    c.reset();
    assert!(c.spawns.is_empty());
    assert!(c.nylos.is_empty());
    assert_eq!(c.state, ActionState::NotSpawned);
    assert_eq!(c.spawn_delay_ms, 0);
    assert_eq!(c.leaks, 0);
}

#[test]
fn rerun_replays_same_spawns() {
    let mut c = CurrentSpawn::new();
    let config = Config { players: 2 };
    c.spawn_nylos(SPAWN_DELAY_MS, &config);
    let first = c.spawns.clone();
    let first_units = c.nylos.clone();
    c.move_nylos();
    for _ in 0..30 {
        c.move_nylos();
    }
    assert_eq!(c.leaks, 4);
    c.rerun = true;
    c.reset();
    assert!(!c.rerun);
    assert_eq!(c.leaks, 0);
    assert_eq!(c.spawns, first);
    c.spawn_nylos(SPAWN_DELAY_MS, &Config { players: 5 });
    assert_eq!(c.spawns, first);
    assert_eq!(c.nylos, first_units);
}

#[test]
fn one_player_encounter_end_to_end() {
    let config = Config::default();
    assert_eq!(config.players, 1);
    assert_eq!(config.spawn_count(), 2);
    let mut c = CurrentSpawn::new();
    let mut state = GameState::Playing;
    state = config_command(state, Command::Spawn, &mut c);
    assert_eq!(state, GameState::Spawned);
    for _ in 0..5 {
        c.spawn_nylos(600, &config);
    }
    assert_eq!(c.state, ActionState::Spawned);
    assert_eq!(c.spawns.len(), 2);
    c.move_nylos();
    assert_eq!(c.state, ActionState::Moving);
    let mut ticks = 0;
    while !c.nylos.is_empty() {
        c.move_nylos();
        ticks += 1;
        assert!(ticks <= 24);
    }
    assert_eq!(c.leaks, 2);
    assert!(c.nylos.is_empty());
}

#[test]
fn commands_follow_the_screens() {
    let mut c = CurrentSpawn::new();
    c.spawn_nylos(SPAWN_DELAY_MS, &Config::default());
    let spawns = c.spawns.clone();
    assert_eq!(config_command(GameState::Menu, Command::Spawn, &mut c), GameState::Menu);
    assert_eq!(config_command(GameState::Playing, Command::Reset, &mut c), GameState::Playing);
    assert_eq!(c.state, ActionState::Spawned);
    assert_eq!(config_command(GameState::Spawned, Command::Spawn, &mut c), GameState::Spawned);
    assert_eq!(config_command(GameState::Spawned, Command::Rerun, &mut c), GameState::Playing);
    assert_eq!(c.spawns, spawns);
    assert_eq!(c.state, ActionState::NotSpawned);
    c.spawn_nylos(SPAWN_DELAY_MS, &Config::default());
    assert_eq!(config_command(GameState::Spawned, Command::Reset, &mut c), GameState::Playing);
    assert!(c.spawns.is_empty());
    assert!(c.nylos.is_empty());
}

#[test]
fn default_encounter_is_fresh() {
    let c = CurrentSpawn::default();
    assert_eq!(c.state, ActionState::NotSpawned);
    assert!(c.spawns.is_empty() && c.nylos.is_empty());
    assert_eq!((c.spawn_delay_ms, c.leaks, c.rerun), (0, 0, false));
}

#[test]
fn capture_zone_edges() {
    // South-east corner of the zone is reached, one tile further is not.
    let mut c = moving_with(vec![unit(0, 8, 15), unit(1, 9, 15)]);
    c.move_nylos();
    assert_eq!(c.leaks, 1);
    assert_eq!(c.nylos, vec![unit(1, 8, 14)]);
    c.move_nylos();
    assert_eq!(c.leaks, 2);
    assert!(c.nylos.is_empty());
}

#[test]
fn click_on_frozen_unit_still_casts() {
    let mut frozen = unit(0, 13, 1);
    frozen.frozen = FrozenState::Frozen;
    let mut c = moving_with(vec![frozen, unit(1, 25, 21)]);
    let mut player = Player::new();
    let mut spell = Spell { is_active: true };
    NylocasClicked::handle_events(
        &vec![NylocasClicked(0), NylocasClicked(1)],
        &mut c,
        &mut player,
        &mut spell,
    );
    assert_eq!(c.nylos[0].frozen, FrozenState::Frozen);
    assert_eq!(c.nylos[1].frozen, FrozenState::NotFrozen);
    assert_eq!(player.attack_delay, 5);
    assert!(!spell.is_active);
}

#[test]
fn leak_time_from_each_spawn_point() {
    for p in spawn_table() {
        let expected = match p.x {
            13 => 7,
            17 => 10,
            21 => 14,
            _ => 18,
        };
        let mut c = moving_on(vec![p]);
        for _ in 0..expected - 1 {
            c.move_nylos();
        }
        assert_eq!(c.nylos.len(), 1, "leaked early from {:?}", p);
        assert_eq!(c.leaks, 0);
        c.move_nylos();
        assert!(c.nylos.is_empty(), "still alive at tick {} from {:?}", expected, p);
        assert_eq!(c.leaks, 1);
    }
}

#[test]
fn two_players_drain_or_freeze_within_18_ticks() {
    let table = spawn_table();
    let mut c = moving_on(vec![table[0], table[3], table[5], table[9]]);
    let mut player = Player::new();
    let mut spell = Spell { is_active: true };
    for tick in 0..18 {
        if tick == 3 {
            NylocasClicked::handle_events(&vec![NylocasClicked(3)], &mut c, &mut player, &mut spell);
        }
        c.draw_freeze(600);
        c.move_nylos();
        attack_delay(&mut player);
    }
    assert!(c.nylos.iter().all(|u| u.frozen == FrozenState::Frozen));
    assert_eq!(c.nylos.len(), 1);
    assert_eq!(c.leaks, 3);
}
