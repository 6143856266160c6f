use sword_arena::geom::Vector2;
use sword_arena::input::PlayerInput;
use sword_arena::player::PlayerEvent;
use sword_arena::server::{ControlReply, GameControlMsg, Server};
use sword_arena::settings::GameSetting;

fn add_player_named(server: &mut Server, name: &str) -> u8 {
    match server.handle_control(GameControlMsg::Join { name: String::from(name) }) {
        ControlReply::Joined(Ok(id)) => id,
        _ => panic!("join should succeed"),
    }
}

fn neutral_input(id: u8) -> PlayerInput {
    PlayerInput { id, attack: false, move_amount: Vector2 { x: 0, y: 0 }, direction: 0 }
}

/// Put the player at a position, alive, at full health.
fn place(server: &mut Server, idx: usize, x: i64, y: i64) {
    server.players[idx].dead = false;
    server.players[idx].pos = Vector2 { x, y };
    server.players[idx].velocity = Vector2 { x: 0, y: 0 };
    server.players[idx].health = 100;
}

#[test]
fn attack_in_range_hits_once_and_damages_the_defender() {
    let mut server = Server::new(GameSetting::new());
    let alice = add_player_named(&mut server, "alice");
    let bob = add_player_named(&mut server, "bob");
    place(&mut server, 0, 0, 0);
    place(&mut server, 1, 100, 0);
    server.players[0].weapon.attack_timer.ready = true;
    let mut attack = neutral_input(alice);
    attack.attack = true;
    assert!(server.accept_input(attack));
    server.resolve_attacks();
    // Weapon reach 100 + player radius 50 covers the defender at distance 100.
    assert_eq!(server.players[1].health, 83);
    assert_eq!(server.players[0].player_events, vec![PlayerEvent::AttackHit { id: bob }]);
    assert_eq!(server.players[1].player_events, vec![PlayerEvent::TookDamage]);
    assert!(!server.players[0].weapon.attack_timer.ready);
    assert!(!server.inputs[0].attack);
    // A hit that does not kill scores nothing.
    assert_eq!(server.high_scores.scores.iter().find(|s| s.name == "alice").unwrap().points, 0);
}

#[test]
fn attack_out_of_range_emits_exactly_one_miss() {
    let mut server = Server::new(GameSetting::new());
    let alice = add_player_named(&mut server, "alice");
    add_player_named(&mut server, "bob");
    place(&mut server, 0, 0, 0);
    place(&mut server, 1, 500, 0);
    server.players[0].weapon.attack_timer.ready = true;
    let mut attack = neutral_input(alice);
    attack.attack = true;
    server.accept_input(attack);
    server.resolve_attacks();
    assert_eq!(server.players[0].player_events, vec![PlayerEvent::AttackMiss]);
    assert_eq!(server.players[1].health, 100);
    assert_eq!(server.players[1].player_events, Vec::<PlayerEvent>::new());
    // The cooldown resets on service, hit or miss.
    assert!(!server.players[0].weapon.attack_timer.ready);
}

#[test]
fn attack_on_cooldown_is_skipped_but_the_flag_is_consumed() {
    let mut server = Server::new(GameSetting::new());
    let alice = add_player_named(&mut server, "alice");
    add_player_named(&mut server, "bob");
    place(&mut server, 0, 0, 0);
    place(&mut server, 1, 100, 0);
    // The weapon cooldown has not fired: the attack cannot be serviced.
    assert!(!server.players[0].weapon.attack_timer.ready);
    let cooldown_before = server.players[0].weapon.attack_timer;
    let mut attack = neutral_input(alice);
    attack.attack = true;
    server.accept_input(attack);
    server.resolve_attacks();
    assert!(!server.inputs[0].attack);
    assert_eq!(server.players[0].player_events, Vec::<PlayerEvent>::new());
    assert_eq!(server.players[1].player_events, Vec::<PlayerEvent>::new());
    assert_eq!(server.players[1].health, 100);
    assert_eq!(server.players[0].weapon.attack_timer, cooldown_before);
}

#[test]
fn an_attack_from_a_stale_id_is_dropped_without_any_effect() {
    let mut server = Server::new(GameSetting::new());
    add_player_named(&mut server, "alice");
    place(&mut server, 0, 0, 0);
    let alice_state_health = server.players[0].health;
    // A client that was connected to a previous server keeps sending input.
    let stale = if server.players[0].id == 255 { 1 } else { server.players[0].id + 1 };
    let mut ghost_attack = neutral_input(stale);
    ghost_attack.attack = true;
    server.accept_input(ghost_attack);
    server.resolve_attacks();
    // The flag is consumed, but nobody is touched and nothing is scored.
    assert!(!server.inputs[0].attack);
    assert_eq!(server.players.len(), 1);
    assert_eq!(server.players[0].health, alice_state_health);
    assert_eq!(server.players[0].player_events, Vec::<PlayerEvent>::new());
    assert!(server.high_scores.scores.iter().all(|s| s.points == 0));
}

#[test]
fn lethal_hit_scores_the_attacker_and_the_sweep_processes_the_death() {
    let mut server = Server::new(GameSetting::new());
    let alice = add_player_named(&mut server, "alice");
    add_player_named(&mut server, "bob");
    place(&mut server, 0, 0, 0);
    place(&mut server, 1, 100, 0);
    server.players[0].weapon.attack_timer.ready = true;
    server.players[1].health = 10;
    let mut attack = neutral_input(alice);
    attack.attack = true;
    server.accept_input(attack);
    server.resolve_attacks();
    assert_eq!(server.players[1].health, -7);
    assert!(!server.players[1].dead);
    assert_eq!(server.high_scores.scores.iter().find(|s| s.name == "alice").unwrap().points, 1);
    server.sweep_deaths();
    assert!(server.players[1].dead);
    assert_eq!(server.players[1].health, -1);
    assert_eq!(
        server.players[1].player_events,
        vec![PlayerEvent::TookDamage, PlayerEvent::Die]
    );
}

#[test]
fn dead_players_do_not_move_under_input() {
    let mut server = Server::new(GameSetting::new());
    let alice = add_player_named(&mut server, "alice");
    server.players[0].dead = true;
    server.players[0].pos = Vector2 { x: 0, y: 0 };
    server.players[0].velocity = Vector2 { x: 200, y: 0 };
    let mut push_right = neutral_input(alice);
    push_right.move_amount = Vector2 { x: 1000, y: 0 };
    server.accept_input(push_right);
    server.apply_inputs(16_666_666);
    assert_eq!(server.players[0].velocity, Vector2 { x: 0, y: 0 });
    server.integrate_positions(16_666_666);
    assert_eq!(server.players[0].pos, Vector2 { x: 0, y: 0 });
}

#[test]
fn residual_drift_past_the_edge_is_death_with_a_penalty() {
    let mut server = Server::new(GameSetting::new());
    add_player_named(&mut server, "alice");
    place(&mut server, 0, 900, 0);
    server.players[0].velocity = Vector2 { x: 250, y: 0 };
    // No fresh input at all: residual velocity alone carries the player out.
    server.integrate_positions(1_000_000_000);
    assert!(server.players[0].dead);
    assert_eq!(server.players[0].health, -1);
    assert_eq!(server.players[0].pos, Vector2 { x: 1150, y: 0 });
    assert_eq!(server.players[0].player_events, vec![PlayerEvent::Die]);
    assert_eq!(server.high_scores.scores.iter().find(|s| s.name == "alice").unwrap().points, -1);
}

#[test]
fn idle_player_is_dropped_while_active_players_remain() {
    let mut server = Server::new(GameSetting::new());
    let alice = add_player_named(&mut server, "alice");
    add_player_named(&mut server, "bob");
    let pool_after_joins = server.color_picker.colors.len();
    // First tick: both respawn; both drop timers run down to 1 s remaining.
    server.tick(3_000_000_000);
    // Alice keeps sending input; bob goes silent past the 4 s drop window.
    server.accept_input(neutral_input(alice));
    let snap = server.tick(3_000_000_000).expect("a broadcast is due");
    assert_eq!(server.players.len(), 1);
    assert_eq!(server.players[0].name, "alice");
    assert_eq!(snap.player_states.len(), 1);
    assert_eq!(snap.player_states[0].name, "alice");
    // The dropped player's color went back to the pool.
    assert_eq!(server.color_picker.colors.len(), pool_after_joins + 1);
}

#[test]
fn respawn_shows_spawn_event_in_exactly_one_snapshot() {
    let mut server = Server::new(GameSetting::new());
    add_player_named(&mut server, "alice");
    assert!(server.players[0].dead);
    // The first spawn is primed at 1 s; 1.5 s elapses.
    let snap = server.tick(1_500_000_000).expect("a broadcast is due");
    assert!(!snap.player_states[0].dead);
    assert_eq!(snap.player_states[0].health, 100);
    assert!(snap.player_states[0].player_events.contains(&PlayerEvent::Spawn));
    assert_eq!(server.players[0].player_events.len(), 0);
    let snap2 = server.tick(20_000_000).expect("a broadcast is due");
    assert!(!snap2.player_states[0].player_events.contains(&PlayerEvent::Spawn));
    assert!(!snap2.player_states[0].dead);
}

#[test]
fn frame_numbers_increment_by_exactly_one_per_broadcast() {
    let mut server = Server::new(GameSetting::new());
    let s0 = server.tick(20_000_000).expect("a broadcast is due");
    let s1 = server.tick(20_000_000).expect("a broadcast is due");
    let s2 = server.tick(20_000_000).expect("a broadcast is due");
    assert_eq!(s0.frame_number, 0);
    assert_eq!(s1.frame_number, 1);
    assert_eq!(s2.frame_number, 2);
    assert_eq!(server.frame_number, 3);
    // A short iteration advances the simulation but broadcasts nothing.
    assert!(server.tick(1_000_000).is_none());
    assert_eq!(server.frame_number, 3);
}

#[test]
fn coalescing_keeps_attacks_and_takes_the_latest_movement() {
    let mut server = Server::new(GameSetting::new());
    let alice = add_player_named(&mut server, "alice");
    let mut first = neutral_input(alice);
    first.attack = true;
    first.move_amount = Vector2 { x: 100, y: 0 };
    first.direction = 5;
    let mut second = neutral_input(alice);
    second.move_amount = Vector2 { x: 0, y: 200 };
    second.direction = 7;
    assert!(server.accept_input(first));
    assert!(server.accept_input(second));
    assert_eq!(server.inputs.len(), 1);
    assert!(server.inputs[0].attack);
    assert_eq!(server.inputs[0].move_amount, Vector2 { x: 0, y: 200 });
    assert_eq!(server.inputs[0].direction, 7);
}

#[test]
fn out_of_range_movement_samples_are_dropped_as_malformed() {
    let mut server = Server::new(GameSetting::new());
    let alice = add_player_named(&mut server, "alice");
    let mut wild = neutral_input(alice);
    wild.move_amount = Vector2 { x: 3_000_000_000, y: 0 };
    assert!(!server.accept_input(wild));
    assert_eq!(server.inputs.len(), 0);
}

#[test]
fn input_from_a_registered_player_resets_its_drop_timer() {
    let mut server = Server::new(GameSetting::new());
    let alice = add_player_named(&mut server, "alice");
    server.advance_timers_and_respawns(2_000_000_000);
    assert_eq!(server.players[0].drop_timer.time_left, 2_000_000_000);
    server.accept_input(neutral_input(alice));
    assert_eq!(server.players[0].drop_timer.time_left, 4_000_000_000);
}

#[test]
fn attacking_players_move_at_half_speed() {
    let settings = GameSetting::new();
    let mut fast = Server::new(settings.duplicate());
    let mut slow = Server::new(settings);
    let f = add_player_named(&mut fast, "alice");
    let s = add_player_named(&mut slow, "alice");
    place(&mut fast, 0, 0, 0);
    place(&mut slow, 0, 0, 0);
    let mut run = neutral_input(f);
    run.move_amount = Vector2 { x: 1000, y: 0 };
    fast.accept_input(run);
    let mut swing = neutral_input(s);
    swing.move_amount = Vector2 { x: 1000, y: 0 };
    swing.attack = true;
    slow.accept_input(swing);
    // One full second of acceleration saturates both at their speed caps.
    fast.apply_inputs(1_000_000_000);
    slow.apply_inputs(1_000_000_000);
    assert_eq!(fast.players[0].velocity, Vector2 { x: 250, y: 0 });
    assert_eq!(slow.players[0].velocity, Vector2 { x: 125, y: 0 });
}

#[test]
fn repeated_attacks_through_ticks_kill_and_score() {
    let mut server = Server::new(GameSetting::new());
    let alice = add_player_named(&mut server, "alice");
    add_player_named(&mut server, "bob");
    place(&mut server, 0, 0, 0);
    place(&mut server, 1, 100, 0);
    // Six serviced swings at 17 damage each drive 100 health below zero.
    for _ in 0..6 {
        let mut swing = neutral_input(alice);
        swing.attack = true;
        server.accept_input(swing);
        // 600 ms per tick: the 500 ms cooldown is ready again every time.
        server.tick(600_000_000).expect("a broadcast is due");
    }
    assert!(server.players[1].dead);
    assert_eq!(server.players[1].health, -1);
    assert_eq!(server.high_scores.scores[0].name, "alice");
    assert_eq!(server.high_scores.scores[0].points, 1);
    // Both players are still registered: bob is dead, not dropped.
    assert_eq!(server.players.len(), 2);
}

#[test]
fn movement_below_the_dead_zone_decays_under_drag() {
    let mut server = Server::new(GameSetting::new());
    let alice = add_player_named(&mut server, "alice");
    place(&mut server, 0, 0, 0);
    server.players[0].velocity = Vector2 { x: 100, y: 0 };
    let mut idle = neutral_input(alice);
    idle.move_amount = Vector2 { x: 10, y: 0 };
    server.accept_input(idle);
    // 100 ms of drag at 5/s sheds half the velocity.
    server.apply_inputs(100_000_000);
    assert_eq!(server.players[0].velocity, Vector2 { x: 50, y: 0 });
}
