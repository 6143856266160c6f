use sword_arena::server::{ControlReply, GameControlMsg, JoinError, Server};
use sword_arena::settings::GameSetting;

fn join(server: &mut Server, name: &str) -> Result<u8, JoinError> {
    match server.handle_control(GameControlMsg::Join { name: String::from(name) }) {
        ControlReply::Joined(r) => r,
        _ => panic!("join got the wrong reply variant"),
    }
}

#[test]
fn join_on_empty_server_succeeds_and_second_hits_capacity() {
    let mut settings = GameSetting::new();
    settings.max_players = 1;
    let mut server = Server::new(settings);
    let id = join(&mut server, "alice").expect("alice should join");
    assert_ne!(id, 0);
    assert_eq!(server.players.len(), 1);
    let err = join(&mut server, "bob").expect_err("bob should be refused");
    assert_eq!(err, JoinError::GameFull);
    assert_eq!(server.players.len(), 1);
}

#[test]
fn duplicate_name_is_refused_and_registry_keeps_one_entry() {
    let mut server = Server::new(GameSetting::new());
    join(&mut server, "alice").expect("first alice should join");
    let err = join(&mut server, "alice").expect_err("second alice should be refused");
    assert_eq!(err, JoinError::NameTaken);
    let alices = server.players.iter().filter(|p| p.name == "alice").count();
    assert_eq!(alices, 1);
}

#[test]
fn capacity_is_checked_before_name_collision() {
    let mut settings = GameSetting::new();
    settings.max_players = 1;
    let mut server = Server::new(settings);
    join(&mut server, "alice").expect("alice should join");
    // A duplicate name on a full server reports the capacity failure.
    let err = join(&mut server, "alice").expect_err("server is full");
    assert_eq!(err, JoinError::GameFull);
}

#[test]
fn joined_players_have_distinct_nonzero_ids_and_names() {
    let mut server = Server::new(GameSetting::new());
    let names = ["a", "b", "c", "d", "e", "f", "g", "h"];
    for n in names.iter() {
        join(&mut server, n).expect("join should succeed");
    }
    for p in server.players.iter() {
        assert_ne!(p.id, 0);
    }
    for i in 0..server.players.len() {
        for j in (i + 1)..server.players.len() {
            assert_ne!(server.players[i].id, server.players[j].id);
            assert_ne!(server.players[i].name, server.players[j].name);
        }
    }
}

#[test]
fn new_players_join_dead_with_full_health_inside_the_spawn_square() {
    let mut server = Server::new(GameSetting::new());
    join(&mut server, "alice").expect("alice should join");
    let p = &server.players[0];
    assert!(p.dead);
    assert_eq!(p.health, 100);
    assert!(p.pos.x >= -600 && p.pos.x <= 600);
    assert!(p.pos.y >= -600 && p.pos.y <= 600);
    assert!(!p.respawn_timer.ready);
}

#[test]
fn leave_removes_the_player_and_returns_its_color() {
    let mut server = Server::new(GameSetting::new());
    let pool_before = server.color_picker.colors.len();
    let id = join(&mut server, "alice").expect("alice should join");
    assert_eq!(server.color_picker.colors.len(), pool_before - 1);
    match server.handle_control(GameControlMsg::Leave { id }) {
        ControlReply::Left(removed) => assert!(removed),
        _ => panic!("leave got the wrong reply variant"),
    }
    assert_eq!(server.players.len(), 0);
    assert_eq!(server.color_picker.colors.len(), pool_before);
}

#[test]
fn leaving_with_a_stale_id_reports_false_and_changes_nothing() {
    let mut server = Server::new(GameSetting::new());
    join(&mut server, "alice").expect("alice should join");
    let id = server.players[0].id;
    let stale = if id == 255 { 1 } else { id + 1 };
    match server.handle_control(GameControlMsg::Leave { id: stale }) {
        ControlReply::Left(removed) => assert!(!removed),
        _ => panic!("leave got the wrong reply variant"),
    }
    assert_eq!(server.players.len(), 1);
}

#[test]
fn fetch_returns_the_current_settings() {
    let mut server = Server::new(GameSetting::new());
    let expected = GameSetting::new().get_hash();
    match server.handle_control(GameControlMsg::Fetch) {
        ControlReply::Settings(s) => {
            assert_eq!(s.get_hash(), expected);
            assert_eq!(s.max_players, 64);
        }
        _ => panic!("fetch got the wrong reply variant"),
    }
}

#[test]
fn joining_registers_the_name_in_the_ledger() {
    let mut server = Server::new(GameSetting::new());
    join(&mut server, "alice").expect("alice should join");
    assert_eq!(server.high_scores.scores.len(), 1);
    assert_eq!(server.high_scores.scores[0].name, "alice");
    assert_eq!(server.high_scores.scores[0].points, 0);
}

#[test]
fn join_error_messages_name_the_cause() {
    assert_eq!(JoinError::GameFull.message(), "the game is full");
    assert_eq!(JoinError::NameTaken.message(), "the name is already taken");
}
