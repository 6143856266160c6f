use sword_arena::settings::GameSetting;

#[test]
fn equal_settings_hash_identically() {
    let a = GameSetting::new();
    let b = GameSetting::new();
    assert_eq!(a.get_hash(), b.get_hash());
    let c = a.duplicate();
    assert_eq!(a.get_hash(), c.get_hash());
}

#[test]
fn changing_any_field_changes_the_hash() {
    let base = GameSetting::new();
    let h0 = base.get_hash();

    let mut s = GameSetting::new();
    s.version = String::from("9.9.9");
    assert_ne!(s.get_hash(), h0);

    let mut s = GameSetting::new();
    s.max_players = 32;
    assert_ne!(s.get_hash(), h0);

    let mut s = GameSetting::new();
    s.acceleration = 1600;
    assert_ne!(s.get_hash(), h0);

    let mut s = GameSetting::new();
    s.max_velocity = 300;
    assert_ne!(s.get_hash(), h0);

    let mut s = GameSetting::new();
    s.drag = 4000;
    assert_ne!(s.get_hash(), h0);

    let mut s = GameSetting::new();
    s.move_threshold = 60;
    assert_ne!(s.get_hash(), h0);

    let mut s = GameSetting::new();
    s.respawn_delay = 6000;
    assert_ne!(s.get_hash(), h0);

    let mut s = GameSetting::new();
    s.drop_delay = 5000;
    assert_ne!(s.get_hash(), h0);
}
