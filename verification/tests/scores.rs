use sword_arena::scores::HighScores;

#[test]
fn scoring_an_absent_name_creates_it_at_one() {
    let mut h = HighScores::new();
    h.score("x");
    assert_eq!(h.scores.len(), 1);
    assert_eq!(h.scores[0].name, "x");
    assert_eq!(h.scores[0].points, 1);
}

#[test]
fn penalizing_an_absent_name_creates_it_at_minus_one() {
    let mut h = HighScores::new();
    h.penalize("y");
    assert_eq!(h.scores.len(), 1);
    assert_eq!(h.scores[0].name, "y");
    assert_eq!(h.scores[0].points, -1);
}

#[test]
fn add_player_is_idempotent() {
    let mut h = HighScores::new();
    h.add_player("alice");
    h.add_player("alice");
    assert_eq!(h.scores.len(), 1);
    assert_eq!(h.scores[0].points, 0);
}

#[test]
fn order_is_descending_points_then_ascending_name() {
    let mut h = HighScores::new();
    h.score("carol");
    h.score("carol");
    h.score("bob");
    h.score("alice");
    h.penalize("dave");
    // carol: 2, alice: 1, bob: 1, dave: -1
    let names: Vec<&str> = h.scores.iter().map(|s| s.name.as_str()).collect();
    assert_eq!(names, vec!["carol", "alice", "bob", "dave"]);
}

#[test]
fn departed_players_keep_their_entries() {
    let mut h = HighScores::new();
    h.score("alice");
    h.add_player("alice");
    assert_eq!(h.scores.len(), 1);
    assert_eq!(h.scores[0].points, 1);
}

#[test]
fn top10_truncates_without_mutating() {
    let mut h = HighScores::new();
    let names = [
        "a", "b", "c", "d", "e", "f", "g", "h", "i", "j", "k", "l",
    ];
    for n in names.iter() {
        h.add_player(n);
    }
    let top = h.top10();
    assert_eq!(top.scores.len(), 10);
    assert_eq!(h.scores.len(), 12);
}

#[test]
fn top10_twice_without_mutation_is_identical() {
    let mut h = HighScores::new();
    h.score("alice");
    h.score("alice");
    h.score("bob");
    h.penalize("carol");
    let t1 = h.top10();
    let t2 = h.top10();
    assert_eq!(t1.scores.len(), t2.scores.len());
    for i in 0..t1.scores.len() {
        assert_eq!(t1.scores[i].name, t2.scores[i].name);
        assert_eq!(t1.scores[i].points, t2.scores[i].points);
    }
}
