use dispo::scoreboard::can_name;
use dispo::models::{Extra, HcOptions, HcPlayer, Profile};
use dispo::scoreboard::{pad, MatchState};

fn p(id: u64, name: &str) -> Profile {
    Profile { id, name: name.to_string() }
}

#[test]
fn padding() {
    assert_eq!(pad("bob"), "bob         ");
    assert_eq!(pad("exactlytwelv"), "exactlytwelv");
    assert_eq!(pad("averyveryverylongname"), "averyveryv..");
    assert_eq!(pad("é"), "é           ");
}

#[test]
fn new_match_state() {
    let m = MatchState::new(vec![HcPlayer::U(p(1, "a"))], vec![HcPlayer::U(p(2, "b"))], HcOptions::standard(), true);
    assert!(m.isin1 && m.bat_logs.is_empty() && m.target.is_none() && m.bat_idx == 0);
    assert_eq!(m.title(), "duo Match");
    assert_eq!(m.dm_targets(), (1, 1));
}

#[test]
fn duo_board() {
    let mut m = MatchState::new(vec![HcPlayer::U(p(1, "Ann"))], vec![HcPlayer::U(p(2, "Bob"))], HcOptions::standard(), true);
    m.bat_logs.push((12, 5));
    m.bowl_logs.push((3, 2));
    assert_eq!(m.description(), "**_Batsman_**\nAnn | 12 `(5)`\n**_Bowler_**\nAnn | 3 `(2)`");
    m.isin1 = false;
    m.target = Some(40);
    assert_eq!(m.description(), "**_Batsman_**\nAnn | 12 `(5)`\nTarget: 40\n**_Bowler_**\nAnn | 3 `(2)`");
}

#[test]
fn team_board() {
    let bat = vec![HcPlayer::U(p(1, "Ann")), HcPlayer::E(Extra(Some(p(1, "Ann"))))];
    let bowl = vec![HcPlayer::U(p(2, "Bob")), HcPlayer::U(p(3, "Cy"))];
    let mut m = MatchState::new(bat, bowl, HcOptions::standard(), false);
    m.bat_logs = vec![(4, 3), (0, 0)];
    m.bowl_logs = vec![(0, 1), (0, 2)];
    m.team_score = 4;
    m.bowl_idx = 1;
    assert_eq!(m.title(), "team Match");
    assert_eq!(
        m.description(),
        "**__Batting Team__**\n_Ann         _ | 4`(3)`\nAnn (extra)  | 0`(0)`\nTotal Score: 4\n\n**__Bowling Team__**\nBob          | 0`(1)`\n_Cy          _ | 0`(2)`"
    );
}

#[test]
fn padded_names_fit_twelve_columns() {
    for name in ["", "a", "Ann (extra)", "exactlytwelv", "averyveryverylongname", "ééééééééééé"] {
        let p = pad(name);
        assert!(p.chars().count() <= 12, "{:?}", p);
        if name.len() <= 12 {
            assert_eq!(p.chars().count(), 12);
        }
    }
}

#[test]
fn board_readiness() {
    assert!(can_name(&HcPlayer::U(p(1, "Ann"))));
    assert!(!can_name(&HcPlayer::E(Extra(None))));
    assert!(can_name(&HcPlayer::E(Extra(Some(p(1, "Ann"))))));
    assert!(!can_name(&HcPlayer::U(p(1, "aaaaaaaaaéxyz"))));
    let mut m = MatchState::new(vec![HcPlayer::U(p(1, "a"))], vec![HcPlayer::U(p(2, "b"))], HcOptions::standard(), true);
    assert!(m.has_batter());
    assert!(!m.can_show_board());
    m.bat_logs.push((0, 0));
    m.bowl_logs.push((0, 0));
    assert!(m.can_show_board());
    m.isin1 = false;
    assert!(!m.can_show_board());
    let t = MatchState::new(vec![HcPlayer::E(Extra(None))], vec![], HcOptions::standard(), false);
    assert!(!t.has_batter());
    assert!(!t.can_show_board());
}
