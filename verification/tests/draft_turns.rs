use dispo::models::{Extra, HcPlayer, Profile};
use dispo::team::{team_invite_text, team_roster, Draft, PickOutcome, Reactor, Reply, TurnStart};

fn draft_of(n: u64) -> Draft {
    let reactors: Vec<Reactor> = (1..=n)
        .map(|i| Reactor { user: Profile { id: i, name: format!("u{}", i) }, bot: false })
        .collect();
    let (users, roster) = team_roster(&reactors).unwrap();
    Draft::new(users, roster, 0).0
}

fn reply(mention: Option<u64>, content: &str) -> Reply {
    Reply { mention, content: content.to_string() }
}

#[test]
fn turns_alternate_until_pool_is_empty() {
    let mut d = draft_of(4);
    // roster [u1 u2 u3 u4], team1 [0], team2 [2], pool [1, 3]
    assert_eq!(d.pool, vec![1, 3]);
    match d.begin_turn() {
        TurnStart::Prompt { text } => {
            assert_eq!(text, "Choose your team member by pinging: <@1>, available players are:\nu2,\nu4,\n")
        }
        other => panic!("unexpected {:?}", other),
    }
    assert!(d.turn1);
    assert!(matches!(d.answer_pick(Some(&reply(None, "hi"))), PickOutcome::Ignored));
    match d.answer_pick(Some(&reply(Some(9), "<@9>"))) {
        PickOutcome::Retry { reply } => {
            assert_eq!(reply, "That is not a player available for pick. Try again from\n u2,\nu4,\n")
        }
        other => panic!("unexpected {:?}", other),
    }
    assert!(matches!(d.answer_pick(Some(&reply(Some(4), "<@4>"))), PickOutcome::Picked));
    assert_eq!(d.team1, vec![0, 1]);
    assert!(!d.turn1);
    assert!(matches!(d.begin_turn(), TurnStart::AutoPicked));
    assert_eq!(d.team2, vec![2, 1]);
    assert!(d.turn1);
    assert!(matches!(d.begin_turn(), TurnStart::Finished));
    assert_eq!(d.extra_team(), None);
}

#[test]
fn pick_times_out() {
    let mut d = draft_of(4);
    match d.answer_pick(None) {
        PickOutcome::TimedOut { error } => assert_eq!(error, "res: u1"),
        other => panic!("unexpected {:?}", other),
    }
}

#[test]
fn extra_wicket_answers() {
    let mut d = draft_of(3);
    // roster [u1 u2 u3 E], team1 [0], team2 [2], pool [1, 3]
    assert!(matches!(d.answer_pick(Some(&reply(Some(5), "take the extra"))), PickOutcome::Picked));
    assert_eq!(d.team1, vec![0, 1]);
    assert!(matches!(d.begin_turn(), TurnStart::AutoPicked));
    assert_eq!(d.team2, vec![2, 1]);
    assert_eq!(d.extra_team(), Some(false));
    assert!(matches!(d.answer_extra(false, Some(&reply(None, ""))), PickOutcome::Ignored));
    assert!(matches!(d.answer_extra(false, Some(&reply(Some(1), ""))), PickOutcome::Retry { .. }));
    match d.answer_extra(false, None) {
        PickOutcome::TimedOut { error } => assert_eq!(error, "res: u2"),
        other => panic!("unexpected {:?}", other),
    }
    assert!(matches!(d.answer_extra(false, Some(&reply(Some(2), ""))), PickOutcome::Picked));
    assert!(matches!(&d.roster[3], HcPlayer::E(Extra(Some(u))) if u.id == 2));
}

#[test]
fn invite_text() {
    assert_eq!(team_invite_text("Ann"), "React to join **Ann**'s handcricket match.");
}
