use dispo::duo::{rolling_text, DuoAction, DuoSetup, DuoStage};
use dispo::hc::{duo_keys, plan_hc, user_key, HcPlan};
use dispo::models::Profile;

fn p(id: u64, name: &str) -> Profile {
    Profile { id, name: name.to_string() }
}

#[test]
fn plan_requests() {
    assert_eq!(plan_hc("team", 1, &vec![]), Ok(HcPlan::Team));
    assert_eq!(plan_hc("<@2>", 1, &vec![]), Err("syntax".to_string()));
    assert_eq!(plan_hc("<@1>", 1, &vec![1, 2]), Err("self_mention".to_string()));
    assert_eq!(plan_hc("<@2>", 1, &vec![2]), Ok(HcPlan::Duo { opponent: 2 }));
    assert_eq!(user_key(305), "305");
    assert_eq!(duo_keys(1, 22), vec!["1".to_string(), "22".to_string()]);
}

#[test]
fn duo_accepted_and_batting() {
    let (mut d, invite) = DuoSetup::new(p(1, "Ann"), p(2, "Bob"));
    assert_eq!(invite, "<@2>, Do you want to play handcricket with **Ann**?");
    assert_eq!(rolling_text("<:toss:9>"), "Rolling the toss... <:toss:9>");
    match d.consent(Some("y")) {
        DuoAction::Toss { ask, winner } => {
            assert_eq!(ask, "<@1>, you won the toss, what do you pick?");
            assert_eq!(winner, 1);
        }
        other => panic!("unexpected {:?}", other),
    }
    assert_eq!(d.stage, DuoStage::AwaitingChoice);
    match d.pick_side(Some("bat")) {
        DuoAction::Start { notice, bat, bowl } => {
            assert_eq!(notice, "Match starts, move to DMs players!");
            assert_eq!(bat.id, 1);
            assert_eq!(bowl.id, 2);
        }
        other => panic!("unexpected {:?}", other),
    }
    assert_eq!(d.stage, DuoStage::Started);
}

#[test]
fn duo_bowl_or_other_answer_swaps() {
    for answer in ["bowl", "weird"] {
        let (mut d, _) = DuoSetup::new(p(1, "Ann"), p(2, "Bob"));
        d.consent(Some("y"));
        match d.pick_side(Some(answer)) {
            DuoAction::Start { bat, bowl, .. } => {
                assert_eq!(bat.id, 2);
                assert_eq!(bowl.id, 1);
            }
            other => panic!("unexpected {:?}", other),
        }
    }
}

#[test]
fn duo_declined_or_silent() {
    let (mut d, _) = DuoSetup::new(p(1, "Ann"), p(2, "Bob"));
    match d.consent(Some("n")) {
        DuoAction::Cancel { reply } => assert_eq!(reply, "Bob failed to give a positive response, match cancelled."),
        other => panic!("unexpected {:?}", other),
    }
    assert_eq!(d.stage, DuoStage::Cancelled);
    let (mut d2, _) = DuoSetup::new(p(1, "Ann"), p(2, "Bob"));
    assert!(matches!(d2.consent(None), DuoAction::Cancel { .. }));
    let (mut d3, _) = DuoSetup::new(p(1, "Ann"), p(2, "Bob"));
    d3.consent(Some("y"));
    match d3.pick_side(None) {
        DuoAction::Cancel { reply } => assert_eq!(reply, "Ann failed to give a response, match cancelled."),
        other => panic!("unexpected {:?}", other),
    }
}
