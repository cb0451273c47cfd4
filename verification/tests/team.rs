use dispo::models::{Extra, HcPlayer, Profile};
use dispo::team::{
    avail_list, draw_captain_slot, flip_toss, team_roster, toss_notice, Draft, LobbyAction, ReactionEvent, Reactor,
    TeamLobby,
};

fn p(id: u64, name: &str) -> Profile {
    Profile { id, name: name.to_string() }
}

fn ev(added: bool, emoji: &str, id: u64, name: &str) -> ReactionEvent {
    ReactionEvent { added, emoji: emoji.to_string(), from: p(id, name) }
}

#[test]
fn lobby_join_leave_cancel() {
    let mut engaged = vec!["50".to_string()];
    let mut lobby = TeamLobby::new(1);
    match lobby.on_reaction(&mut engaged, &ev(true, "enter", 2, "Bo")) {
        LobbyAction::Joined { busy, announce } => {
            assert_eq!(busy, None);
            assert_eq!(announce, "☑️ **Bo** - joined the team match.");
        }
        other => panic!("unexpected {:?}", other),
    }
    assert_eq!(engaged, vec!["50".to_string(), "2".to_string()]);
    match lobby.on_reaction(&mut engaged, &ev(true, "enter", 50, "Busy")) {
        LobbyAction::Joined { busy, .. } => assert_eq!(busy, Some("**Busy** is already engaged in a match.".to_string())),
        other => panic!("unexpected {:?}", other),
    }
    assert_eq!(lobby.joined, vec!["2".to_string(), "50".to_string()]);
    assert!(matches!(lobby.on_reaction(&mut engaged, &ev(true, "👍", 3, "Cy")), LobbyAction::Ignore));
    match lobby.on_reaction(&mut engaged, &ev(false, "enter", 2, "Bo")) {
        LobbyAction::Left { announce } => assert_eq!(announce, "❎ **Bo** - left the team match."),
        other => panic!("unexpected {:?}", other),
    }
    assert_eq!(lobby.joined, vec!["50".to_string()]);
    assert_eq!(engaged, vec!["50".to_string()]);
    // Not the host: the cross is ignored.
    assert!(matches!(lobby.on_reaction(&mut engaged, &ev(true, "❌", 3, "Cy")), LobbyAction::Ignore));
    match lobby.on_reaction(&mut engaged, &ev(true, "❌", 1, "Host")) {
        LobbyAction::Cancel { reply } => assert_eq!(reply, "Team Match cancelled by **Host**."),
        other => panic!("unexpected {:?}", other),
    }
    assert!(engaged.is_empty());
}

#[test]
fn roster_counts() {
    let humans = |n: u64| (0..n).map(|i| Reactor { user: p(i, &format!("u{}", i)), bot: false }).collect::<Vec<_>>();
    assert_eq!(
        team_roster(&humans(2)).unwrap_err(),
        "Aw poor, a minimum of 3 players are required to start a team match."
    );
    assert_eq!(
        team_roster(&humans(23)).unwrap_err(),
        "A maximum of 22 players can play a team match at once. The count is too high! Try with a fewer members."
    );
    let mut with_bot = humans(3);
    with_bot.push(Reactor { user: p(99, "bot"), bot: true });
    let (users, roster) = team_roster(&with_bot).unwrap();
    assert_eq!(users.len(), 3);
    assert_eq!(roster.len(), 4);
    assert!(matches!(roster[3], HcPlayer::E(Extra(None))));
    let (_, even) = team_roster(&humans(4)).unwrap();
    assert_eq!(even.len(), 4);
}

#[test]
fn draft_runs() {
    let reactors: Vec<Reactor> = (1..=5).map(|i| Reactor { user: p(i, &format!("u{}", i)), bot: false }).collect();
    let (users, roster) = team_roster(&reactors).unwrap();
    let (mut d, msg) = Draft::new(users, roster, 0);
    assert_eq!(msg, "Teaming: We got,\n Captain 1: **u1**\n Captain 2: **u2**.");
    assert_eq!(d.team1, vec![0]);
    assert_eq!(d.team2, vec![2]);
    assert_eq!(d.pool, vec![1, 3, 4, 5]);
    assert_eq!(
        d.pick_prompt(true),
        "Choose your team member by pinging: <@1>, available players are:\nu2,\nu4,\nu5,\nExtrawicket,\n"
    );
    assert_eq!(d.pick_target(4, "<@4>"), Some(1));
    assert_eq!(d.pick_target(77, "the extra one"), Some(3));
    assert_eq!(d.pick_target(77, "nobody"), None);
    d.apply_pick(true, 1);
    assert_eq!(d.pool, vec![1, 4, 5]);
    assert_eq!(d.team1, vec![0, 1]);
    assert_eq!(d.pick_retry(), "That is not a player available for pick. Try again from\n u2,\nu5,\nExtrawicket,\n");
    assert_eq!(d.timeout_error(false), "res: u2");
    d.apply_pick(false, 2);
    d.apply_pick(true, 0);
    d.take_last(false);
    assert!(d.pool.is_empty());
    assert_eq!(d.team1.len() + d.team2.len(), 6);
    assert_eq!(d.team2, vec![2, 2, 4]);
    assert_eq!(d.extra_team(), Some(false));
    assert_eq!(
        d.extra_prompt(false),
        "<@2>, Who is going to play Extrawicket in your team? Ping them. Team members are:\nu3,\nu3,\nu5,\n"
    );
    assert_eq!(d.extra_target(false, 3), Some(2));
    assert_eq!(d.extra_target(false, 1), None);
    assert_eq!(d.extra_retry(false), "Mentioned player is not valid player in your team. Team members are:\nu3,\nu3,\nu5,\n");
    d.assign_extra(2);
    assert!(matches!(&d.roster[5], HcPlayer::E(Extra(Some(u))) if u.id == 3));
    assert_eq!(d.toss_prompt(false), "<@2>'s team won the toss, choose:");
    assert_eq!(d.line_up(true, None).unwrap_err(), "res: u1");
    let (bat, bowl) = d.line_up(false, Some("bowl")).unwrap();
    assert_eq!(bat.len(), 3);
    assert_eq!(bowl.len(), 3);
    assert!(matches!(&bat[0], HcPlayer::U(u) if u.id == 1));
}

#[test]
fn helpers_and_chance() {
    let roster = vec![HcPlayer::U(p(1, "a")), HcPlayer::E(Extra(None))];
    assert_eq!(avail_list(&roster, &vec![1, 0]), "Extrawicket,\na,\n");
    assert_eq!(toss_notice("T"), "Teaming is done, let's flip the toss... T");
    for _ in 0..50 {
        assert!(draw_captain_slot(3).0 == 0);
        let k = draw_captain_slot(10).0;
        assert!(k + 2 < 10);
    }
    let mut seen = [false; 3];
    for _ in 0..300 {
        seen[draw_captain_slot(5).0] = true;
    }
    assert!(seen.iter().all(|b| *b));
    let flips: Vec<bool> = (0..64).map(|_| flip_toss()).collect();
    assert!(flips.iter().any(|b| *b) && flips.iter().any(|b| !*b));
}
