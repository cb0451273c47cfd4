use dispo::replies::error_id_is_cuttable;
use dispo::commands::{register_command_file, CommandBook};
use dispo::replies::{after_command_reply, dispatch_error_reply, DispatchKind};
use dispo::status::check_status;
use dispo::hc::resolve_player;

fn book() -> CommandBook {
    let mut b = CommandBook::new();
    register_command_file(&mut b, "rank.rs", &vec!["///`e.rank <field>`\n".to_string(), "///d\n".to_string(), "///lb\n".to_string()]);
    b
}

#[test]
fn syntax_error_points_to_syntax() {
    assert_eq!(
        after_command_reply(&book(), "rank", "syntax"),
        Some("Given command arguments are not valid, checkout the syntax:\n`e.rank <field>`".to_string())
    );
    assert_eq!(
        after_command_reply(&book(), "hc", "syntax"),
        Some("Given command arguments are not valid, checkout the syntax:\n`e.help hc`".to_string())
    );
}

#[test]
fn self_mention_and_unknown_errors() {
    assert_eq!(
        after_command_reply(&book(), "hc", "self_mention"),
        Some("Wish you can mention yourself, but you can't.".to_string())
    );
    assert_eq!(after_command_reply(&book(), "hc", "boom"), None);
}

#[test]
fn missing_profile_is_answered() {
    let err = resolve_player::<u8>("123", None).unwrap_err();
    assert_eq!(err, "data: 123");
    assert_eq!(
        after_command_reply(&book(), "hc", &err),
        Some("<@123> is not a Dispoian yet. Type in `e.start` to get started.".to_string())
    );
}

#[test]
fn busy_player_is_answered() {
    let err = check_status(&vec!["55".to_string()], &vec!["44".to_string(), "55".to_string()]).unwrap_err();
    assert_eq!(
        after_command_reply(&book(), "hc", &err),
        Some("<@55> is currently engaged in a game, try later.".to_string())
    );
}

#[test]
fn dispatch_replies() {
    let b = book();
    assert_eq!(
        dispatch_error_reply(&b, "rank", DispatchKind::Ratelimited { is_first_try: true, millis: 12999 }),
        Some("Hold your horse, try this again in 12 seconds.".to_string())
    );
    assert_eq!(dispatch_error_reply(&b, "rank", DispatchKind::Ratelimited { is_first_try: false, millis: 5 }), None);
    assert_eq!(
        dispatch_error_reply(&b, "rank", DispatchKind::NotEnoughArguments),
        Some("Too less Arguments provided. Checkout syntax\n`e.rank <field>`".to_string())
    );
    assert_eq!(
        dispatch_error_reply(&b, "hc", DispatchKind::TooManyArguments),
        Some("Too many Arguments provided. Checkout syntax\n`e.help hc`".to_string())
    );
    assert_eq!(
        dispatch_error_reply(&b, "hc", DispatchKind::Other),
        Some("Something went wrong while processing the command. Try again or report to the official server.".to_string())
    );
}

#[test]
fn player_lookup_passes_records_and_errors() {
    assert_eq!(resolve_player("1", Some(Ok(5u8))), Ok(5));
    assert_eq!(resolve_player::<u8>("1", Some(Err("db down".to_string()))), Err("db down".to_string()));
}

#[test]
fn error_ids_that_can_be_cut() {
    assert!(error_id_is_cuttable("data: 12"));
    assert!(error_id_is_cuttable("status: 12"));
    assert!(error_id_is_cuttable("other"));
    assert!(!error_id_is_cuttable("data:"));
    assert!(!error_id_is_cuttable("data:é1"));
    assert!(!error_id_is_cuttable("status:é"));
}
