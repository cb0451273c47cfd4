//! What the bot answers when a command fails or cannot be dispatched.
use vstd::prelude::*;
use crate::commands::{get_cmd_syntax, info_of, syntax_of, CommandBook};
use crate::text::{decimal, has_prefix, push_decimal, starts_with, str_eq};

verus! {

/// The reply to a command that ended with the error `why`, if the error is
/// one the user is told about.
pub open spec fn error_reply(syntax: Seq<char>, why: Seq<char>) -> Option<Seq<char>> {
    if why == "syntax"@ {
        Some("Given command arguments are not valid, checkout the syntax:\n"@ + syntax)
    } else if why == "self_mention"@ {
        Some("Wish you can mention yourself, but you can't."@)
    } else if has_prefix(why, "data:"@) {
        Some("<@"@ + why.subrange(6, why.len() as int) + "> is not a Dispoian yet. Type in `e.start` to get started."@)
    } else if has_prefix(why, "status:"@) {
        Some("<@"@ + why.subrange(8, why.len() as int) + "> is currently engaged in a game, try later."@)
    } else {
        None
    }
}

/// The user id after an error's tag can be cut out: the character where
/// it starts follows a one-byte character.
pub open spec fn error_id_cuttable(why: Seq<char>) -> bool {
    &&& has_prefix(why, "data:"@) ==> why.len() >= 6 && why[5] <= '\u{7f}'
    &&& has_prefix(why, "status:"@) ==> why.len() >= 8 && why[7] <= '\u{7f}'
}

/// Whether the user id in the error `why` can be cut out (what
/// `after_command_reply` needs).
pub fn error_id_is_cuttable(why: &str) -> (r: bool)
    ensures
        r == error_id_cuttable(why@),
{
    let n = why.unicode_len();
    if starts_with(why, "data:") && !(n >= 6 && why.get_char(5) <= '\u{7f}') {
        return false;
    }
    if starts_with(why, "status:") && !(n >= 8 && why.get_char(7) <= '\u{7f}') {
        return false;
    }
    true
}

/// The reply to command `cmd` that ended with the error `why`: a pointer to
/// the syntax, a refusal of a self mention, a note that a user has no
/// profile yet or is busy in a game; none for any other error, which is
/// only logged.
pub fn after_command_reply(book: &CommandBook, cmd: &str, why: &str) -> (r: Option<String>)
    requires
        why@ == "syntax"@ ==> (info_of(book.view(), cmd@) matches Some(info) ==> info.len() > 0),
        error_id_cuttable(why@),
    ensures
        match r {
            Some(t) => error_reply(syntax_of(book.view(), cmd@), why@) == Some(t@),
            None => error_reply(syntax_of(book.view(), cmd@), why@) is None,
        },
{
    if str_eq(why, "syntax") {
        let syntax = get_cmd_syntax(book, cmd);
        let mut s = "Given command arguments are not valid, checkout the syntax:\n".to_owned();
        s.append(syntax.as_str());
        Some(s)
    } else if str_eq(why, "self_mention") {
        Some("Wish you can mention yourself, but you can't.".to_owned())
    } else if starts_with(why, "data:") {
        let n = why.unicode_len();
        let mut s = "<@".to_owned();
        s.append(why.substring_char(6, n));
        s.append("> is not a Dispoian yet. Type in `e.start` to get started.");
        Some(s)
    } else if starts_with(why, "status:") {
        let n = why.unicode_len();
        let mut s = "<@".to_owned();
        s.append(why.substring_char(8, n));
        s.append("> is currently engaged in a game, try later.");
        Some(s)
    } else {
        None
    }
}

/// Why the framework did not run a command.
#[derive(Debug, Clone, Copy, PartialEq, Eq, Structural)]
pub enum DispatchKind {
    /// The user hit a rate limit; `millis` is the time left.
    Ratelimited { is_first_try: bool, millis: u128 },
    NotEnoughArguments,
    TooManyArguments,
    /// Any other reason.
    Other,
}

/// The reply to a command the framework refused to run.
pub open spec fn dispatch_reply(syntax: Seq<char>, kind: DispatchKind) -> Option<Seq<char>> {
    match kind {
        DispatchKind::Ratelimited { is_first_try, millis } => if is_first_try {
            Some("Hold your horse, try this again in "@ + decimal((millis / 1000) as nat) + " seconds."@)
        } else {
            None
        },
        DispatchKind::NotEnoughArguments => Some("Too less Arguments provided. Checkout syntax\n"@ + syntax),
        DispatchKind::TooManyArguments => Some("Too many Arguments provided. Checkout syntax\n"@ + syntax),
        DispatchKind::Other => Some("Something went wrong while processing the command. Try again or report to the official server."@),
    }
}

/// The reply to command `cmd` that the framework refused to run: the wait
/// left on a first rate-limit hit (in whole seconds), the syntax on a
/// wrong argument count, a generic apology otherwise.
pub fn dispatch_error_reply(book: &CommandBook, cmd: &str, kind: DispatchKind) -> (r: Option<String>)
    requires
        kind is NotEnoughArguments || kind is TooManyArguments ==> (info_of(book.view(), cmd@) matches Some(info)
            ==> info.len() > 0),
    ensures
        match r {
            Some(t) => dispatch_reply(syntax_of(book.view(), cmd@), kind) == Some(t@),
            None => dispatch_reply(syntax_of(book.view(), cmd@), kind) is None,
        },
{
    match kind {
        DispatchKind::Ratelimited { is_first_try, millis } => {
            if is_first_try {
                let mut s = "Hold your horse, try this again in ".to_owned();
                push_decimal(&mut s, millis / 1000);
                s.append(" seconds.");
                Some(s)
            } else {
                None
            }
        },
        DispatchKind::NotEnoughArguments => {
            let syntax = get_cmd_syntax(book, cmd);
            let mut s = "Too less Arguments provided. Checkout syntax\n".to_owned();
            s.append(syntax.as_str());
            Some(s)
        },
        DispatchKind::TooManyArguments => {
            let syntax = get_cmd_syntax(book, cmd);
            let mut s = "Too many Arguments provided. Checkout syntax\n".to_owned();
            s.append(syntax.as_str());
            Some(s)
        },
        DispatchKind::Other => Some(
            "Something went wrong while processing the command. Try again or report to the official server.".to_owned(),
        ),
    }
}

} // verus!

verus! {

/// A user whom the player lookup did not find (`data: <id>`) is told to
/// register, with a mention of the user's id.
pub proof fn lemma_unregistered_reply(syntax: Seq<char>, id: Seq<char>)
    ensures
        error_id_cuttable("data: "@ + id),
        error_reply(syntax, "data: "@ + id) == Some("<@"@ + id + "> is not a Dispoian yet. Type in `e.start` to get started."@),
{
    reveal_strlit("data: ");
    reveal_strlit("data:");
    reveal_strlit("syntax");
    reveal_strlit("self_mention");
    let why = "data: "@ + id;
    assert(why.subrange(0, 5) =~= "data:"@);
    assert(why.subrange(6, why.len() as int) =~= id);
    assert(why != "syntax"@) by {
        assert(why[0] != "syntax"@[0]);
    }
    assert(why != "self_mention"@) by {
        assert(why[0] != "self_mention"@[0]);
    }
    reveal_strlit("status:");
    assert(!has_prefix(why, "status:"@)) by {
        assert(why[0] != "status:"@[0]);
    }
}

/// A user whom `check_status` found engaged (`status: <id>`) is reported
/// busy, with a mention of the user's id.
pub proof fn lemma_busy_reply(syntax: Seq<char>, id: Seq<char>)
    ensures
        error_id_cuttable(crate::status::status_message(id)),
        error_reply(syntax, crate::status::status_message(id)) == Some("<@"@ + id + "> is currently engaged in a game, try later."@),
{
    reveal_strlit("status: ");
    reveal_strlit("status:");
    reveal_strlit("data:");
    reveal_strlit("syntax");
    reveal_strlit("self_mention");
    let why = "status: "@ + id;
    assert(why.subrange(0, 7) =~= "status:"@);
    assert(why.subrange(8, why.len() as int) =~= id);
    assert(!has_prefix(why, "data:"@)) by {
        assert(why[0] != "data:"@[0]);
    }
    assert(why != "syntax"@) by {
        assert(why[1] != "syntax"@[1]);
    }
    assert(why != "self_mention"@) by {
        assert(why[1] != "self_mention"@[1]);
    }
}

} // verus!

verus! {

/// The edit of the `ping` reply once the round trip time is known.
pub fn pong_text(millis: u128) -> (r: String)
    ensures
        r@ == "🔫 Pong! 🔫, "@ + decimal(millis as nat) + "ms"@,
{
    let mut s = "🔫 Pong! 🔫, ".to_owned();
    push_decimal(&mut s, millis);
    s.append("ms");
    s
}

} // verus!
