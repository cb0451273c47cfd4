use dispo::commands::{doc_lines_ok, file_name_cuttable, is_module_file, listing_ready, lookup_ready, syntax_available};
use dispo::commands::{
    avatar_url, command_doc, find_command, get_cmd_syntax, help_listing, help_not_found, register_command_file,
    CommandBook,
};

fn lines(xs: &[&str]) -> Vec<String> {
    xs.iter().map(|s| s.to_string()).collect()
}

fn sample_book() -> CommandBook {
    let mut book = CommandBook::new();
    register_command_file(
        &mut book,
        "hc.rs",
        &lines(&["use x;\n", "///`e.hc <@user | team>`\n", "///Play handcricket with friend(s)\n", "///cricket\n", "fn hc() {}\n"]),
    );
    register_command_file(&mut book, "ping.rs", &lines(&["///`e.ping`\n", "///Find if the bot is dead.\n", "///pong\n"]));
    register_command_file(&mut book, "mod.rs", &lines(&["///ignored\n"]));
    book
}

#[test]
fn doc_lines_drop_prefix_and_terminator() {
    let doc = command_doc(&lines(&["///`e.rank`\n", "#[command]\n", "///lb\n", "//// four\n", "///x"]));
    assert_eq!(doc, lines(&["`e.rank`", "lb", "/ four", ""]));
}

#[test]
fn register_skips_module_files() {
    let book = sample_book();
    assert_eq!(book.len(), 2);
    assert!(book.get("mod").is_none());
    assert_eq!(book.get("hc"), Some(&lines(&["`e.hc <@user | team>`", "Play handcricket with friend(s)", "cricket"])));
}

#[test]
fn register_again_replaces_entry() {
    let mut book = sample_book();
    register_command_file(&mut book, "ping.rs", &lines(&["///`e.ping now`\n", "///d\n", "///p\n"]));
    assert_eq!(book.len(), 2);
    assert_eq!(get_cmd_syntax(&book, "ping"), "`e.ping now`");
}

#[test]
fn syntax_lookup_and_fallback() {
    let book = sample_book();
    assert_eq!(get_cmd_syntax(&book, "hc"), "`e.hc <@user | team>`");
    assert_eq!(get_cmd_syntax(&book, "rank"), "`e.help rank`");
}

#[test]
fn help_finds_by_name_then_alias() {
    let book = sample_book();
    assert_eq!(find_command(&book, "ping").map(|e| e.name.clone()), Some("ping".to_string()));
    assert_eq!(find_command(&book, "cricket").map(|e| e.name.clone()), Some("hc".to_string()));
    assert_eq!(find_command(&book, "po").map(|e| e.name.clone()), Some("ping".to_string()));
    assert!(find_command(&book, "zzz").is_none());
}

#[test]
fn help_listing_lines() {
    let book = sample_book();
    assert_eq!(
        help_listing(&book, &lines(&["ping", "hc"])),
        "**ping**  |  `e.ping`\n**hc**  |  `e.hc <@user | team>`\n"
    );
    assert_eq!(help_listing(&book, &lines(&[])), "");
}

#[test]
fn help_texts() {
    assert_eq!(
        help_not_found("pnig"),
        "Command with name `pnig` not found. Check for typos or checkout full help - `e.help`."
    );
    assert_eq!(avatar_url(42, "abc"), "https://cdn.discordapp.com/avatars/42/abc.webp");
    assert_eq!(avatar_url(7, ""), "https://cdn.discordapp.com/avatars/7/.webp");
}

#[test]
fn help_embed_texts() {
    assert_eq!(dispo::commands::help_title("rank"), "Command - rank");
    assert_eq!(dispo::commands::requested_by("Ann"), "Requested by Ann");
    assert_eq!(dispo::commands::help_greeting(42), "Here we have the help <@42>.");
    assert_eq!(
        dispo::commands::help_links("https://a", "https://b"),
        "[Add to Server](https://a)\n[Main Server](https://b)"
    );
}

#[test]
fn readiness_checks_of_the_help() {
    let mut book = sample_book();
    assert!(syntax_available(&book, "hc"));
    assert!(syntax_available(&book, "nope"));
    assert!(lookup_ready(&book, "nope"));
    assert!(listing_ready(&book, &lines(&["hc", "ping"])));
    assert!(!listing_ready(&book, &lines(&["hc", "rank"])));
    register_command_file(&mut book, "bare.rs", &lines(&["fn bare() {}\n"]));
    assert!(!syntax_available(&book, "bare"));
    assert!(lookup_ready(&book, "hc"));
    assert!(!lookup_ready(&book, "nope"));
    assert!(!listing_ready(&book, &lines(&["bare"])));
    assert!(doc_lines_ok(&lines(&["///a\n", "fn x() {}"])));
    assert!(!doc_lines_ok(&lines(&["///"])));
    assert!(file_name_cuttable("hc.rs"));
    assert!(file_name_cuttable("mod.rs"));
    assert!(!file_name_cuttable("ab"));
    assert!(!file_name_cuttable("é.r"));
    assert!(is_module_file("mod.rs"));
    assert!(!is_module_file("hc.rs"));
}
