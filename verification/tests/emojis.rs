use dispo::emojis::enter_tag_ready;
use dispo::emojis::{emoji_tag, parse_guild_id, record_emojis, team_match_emojis, toss_emoji_or_blank, EmojiBook, GuildEmoji};

#[test]
fn tags_and_lookup() {
    assert_eq!(emoji_tag("toss", 12), "<:toss:12>");
    let mut book = EmojiBook::new();
    record_emojis(
        &mut book,
        &vec![GuildEmoji { name: "toss".into(), id: 1 }, GuildEmoji { name: "enter".into(), id: 99 }, GuildEmoji { name: "toss".into(), id: 2 }],
    );
    assert_eq!(book.get("toss"), Some("<:toss:2>".to_string()));
    assert_eq!(book.get("enter"), Some("<:enter:99>".to_string()));
    assert_eq!(book.get("bat"), None);
    assert_eq!(toss_emoji_or_blank(&book), "<:toss:2>");
    assert_eq!(team_match_emojis(&book), Ok(("<:toss:2>".to_string(), 99)));
}

#[test]
fn team_emojis_errors() {
    let mut book = EmojiBook::new();
    assert_eq!(toss_emoji_or_blank(&book), "");
    assert_eq!(team_match_emojis(&book), Err("Failed to get toss emoji".to_string()));
    book.insert("toss".into(), "<:toss:1>".into());
    assert_eq!(team_match_emojis(&book), Err("Failed to get enter emoji".to_string()));
    book.insert("enter".into(), "<:enter:x>".into());
    assert_eq!(team_match_emojis(&book), Err("Cannot parse enter emoji as u64: invalid digit found in string".to_string()));
}

#[test]
fn guild_ids() {
    assert_eq!(parse_guild_id("920880917566861332"), Ok(920880917566861332));
    assert_eq!(parse_guild_id(""), Err("cannot parse integer from empty string".to_string()));
}

#[test]
fn book_len_counts_each_name_once() {
    let mut book = EmojiBook::new();
    assert_eq!(book.len(), 0);
    record_emojis(
        &mut book,
        &vec![GuildEmoji { name: "toss".into(), id: 1 }, GuildEmoji { name: "enter".into(), id: 99 }, GuildEmoji { name: "toss".into(), id: 2 }],
    );
    assert_eq!(book.len(), 2);
    book.insert("bat".into(), "<:bat:5>".into());
    assert_eq!(book.len(), 3);
}

#[test]
fn enter_tag_reads_back_its_id() {
    let mut book = EmojiBook::new();
    record_emojis(
        &mut book,
        &vec![GuildEmoji { name: "toss".into(), id: 7 }, GuildEmoji { name: "enter".into(), id: u64::MAX }],
    );
    assert_eq!(team_match_emojis(&book), Ok(("<:toss:7>".to_string(), u64::MAX)));
    record_emojis(&mut book, &vec![GuildEmoji { name: "enter".into(), id: 0 }]);
    assert_eq!(team_match_emojis(&book), Ok(("<:toss:7>".to_string(), 0)));
}

#[test]
fn enter_tag_readiness() {
    let mut book = EmojiBook::new();
    assert!(enter_tag_ready(&book));
    book.insert("enter".into(), "<:enter:5>".into());
    assert!(enter_tag_ready(&book));
    book.insert("enter".into(), "<:e>".into());
    assert!(!enter_tag_ready(&book));
    book.insert("enter".into(), "<:enteré:5é".into());
    assert!(!enter_tag_ready(&book));
}
