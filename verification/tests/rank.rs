use dispo::rank::{leader_id, leaderboard_title, rank_board, rank_field, rank_line, LeaderRow};

#[test]
fn fields_by_keyword() {
    assert_eq!(rank_field("XP"), Ok("xp".to_string()));
    assert_eq!(rank_field("coins"), Ok("cc".to_string()));
    assert_eq!(rank_field("cc"), Ok("cc".to_string()));
    assert_eq!(rank_field("Strike"), Ok("strikeRate".to_string()));
    assert_eq!(rank_field("highscore"), Ok("highScore".to_string()));
    assert_eq!(rank_field("TotalScore"), Ok("totalScore".to_string()));
    assert_eq!(rank_field("orange"), Ok("orangeCaps".to_string()));
    assert_eq!(rank_field("wickets"), Ok("wickets".to_string()));
    assert_eq!(rank_field("DUCKS"), Ok("ducksTaken".to_string()));
    assert_eq!(rank_field("runs"), Err("syntax".to_string()));
}

#[test]
fn titles() {
    assert_eq!(leaderboard_title("strikeRate"), "StrikeRate Leaderboard");
    assert_eq!(leaderboard_title("cc"), "Cc Leaderboard");
}

#[test]
fn lines_and_ids() {
    assert_eq!(rank_line(1, "amy", 50), "🥇  |  **amy** `50`\n\n");
    assert_eq!(rank_line(3, "cy", 0), "🥉  |  **cy** `0`\n\n");
    assert_eq!(rank_line(4, "dee", 7), "4  |  `7` **dee**\n");
    assert_eq!(leader_id("123"), 123);
    assert_eq!(leader_id("abc"), 0);
}

#[test]
fn board_keeps_first_ten() {
    let rows: Vec<LeaderRow> = (0..12).map(|i| LeaderRow { name: format!("p{}", i), value: 100 - i }).collect();
    let text = rank_board(&rows);
    assert!(text.starts_with("🔥 Top 10 🔥\n🥇  |  **p0** `100`\n\n🥈  |  **p1** `99`\n\n"));
    assert!(text.ends_with("10  |  `91` **p9**\n"));
    assert!(!text.contains("p10"));
    assert_eq!(rank_board(&vec![]), "🔥 Top 10 🔥\n");
}
