//! The `rank` command: which statistic a leaderboard sorts by, and how the
//! leaderboard reads.
use vstd::prelude::*;
use crate::text::{capitalize, capitalized, decimal, lowercase_of, parse_u64, parse_unsigned, push_decimal, str_eq, to_lowercase};

verus! {

/// The database field a leaderboard keyword names (given in lower case).
pub open spec fn field_for(word: Seq<char>) -> Option<Seq<char>> {
    if word == "xp"@ {
        Some("xp"@)
    } else if word == "coins"@ || word == "cc"@ {
        Some("cc"@)
    } else if word == "wins"@ {
        Some("wins"@)
    } else if word == "strike"@ {
        Some("strikeRate"@)
    } else if word == "highscore"@ {
        Some("highScore"@)
    } else if word == "totalscore"@ {
        Some("totalScore"@)
    } else if word == "orange"@ {
        Some("orangeCaps"@)
    } else if word == "wickets"@ {
        Some("wickets"@)
    } else if word == "ducks"@ {
        Some("ducksTaken"@)
    } else {
        None
    }
}

/// The field of the leaderboard that `rank <arg>` asks for, the keyword
/// read without regard to case; `syntax` for an unknown keyword.
pub fn rank_field(arg: &str) -> (r: Result<String, String>)
    ensures
        match field_for(lowercase_of(arg@)) {
            Some(f) => r matches Ok(s) && s@ == f,
            None => r matches Err(e) && e@ == "syntax"@,
        },
        vstd::utf8::is_ascii_chars(arg@) ==> match field_for(arg@.map_values(|c: char| crate::text::ascii_lower(c))) {
            Some(f) => r matches Ok(s) && s@ == f,
            None => r matches Err(e) && e@ == "syntax"@,
        },
{
    let lower = to_lowercase(arg);
    let w = lower.as_str();
    if str_eq(w, "xp") {
        Ok("xp".to_owned())
    } else if str_eq(w, "coins") || str_eq(w, "cc") {
        Ok("cc".to_owned())
    } else if str_eq(w, "wins") {
        Ok("wins".to_owned())
    } else if str_eq(w, "strike") {
        Ok("strikeRate".to_owned())
    } else if str_eq(w, "highscore") {
        Ok("highScore".to_owned())
    } else if str_eq(w, "totalscore") {
        Ok("totalScore".to_owned())
    } else if str_eq(w, "orange") {
        Ok("orangeCaps".to_owned())
    } else if str_eq(w, "wickets") {
        Ok("wickets".to_owned())
    } else if str_eq(w, "ducks") {
        Ok("ducksTaken".to_owned())
    } else {
        Err("syntax".to_owned())
    }
}

/// The title of the leaderboard of `field`.
pub fn leaderboard_title(field: &str) -> (r: String)
    ensures
        r@ == capitalized(field@) + " Leaderboard"@,
        crate::text::ascii_start(field@) ==> r@ == crate::text::ascii_capitalized(field@) + " Leaderboard"@,
{
    let mut s = capitalize(field);
    s.append(" Leaderboard");
    s
}

/// The numeric id stored as a player's key, or 0 when it is not a number.
pub fn leader_id(id: &str) -> (r: u64)
    ensures
        match parse_unsigned(id@, u64::MAX as nat) {
            Ok(v) => r == v,
            Err(_) => r == 0,
        },
{
    match parse_u64(id) {
        Ok(v) => v,
        Err(_) => 0,
    }
}

/// One leaderboard entry: the player's name and the value of the field.
#[derive(Debug)]
pub struct LeaderRow {
    pub name: String,
    pub value: u64,
}

/// The medal of the first three places.
pub open spec fn medal(i: nat) -> Seq<char> {
    if i == 1 {
        "🥇"@
    } else if i == 2 {
        "🥈"@
    } else if i == 3 {
        "🥉"@
    } else {
        ""@
    }
}

/// The line of place `i`: the first three with a medal and the name first,
/// the others with the place number and the value first.
pub open spec fn rank_line_text(i: nat, name: Seq<char>, value: nat) -> Seq<char> {
    if i < 4 {
        medal(i) + "  |  **"@ + name + "** `"@ + decimal(value) + "`\n\n"@
    } else {
        decimal(i) + "  |  `"@ + decimal(value) + "` **"@ + name + "**\n"@
    }
}

/// The line of place `i`.
pub fn rank_line(i: u64, name: &str, value: u64) -> (r: String)
    ensures
        r@ == rank_line_text(i as nat, name@, value as nat),
{
    if i < 4 {
        let mut s = if i == 1 {
            "🥇".to_owned()
        } else if i == 2 {
            "🥈".to_owned()
        } else if i == 3 {
            "🥉".to_owned()
        } else {
            "".to_owned()
        };
        s.append("  |  **");
        s.append(name);
        s.append("** `");
        push_decimal(&mut s, value as u128);
        s.append("`\n\n");
        s
    } else {
        let mut s = String::new();
        push_decimal(&mut s, i as u128);
        s.append("  |  `");
        push_decimal(&mut s, value as u128);
        s.append("` **");
        s.append(name);
        s.append("**\n");
        s
    }
}

/// The lines of the given rows, places counted from 1.
pub open spec fn board_lines(rows: Seq<(Seq<char>, u64)>) -> Seq<char>
    decreases rows.len(),
{
    if rows.len() == 0 {
        Seq::empty()
    } else {
        board_lines(rows.drop_last()) + rank_line_text(rows.len(), rows.last().0, rows.last().1 as nat)
    }
}

/// The rows as (name, value) pairs.
pub open spec fn rows_view(rows: Seq<LeaderRow>) -> Seq<(Seq<char>, u64)> {
    Seq::new(rows.len(), |i: int| (rows[i].name@, rows[i].value))
}

/// The leaderboard text: a heading, then the first ten rows.
pub open spec fn board_text(rows: Seq<(Seq<char>, u64)>) -> Seq<char> {
    "🔥 Top 10 🔥\n"@ + board_lines(rows.take(if rows.len() < 10 { rows.len() as int } else { 10 }))
}

/// Writes the leaderboard of the rows, best first; only the first ten are
/// shown.
pub fn rank_board(rows: &Vec<LeaderRow>) -> (r: String)
    ensures
        r@ == board_text(rows_view(rows@)),
{
    let ghost rv = rows_view(rows@);
    let mut s = "🔥 Top 10 🔥\n".to_owned();
    let ghost head = s@;
    let mut i: usize = 0;
    while i < rows.len() && i < 10
        invariant
            i <= rows.len(),
            i <= 10,
            rv == rows_view(rows@),
            head == "🔥 Top 10 🔥\n"@,
            s@ == head + board_lines(rv.take(i as int)),
        decreases rows.len() - i,
    {
        let line = rank_line((i + 1) as u64, rows[i].name.as_str(), rows[i].value);
        s.append(line.as_str());
        proof {
            let t = rv.take(i + 1);
            assert(t.drop_last() =~= rv.take(i as int));
            assert(t.last() == rv[i as int]);
            assert(s@ =~= head + board_lines(rv.take(i + 1)));
        }
        i = i + 1;
    }
    assert(rv.take(if rv.len() < 10 { rv.len() as int } else { 10 }) =~= rv.take(i as int));
    s
}

} // verus!

verus! {

/// The keywords of `rank` and the field each names: `xp`, `coins` and
/// `cc`, `wins`, `strike`, `highscore`, `totalscore`, `orange`, `wickets`
/// and `ducks`.
pub proof fn lemma_rank_keywords()
    ensures
        field_for("xp"@) == Some("xp"@),
        field_for("coins"@) == Some("cc"@),
        field_for("cc"@) == Some("cc"@),
        field_for("wins"@) == Some("wins"@),
        field_for("strike"@) == Some("strikeRate"@),
        field_for("highscore"@) == Some("highScore"@),
        field_for("totalscore"@) == Some("totalScore"@),
        field_for("orange"@) == Some("orangeCaps"@),
        field_for("wickets"@) == Some("wickets"@),
        field_for("ducks"@) == Some("ducksTaken"@),
        field_for(""@) is None,
        field_for("runs"@) is None,
{
    reveal_strlit("xp");
    reveal_strlit("coins");
    reveal_strlit("cc");
    reveal_strlit("wins");
    reveal_strlit("strike");
    reveal_strlit("highscore");
    reveal_strlit("totalscore");
    reveal_strlit("orange");
    reveal_strlit("wickets");
    reveal_strlit("ducks");
    reveal_strlit("");
    reveal_strlit("runs");
    assert("xp"@.len() == 2 && "xp"@[0] == 'x');
    assert("coins"@.len() == 5 && "coins"@[0] == 'c');
    assert("cc"@.len() == 2 && "cc"@[0] == 'c');
    assert("wins"@.len() == 4 && "wins"@[0] == 'w');
    assert("strike"@.len() == 6 && "strike"@[0] == 's');
    assert("highscore"@.len() == 9 && "highscore"@[0] == 'h');
    assert("totalscore"@.len() == 10 && "totalscore"@[0] == 't');
    assert("orange"@.len() == 6 && "orange"@[0] == 'o');
    assert("wickets"@.len() == 7 && "wickets"@[0] == 'w');
    assert("ducks"@.len() == 5 && "ducks"@[0] == 'd');
    assert("runs"@.len() == 4 && "runs"@[0] == 'r');
    assert("wickets"@[2] != "wins"@[2]);
    assert("coins"@.len() != "cc"@.len());
}

/// How many rows the leaderboard shows: all of them, up to ten.
pub open spec fn shown_count(n: nat) -> nat {
    if n < 10 {
        n
    } else {
        10
    }
}

/// The line of each row, at its place.
pub open spec fn placed_lines(rows: Seq<(Seq<char>, u64)>, n: nat) -> Seq<Seq<char>> {
    Seq::new(n, |k: int| rank_line_text((k + 1) as nat, rows[k].0, rows[k].1 as nat))
}

proof fn lemma_board_lines_flatten(rows: Seq<(Seq<char>, u64)>)
    ensures
        board_lines(rows) == placed_lines(rows, rows.len()).flatten(),
    decreases rows.len(),
{
    if rows.len() > 0 {
        let front = rows.drop_last();
        lemma_board_lines_flatten(front);
        let n = rows.len();
        assert(placed_lines(rows, n) =~= placed_lines(front, front.len()).push(
            rank_line_text(n, rows.last().0, rows.last().1 as nat),
        ));
        placed_lines(front, front.len()).lemma_flatten_push(rank_line_text(n, rows.last().0, rows.last().1 as nat));
    } else {
        assert(placed_lines(rows, 0) =~= Seq::<Seq<char>>::empty());
    }
}

/// The leaderboard is its heading followed by one line per shown row, in
/// order: for every row `k` among the first ten, place `k + 1` holds row
/// `k`'s name and value, and no other line follows.
pub proof fn lemma_board_shows_top_rows(rows: Seq<(Seq<char>, u64)>)
    ensures
        board_text(rows) == "🔥 Top 10 🔥\n"@ + placed_lines(rows, shown_count(rows.len())).flatten(),
        placed_lines(rows, shown_count(rows.len())).len() == shown_count(rows.len()),
{
    let m = shown_count(rows.len());
    let t = rows.take(m as int);
    lemma_board_lines_flatten(t);
    assert(placed_lines(t, t.len()) =~= placed_lines(rows, m));
}

} // verus!
