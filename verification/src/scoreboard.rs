//! The state of a hand-cricket match when it starts, and the scoreboard
//! that the players are sent.
use vstd::prelude::*;
use crate::models::{Extra, HcOptions, HcPlayer};
use crate::text::{byte_count, byte_len, byte_prefix, byte_slice, decimal, on_boundary, push_char, push_decimal};

verus! {

/// A player's runs and balls faced.
pub type Tally = (u16, u16);

/// The state of a match.
#[derive(Debug)]
pub struct MatchState {
    pub is_duo: bool,
    pub options: HcOptions,
    pub bat_team: Vec<HcPlayer>,
    pub bowl_team: Vec<HcPlayer>,
    /// Whether the first innings is on.
    pub isin1: bool,
    /// The tallies of the batting side, one per player.
    pub bat_logs: Vec<Tally>,
    /// The tallies of the bowling side, one per player.
    pub bowl_logs: Vec<Tally>,
    /// Even: the bowler's turn; odd: the batter's.
    pub strike: u32,
    pub ball_no: u16,
    pub bat_score: u16,
    pub team_score: u16,
    /// The score to chase in the second innings.
    pub target: Option<u16>,
    pub bat_idx: usize,
    pub bowl_idx: usize,
}

/// The title of the scoreboard.
pub open spec fn title_text(is_duo: bool) -> Seq<char> {
    (if is_duo { "duo"@ } else { "team"@ }) + " Match"@
}

/// A name cut or padded to a column of twelve: a name of more than twelve
/// bytes keeps its first ten bytes and gets `..`; a shorter one is padded
/// with spaces to twelve characters.
pub open spec fn padded(name: Seq<char>) -> Seq<char> {
    if byte_len(name) > 12 {
        byte_slice(name, 0, 10) + ".."@
    } else {
        name + Seq::new(if name.len() < 12 { (12 - name.len()) as nat } else { 0 }, |i: int| ' ')
    }
}

/// A name can be cut for the column.
pub open spec fn paddable(name: Seq<char>) -> bool {
    byte_len(name) <= usize::MAX && (byte_len(name) > 12 ==> on_boundary(name, 10))
}

/// The name of a slot on the scoreboard of a team match.
pub open spec fn board_name(p: HcPlayer) -> Seq<char> {
    match p {
        HcPlayer::U(u) => u.name@,
        HcPlayer::E(Extra(Some(u))) => u.name@ + " (extra)"@,
        HcPlayer::E(Extra(None)) => Seq::empty(),
    }
}

/// The name of a slot on the scoreboard of a duo match.
pub open spec fn duo_name(p: HcPlayer) -> Seq<char> {
    match p {
        HcPlayer::U(u) => u.name@,
        HcPlayer::E(_) => "anonymous"@,
    }
}

/// The slot can be named on a team scoreboard: an extra wicket has its
/// batter, and the name fits the column.
pub open spec fn nameable(p: HcPlayer) -> bool {
    &&& !(p matches HcPlayer::E(Extra(None)))
    &&& paddable(board_name(p))
}

/// One line of a team on the scoreboard; the current player's name is in
/// italics.
pub open spec fn team_line(p: HcPlayer, t: Tally, current: bool) -> Seq<char> {
    let isc = if current { "_"@ } else { ""@ };
    "\n"@ + isc + padded(board_name(p)) + isc + " | "@ + decimal(t.0 as nat) + "`("@ + decimal(t.1 as nat) + ")`"@
}

/// The lines of the first `n` players of a team.
pub open spec fn team_lines(team: Seq<HcPlayer>, logs: Seq<Tally>, idx: nat, n: nat) -> Seq<char>
    decreases n,
{
    if n == 0 {
        Seq::empty()
    } else {
        let k = (n - 1) as nat;
        team_lines(team, logs, idx, k) + team_line(team[k as int], logs[k as int], k == idx)
    }
}

/// The line with the target, in the second innings.
pub open spec fn target_line(isin1: bool, target: Option<u16>) -> Seq<char> {
    if isin1 {
        Seq::empty()
    } else {
        "\nTarget: "@ + decimal(target.unwrap() as nat)
    }
}

/// The scoreboard of a team match.
pub open spec fn team_text(m: MatchState) -> Seq<char> {
    "**__Batting Team__**"@ + team_lines(m.bat_team@, m.bat_logs@, m.bat_idx as nat, m.bat_team@.len())
        + "\nTotal Score: "@ + decimal(m.team_score as nat) + target_line(m.isin1, m.target)
        + "\n\n**__Bowling Team__**"@ + team_lines(m.bowl_team@, m.bowl_logs@, m.bowl_idx as nat, m.bowl_team@.len())
}

/// The scoreboard of a duo match.  Both lines are headed with the name of
/// the batting side's first player; the bowler's line shows the bowling
/// side's tally.
pub open spec fn duo_text(m: MatchState) -> Seq<char> {
    let bat = m.bat_logs@[0];
    let bowl = m.bowl_logs@[0];
    "**_Batsman_**"@ + "\n"@ + duo_name(m.bat_team@[0]) + " | "@ + decimal(bat.0 as nat) + " `("@ + decimal(bat.1 as nat) + ")`"@
        + target_line(m.isin1, m.target) + "\n**_Bowler_**"@ + "\n"@ + duo_name(m.bat_team@[0]) + " | "@
        + decimal(bowl.0 as nat) + " `("@ + decimal(bowl.1 as nat) + ")`"@
}

/// The scoreboard can be written: every shown player has a tally, the
/// target is known in the second innings, and team names can be shown.
pub open spec fn board_ready(m: MatchState) -> bool {
    &&& (!m.isin1 ==> m.target is Some)
    &&& if m.is_duo {
        &&& m.bat_team@.len() >= 1
        &&& m.bat_logs@.len() >= 1
        &&& m.bowl_logs@.len() >= 1
    } else {
        &&& m.bat_logs@.len() >= m.bat_team@.len()
        &&& m.bowl_logs@.len() >= m.bowl_team@.len()
        &&& forall|k: int| 0 <= k < m.bat_team@.len() ==> nameable(#[trigger] m.bat_team@[k])
        &&& forall|k: int| 0 <= k < m.bowl_team@.len() ==> nameable(#[trigger] m.bowl_team@[k])
    }
}

/// Whether a name can be cut for the column (`paddable`).
fn name_fits(name: &str) -> (r: bool)
    ensures
        r == paddable(name@),
{
    let n = byte_count(name);
    n <= 12 || name.is_char_boundary(10)
}

/// Whether a slot can be named on a team scoreboard (`nameable`).
pub fn can_name(p: &HcPlayer) -> (r: bool)
    ensures
        r == nameable(*p),
{
    match p {
        HcPlayer::U(u) => name_fits(u.name.as_str()),
        HcPlayer::E(Extra(Some(u))) => {
            let mut n = u.name.clone();
            n.append(" (extra)");
            name_fits(n.as_str())
        },
        HcPlayer::E(Extra(None)) => false,
    }
}

/// Whether every slot of a team can be named.
fn team_nameable(team: &Vec<HcPlayer>) -> (r: bool)
    ensures
        r == forall|k: int| 0 <= k < team@.len() ==> nameable(#[trigger] team@[k]),
{
    let mut k: usize = 0;
    while k < team.len()
        invariant
            k <= team@.len(),
            forall|j: int| 0 <= j < k ==> nameable(#[trigger] team@[j]),
        decreases team@.len() - k,
    {
        if !can_name(&team[k]) {
            return false;
        }
        k = k + 1;
    }
    true
}

/// Cuts or pads a name to the scoreboard's column.
pub fn pad(name: &str) -> (r: String)
    requires
        paddable(name@),
    ensures
        r@ == padded(name@),
{
    if name.len() > 12 {
        let mut s = byte_prefix(name, 10);
        s.append("..");
        s
    } else {
        let mut s = name.to_owned();
        let n = name.unicode_len();
        let mut k: usize = n;
        while k < 12
            invariant
                n == name@.len(),
                n <= k <= 12 || (n > 12 && k == n),
                s@ == name@ + Seq::new((k - n) as nat, |i: int| ' '),
            decreases 12 - k,
        {
            push_char(&mut s, ' ');
            assert(s@ =~= name@ + Seq::new((k + 1 - n) as nat, |i: int| ' '));
            k = k + 1;
        }
        assert(s@ =~= padded(name@));
        s
    }
}

impl MatchState {
    /// The state of a match as it starts: the first innings, nothing
    /// scored, no tallies yet, the first player of each side on.
    pub fn new(bat_team: Vec<HcPlayer>, bowl_team: Vec<HcPlayer>, options: HcOptions, is_duo: bool) -> (r: MatchState)
        ensures
            r.is_duo == is_duo,
            r.options == options,
            r.bat_team@ == bat_team@,
            r.bowl_team@ == bowl_team@,
            r.isin1,
            r.bat_logs@.len() == 0,
            r.bowl_logs@.len() == 0,
            r.strike == 0,
            r.ball_no == 0,
            r.bat_score == 0,
            r.team_score == 0,
            r.target is None,
            r.bat_idx == 0,
            r.bowl_idx == 0,
    {
        MatchState {
            is_duo,
            options,
            bat_team,
            bowl_team,
            isin1: true,
            bat_logs: Vec::new(),
            bowl_logs: Vec::new(),
            strike: 0,
            ball_no: 0,
            bat_score: 0,
            team_score: 0,
            target: None,
            bat_idx: 0,
            bowl_idx: 0,
        }
    }

    /// The title of the scoreboard.
    pub fn title(&self) -> (r: String)
        ensures
            r@ == title_text(self.is_duo),
    {
        let mut s = if self.is_duo { "duo".to_owned() } else { "team".to_owned() };
        s.append(" Match");
        s
    }

    /// Whether the scoreboard can be written (`board_ready`).
    pub fn can_show_board(&self) -> (r: bool)
        ensures
            r == board_ready(*self),
    {
        let target_known = self.isin1 || self.target.is_some();
        if !target_known {
            return false;
        }
        if self.is_duo {
            self.bat_team.len() >= 1 && self.bat_logs.len() >= 1 && self.bowl_logs.len() >= 1
        } else {
            self.bat_logs.len() >= self.bat_team.len() && self.bowl_logs.len() >= self.bowl_team.len()
                && team_nameable(&self.bat_team) && team_nameable(&self.bowl_team)
        }
    }

    /// Whether the current batter is a user, or an extra wicket with its
    /// batter (what `dm_targets` needs).
    pub fn has_batter(&self) -> (r: bool)
        ensures
            r == (self.bat_idx < self.bat_team@.len()
                && !(self.bat_team@[self.bat_idx as int] matches HcPlayer::E(Extra(None)))),
    {
        if self.bat_idx >= self.bat_team.len() {
            return false;
        }
        match &self.bat_team[self.bat_idx] {
            HcPlayer::E(Extra(None)) => false,
            _ => true,
        }
    }

    /// The scoreboard.
    pub fn description(&self) -> (r: String)
        requires
            board_ready(*self),
        ensures
            r@ == if self.is_duo { duo_text(*self) } else { team_text(*self) },
    {
        if self.is_duo {
            self.duo_board()
        } else {
            self.team_board()
        }
    }

    fn push_target(&self, s: &mut String)
        requires
            !self.isin1 ==> self.target is Some,
        ensures
            final(s)@ == old(s)@ + target_line(self.isin1, self.target),
    {
        if !self.isin1 {
            s.append("\nTarget: ");
            match self.target {
                Some(t) => push_decimal(s, t as u128),
                None => {},
            }
        } else {
            assert(old(s)@ + Seq::<char>::empty() =~= old(s)@);
        }
    }

    fn duo_board(&self) -> (r: String)
        requires
            self.is_duo,
            board_ready(*self),
        ensures
            r@ == duo_text(*self),
    {
        let name = match &self.bat_team[0] {
            HcPlayer::U(u) => u.name.clone(),
            HcPlayer::E(_) => "anonymous".to_owned(),
        };
        let (bat_scr, bat_balls) = self.bat_logs[0];
        let (bowl_scr, bowl_balls) = self.bowl_logs[0];
        let mut s = "**_Batsman_**".to_owned();
        s.append("\n");
        s.append(name.as_str());
        s.append(" | ");
        push_decimal(&mut s, bat_scr as u128);
        s.append(" `(");
        push_decimal(&mut s, bat_balls as u128);
        s.append(")`");
        self.push_target(&mut s);
        s.append("\n**_Bowler_**");
        s.append("\n");
        s.append(name.as_str());
        s.append(" | ");
        push_decimal(&mut s, bowl_scr as u128);
        s.append(" `(");
        push_decimal(&mut s, bowl_balls as u128);
        s.append(")`");
        s
    }

    fn team_board(&self) -> (r: String)
        requires
            !self.is_duo,
            board_ready(*self),
        ensures
            r@ == team_text(*self),
    {
        let mut s = "**__Batting Team__**".to_owned();
        push_team_lines(&mut s, &self.bat_team, &self.bat_logs, self.bat_idx);
        s.append("\nTotal Score: ");
        push_decimal(&mut s, self.team_score as u128);
        self.push_target(&mut s);
        s.append("\n\n**__Bowling Team__**");
        push_team_lines(&mut s, &self.bowl_team, &self.bowl_logs, self.bowl_idx);
        s
    }

    /// The users the scoreboard is sent to: the batting side's current
    /// player, once for the batter and once in the bowler's place; an
    /// extra wicket stands for its batter.
    pub fn dm_targets(&self) -> (r: (u64, u64))
        requires
            self.bat_idx < self.bat_team@.len(),
            !(self.bat_team@[self.bat_idx as int] matches HcPlayer::E(Extra(None))),
        ensures
            r.0 == r.1,
            match self.bat_team@[self.bat_idx as int] {
                HcPlayer::U(u) => r.0 == u.id,
                HcPlayer::E(Extra(Some(u))) => r.0 == u.id,
                HcPlayer::E(Extra(None)) => false,
            },
    {
        let id = match &self.bat_team[self.bat_idx] {
            HcPlayer::U(u) => u.id,
            HcPlayer::E(Extra(Some(u))) => u.id,
            HcPlayer::E(Extra(None)) => 0,
        };
        (id, id)
    }
}

/// Appends the lines of a team.
fn push_team_lines(s: &mut String, team: &Vec<HcPlayer>, logs: &Vec<Tally>, idx: usize)
    requires
        logs@.len() >= team@.len(),
        forall|k: int| 0 <= k < team@.len() ==> nameable(#[trigger] team@[k]),
    ensures
        final(s)@ == old(s)@ + team_lines(team@, logs@, idx as nat, team@.len()),
{
    let ghost start = s@;
    let mut k: usize = 0;
    while k < team.len()
        invariant
            k <= team@.len(),
            logs@.len() >= team@.len(),
            forall|k: int| 0 <= k < team@.len() ==> nameable(#[trigger] team@[k]),
            s@ == start + team_lines(team@, logs@, idx as nat, k as nat),
        decreases team@.len() - k,
    {
        assert(nameable(team@[k as int]));
        let name = match &team[k] {
            HcPlayer::U(u) => u.name.clone(),
            HcPlayer::E(Extra(Some(u))) => {
                let mut n = u.name.clone();
                n.append(" (extra)");
                n
            },
            HcPlayer::E(Extra(None)) => String::new(),
        };
        assert(name@ == board_name(team@[k as int]));
        let (scr, balls) = logs[k];
        let current = k == idx;
        let isc = if current { "_" } else { "" };
        let p = pad(name.as_str());
        let mut line = "\n".to_owned();
        line.append(isc);
        line.append(p.as_str());
        line.append(isc);
        line.append(" | ");
        push_decimal(&mut line, scr as u128);
        line.append("`(");
        push_decimal(&mut line, balls as u128);
        line.append(")`");
        assert(line@ =~= team_line(team@[k as int], logs@[k as int], k as nat == idx as nat));
        let ghost before = s@;
        s.append(line.as_str());
        assert(team_lines(team@, logs@, idx as nat, (k + 1) as nat) == team_lines(team@, logs@, idx as nat, k as nat) + line@);
        assert(s@ =~= start + team_lines(team@, logs@, idx as nat, (k + 1) as nat));
        k = k + 1;
    }
}

} // verus!

verus! {

/// A UTF-8 encoding has at least one byte per character.
proof fn lemma_bytes_at_least_chars(s: Seq<char>)
    ensures
        s.len() <= vstd::utf8::encode_utf8(s).len(),
    decreases s.len(),
{
    if s.len() > 0 {
        lemma_bytes_at_least_chars(s.drop_first());
    }
}

/// A name of at most twelve bytes fills exactly the twelve columns of the
/// scoreboard, and keeps all its characters.
pub proof fn lemma_short_name_fills_column(name: Seq<char>)
    requires
        byte_len(name) <= 12,
    ensures
        padded(name).len() == 12,
        padded(name).subrange(0, name.len() as int) == name,
{
    lemma_bytes_at_least_chars(name);
    assert(padded(name).subrange(0, name.len() as int) =~= name);
}

} // verus!

verus! {

/// A name on the scoreboard never takes more than the twelve columns.
pub proof fn lemma_padded_fits_column(name: Seq<char>)
    requires
        paddable(name),
    ensures
        padded(name).len() <= 12,
{
    if byte_len(name) > 12 {
        let bytes = vstd::utf8::encode_utf8(name);
        vstd::utf8::encode_utf8_valid_utf8(name);
        vstd::utf8::valid_utf8_split(bytes, 10);
        let head = bytes.subrange(0, 10);
        vstd::utf8::decode_utf8_encode_utf8(head);
        lemma_bytes_at_least_chars(vstd::utf8::decode_utf8(head));
        assert(head.len() == 10);
        assert(vstd::utf8::encode_utf8(vstd::utf8::decode_utf8(head)) == head);
        reveal_strlit("..");
        assert(padded(name) == vstd::utf8::decode_utf8(head) + ".."@);
    } else {
        lemma_short_name_fills_column(name);
    }
}

} // verus!

verus! {

/// In the second innings the scoreboard shows the target right after the
/// batting side's score; in the first it shows none there.  For a team
/// match the score is the team's total, for a duo match the batter's tally.
pub proof fn lemma_board_shows_target(m: MatchState)
    ensures
        !m.isin1 && m.target is Some ==> {
            let t = decimal(m.target.unwrap() as nat);
            &&& crate::text::has_infix(team_text(m),
                "\nTotal Score: "@ + decimal(m.team_score as nat) + "\nTarget: "@ + t + "\n\n**__Bowling Team__**"@)
            &&& crate::text::has_infix(duo_text(m), ")`"@ + "\nTarget: "@ + t + "\n**_Bowler_**"@)
        },
        m.isin1 ==> {
            &&& crate::text::has_infix(team_text(m),
                "\nTotal Score: "@ + decimal(m.team_score as nat) + "\n\n**__Bowling Team__**"@)
            &&& crate::text::has_infix(duo_text(m), ")`"@ + "\n**_Bowler_**"@)
        },
{
    let a = "**__Batting Team__**"@ + team_lines(m.bat_team@, m.bat_logs@, m.bat_idx as nat, m.bat_team@.len());
    let n1 = "\nTotal Score: "@ + decimal(m.team_score as nat) + target_line(m.isin1, m.target) + "\n\n**__Bowling Team__**"@;
    let b = team_lines(m.bowl_team@, m.bowl_logs@, m.bowl_idx as nat, m.bowl_team@.len());
    let tt = team_text(m);
    assert(tt =~= a + n1 + b);
    assert(crate::text::window(tt, a.len() as int, n1.len() as int) =~= n1);
    let bat = m.bat_logs@[0];
    let bowl = m.bowl_logs@[0];
    let c = "**_Batsman_**"@ + "\n"@ + duo_name(m.bat_team@[0]) + " | "@ + decimal(bat.0 as nat) + " `("@ + decimal(bat.1 as nat);
    let n2 = ")`"@ + target_line(m.isin1, m.target) + "\n**_Bowler_**"@;
    let d = "\n"@ + duo_name(m.bat_team@[0]) + " | "@ + decimal(bowl.0 as nat) + " `("@ + decimal(bowl.1 as nat) + ")`"@;
    let dt = duo_text(m);
    assert(dt =~= c + n2 + d);
    assert(crate::text::window(dt, c.len() as int, n2.len() as int) =~= n2);
    if m.isin1 {
        assert(n1 =~= "\nTotal Score: "@ + decimal(m.team_score as nat) + "\n\n**__Bowling Team__**"@);
        assert(n2 =~= ")`"@ + "\n**_Bowler_**"@);
    } else if m.target is Some {
        let t = decimal(m.target.unwrap() as nat);
        assert(n1 =~= "\nTotal Score: "@ + decimal(m.team_score as nat) + "\nTarget: "@ + t + "\n\n**__Bowling Team__**"@);
        assert(n2 =~= ")`"@ + "\nTarget: "@ + t + "\n**_Bowler_**"@);
    }
}

} // verus!
