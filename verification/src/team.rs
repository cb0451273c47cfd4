//! Setting up a team match: players join by reacting to the invitation,
//! two captains draft the teams, the extra wicket of a short team gets a
//! batter, and a toss ends the setup.
use vstd::prelude::*;
use rand::Rng;
use crate::models::{Extra, HcPlayer, Profile};
use crate::status::{engage, fix_status, released, status_checked};
use crate::text::{decimal, has_infix, contains_str, push_decimal, str_eq};

verus! {

/// A reaction on the invitation of a team match.
#[derive(Debug)]
pub struct ReactionEvent {
    /// Whether the reaction was added (or removed).
    pub added: bool,
    /// The emoji's name.
    pub emoji: String,
    /// Who reacted.
    pub from: Profile,
}

/// What the bot does after a reaction.
#[derive(Debug)]
pub enum LobbyAction {
    /// The host called the match off: delete the invitation and reply.
    Cancel { reply: String },
    /// Not a reaction the lobby counts.
    Ignore,
    /// A player joined.  When they are busy in another match, `busy` is
    /// said after their reaction is removed; `announce` is said in any
    /// case.
    Joined { busy: Option<String>, announce: String },
    /// A player left.
    Left { announce: String },
}

/// The players who joined a team match so far.
#[derive(Debug)]
pub struct TeamLobby {
    /// The user who asked for the match.
    pub host: u64,
    /// The keys of the joined users, in the order they joined.
    pub joined: Vec<String>,
}

/// The first position of `key` in `v`.
pub open spec fn first_at(v: Seq<Seq<char>>, key: Seq<char>, i: int) -> bool {
    &&& 0 <= i < v.len()
    &&& v[i] == key
    &&& forall|j: int| 0 <= j < i ==> v[j] != key
}

/// The join announcement.
pub open spec fn joined_text(name: Seq<char>) -> Seq<char> {
    "☑️ **"@ + name + "** - joined the team match."@
}

/// The leave announcement.
pub open spec fn left_text(name: Seq<char>) -> Seq<char> {
    "❎ **"@ + name + "** - left the team match."@
}

/// The note on a player busy in another match.
pub open spec fn busy_text(name: Seq<char>) -> Seq<char> {
    "**"@ + name + "** is already engaged in a match."@
}

/// The reply when the host calls the match off.
pub open spec fn cancelled_text(name: Seq<char>) -> Seq<char> {
    "Team Match cancelled by **"@ + name + "**."@
}

/// `head`, `name` and `tail` joined.
fn bold_line(head: &str, name: &str, tail: &str) -> (r: String)
    ensures
        r@ == head@ + name@ + tail@,
{
    let mut s = head.to_owned();
    s.append(name);
    s.append(tail);
    s
}

/// The first position of `key` in `v`.
fn find_key(v: &Vec<String>, key: &String) -> (r: Option<usize>)
    ensures
        match r {
            Some(i) => first_at(v.deep_view(), key@, i as int),
            None => !v.deep_view().contains(key@),
        },
{
    let mut i: usize = 0;
    while i < v.len()
        invariant
            i <= v.len(),
            forall|j: int| 0 <= j < i ==> v.deep_view()[j] != key@,
        decreases v.len() - i,
    {
        if v[i] == *key {
            return Some(i);
        }
        i = i + 1;
    }
    None
}

impl TeamLobby {
    /// An empty lobby for a match that `host` asked for.
    pub fn new(host: u64) -> (r: TeamLobby)
        ensures
            r.host == host,
            r.joined@.len() == 0,
    {
        TeamLobby { host, joined: Vec::new() }
    }

    /// Handles one reaction.  The host's `❌` calls the match off and
    /// releases everyone who joined; an `enter` reaction added makes the
    /// user join (and engages them, when they are free); an `enter`
    /// reaction removed makes a joined user leave (and releases them).
    /// Other reactions are ignored.
    pub fn on_reaction(&mut self, engaged: &mut Vec<String>, ev: &ReactionEvent) -> (r: LobbyAction)
        ensures
            final(self).host == old(self).host,
            ({
                let key = decimal(ev.from.id as nat);
                let j0 = old(self).joined.deep_view();
                let e0 = old(engaged).deep_view();
                if ev.added && ev.emoji@ == "❌"@ && ev.from.id == old(self).host {
                    &&& r matches LobbyAction::Cancel { reply }
                    &&& reply@ == cancelled_text(ev.from.name@)
                    &&& final(engaged).deep_view() == released(e0, j0)
                    &&& final(self).joined.deep_view() == j0
                } else if ev.emoji@ != "enter"@ {
                    &&& r is Ignore
                    &&& final(engaged).deep_view() == e0
                    &&& final(self).joined.deep_view() == j0
                } else if ev.added {
                    &&& final(self).joined.deep_view() == j0.push(key)
                    &&& r matches LobbyAction::Joined { busy, announce }
                    &&& announce@ == joined_text(ev.from.name@)
                    &&& (e0.contains(key) ==> (busy matches Some(b) && b@ == busy_text(ev.from.name@)))
                    &&& (e0.contains(key) ==> final(engaged).deep_view() == e0)
                    &&& (!e0.contains(key) ==> busy is None && final(engaged).deep_view() == e0.push(key))
                } else {
                    &&& r matches LobbyAction::Left { announce }
                    &&& announce@ == left_text(ev.from.name@)
                    &&& (!j0.contains(key) ==> final(self).joined.deep_view() == j0 && final(engaged).deep_view() == e0)
                    &&& (forall|i: int| first_at(j0, key, i) ==> final(self).joined.deep_view() == j0.remove(i)
                        && final(engaged).deep_view() == released(e0, seq![key]))
                }
            }),
    {
        let key = crate::hc::user_key(ev.from.id);
        let name = ev.from.name.as_str();
        if ev.added && str_eq(ev.emoji.as_str(), "❌") && ev.from.id == self.host {
            fix_status(engaged, &self.joined);
            return LobbyAction::Cancel { reply: bold_line("Team Match cancelled by **", name, "**.") };
        }
        if !str_eq(ev.emoji.as_str(), "enter") {
            return LobbyAction::Ignore;
        }
        if ev.added {
            let ghost j0 = self.joined.deep_view();
            self.joined.push(key.clone());
            assert(self.joined.deep_view() =~= j0.push(key@));
            let mut one: Vec<String> = Vec::new();
            one.push(key);
            let ghost e0 = engaged.deep_view();
            let res = engage(engaged, &one);
            let busy = if res.is_err() {
                proof {
                    if !e0.contains(one.deep_view()[0]) {
                        assert(status_checked(res, e0, one.deep_view()));
                        let k = choose|k: int| crate::status::first_engaged_at(e0, one.deep_view(), k);
                        assert(k == 0);
                    }
                }
                Some(bold_line("**", name, "** is already engaged in a match."))
            } else {
                proof {
                    assert(crate::status::all_free(e0, one.deep_view()));
                    assert(one.deep_view()[0] == key@);
                    assert(one.deep_view() =~= seq![key@]);
                }
                None
            };
            LobbyAction::Joined { busy, announce: bold_line("☑️ **", name, "** - joined the team match.") }
        } else {
            match find_key(&self.joined, &key) {
                Some(idx) => {
                    let mut one: Vec<String> = Vec::new();
                    one.push(self.joined[idx].clone());
                    assert(one.deep_view() =~= seq![key@]);
                    fix_status(engaged, &one);
                    let ghost j0 = self.joined.deep_view();
                    self.joined.remove(idx);
                    assert(self.joined.deep_view() =~= j0.remove(idx as int));
                    proof {
                        assert forall|i: int| first_at(j0, key@, i) implies i == idx by {
                            if i < idx { assert(j0[i] == key@); }
                            if i > idx { assert(j0[idx as int] == key@); }
                        }
                    }
                },
                None => {},
            }
            LobbyAction::Left { announce: bold_line("❎ **", name, "** - left the team match.") }
        }
    }
}

} // verus!

verus! {

/// A user who reacted to join, and whether the user is a bot.
#[derive(Debug)]
pub struct Reactor {
    pub user: Profile,
    pub bot: bool,
}

/// The users among the reactors that are not bots, in order.
pub open spec fn humans(rs: Seq<Reactor>) -> Seq<Profile>
    decreases rs.len(),
{
    if rs.len() == 0 {
        Seq::empty()
    } else {
        let h = humans(rs.drop_last());
        if !rs.last().bot {
            h.push(rs.last().user)
        } else {
            h
        }
    }
}

/// The slots of a team match: one per user, and the extra wicket when the
/// count is odd.
pub open spec fn roster_of(users: Seq<Profile>) -> Seq<HcPlayer> {
    Seq::new(users.len(), |i: int| HcPlayer::U(users[i])) + (if users.len() % 2 == 1 {
        seq![HcPlayer::E(Extra(None))]
    } else {
        Seq::empty()
    })
}

/// The reply when too many users joined.
pub open spec fn too_many_text() -> Seq<char> {
    "A maximum of 22 players can play a team match at once. The count is too high! Try with a fewer members."@
}

/// The reply when too few users joined.
pub open spec fn too_few_text() -> Seq<char> {
    "Aw poor, a minimum of 3 players are required to start a team match."@
}

/// The players of a team match from the users who reacted: bots do not
/// count; 3 to 22 players can play; an odd count gets the extra wicket.
pub fn team_roster(reactors: &Vec<Reactor>) -> (r: Result<(Vec<Profile>, Vec<HcPlayer>), String>)
    ensures
        ({
            let hs = humans(reactors@);
            if hs.len() > 22 {
                r matches Err(e) && e@ == too_many_text()
            } else if hs.len() < 3 {
                r matches Err(e) && e@ == too_few_text()
            } else {
                r matches Ok((users, roster)) && users@ == hs && roster@ == roster_of(hs)
            }
        }),
{
    let mut users: Vec<Profile> = Vec::new();
    let mut k: usize = 0;
    while k < reactors.len()
        invariant
            k <= reactors.len(),
            users@ == humans(reactors@.take(k as int)),
        decreases reactors.len() - k,
    {
        proof {
            let t = reactors@.take(k + 1);
            assert(t.drop_last() =~= reactors@.take(k as int));
        }
        if !reactors[k].bot {
            users.push(reactors[k].user.duplicate());
        }
        k = k + 1;
    }
    assert(reactors@.take(reactors.len() as int) =~= reactors@);
    if users.len() > 22 {
        return Err("A maximum of 22 players can play a team match at once. The count is too high! Try with a fewer members.".to_owned());
    } else if users.len() < 3 {
        return Err("Aw poor, a minimum of 3 players are required to start a team match.".to_owned());
    }
    let mut roster: Vec<HcPlayer> = Vec::new();
    let mut i: usize = 0;
    while i < users.len()
        invariant
            i <= users.len(),
            roster@ == Seq::new(i as nat, |j: int| HcPlayer::U(users@[j])),
        decreases users.len() - i,
    {
        roster.push(HcPlayer::U(users[i].duplicate()));
        assert(roster@ =~= Seq::new((i + 1) as nat, |j: int| HcPlayer::U(users@[j])));
        i = i + 1;
    }
    if users.len() % 2 == 1 {
        roster.push(HcPlayer::E(Extra(None)));
    }
    assert(roster@ =~= roster_of(users@));
    Ok((users, roster))
}

/// A number below `bound`, drawn at random (`rand::Rng::gen_range(0..bound)`
/// on the thread's generator), with the bound of the range it was drawn
/// from.  The draw is not named: it differs from call to call; the
/// contract says only that it lies in the range.
#[verifier::external_body]
fn random_below(bound: usize) -> (r: (usize, Ghost<usize>))
    requires
        bound > 0,
    ensures
        r.1@ == bound,
        r.0 < bound,
{
    (rand::thread_rng().gen_range(0..bound), Ghost(bound))
}

/// A random truth value (`rand::random::<bool>`); nothing is promised of
/// it.
#[verifier::external_body]
fn random_bool() -> (r: bool) {
    rand::random::<bool>()
}

/// Draws the position of the first captain among `count` users, at random
/// below `count - 2` (the bound comes back beside the draw); the second
/// captain is the next user, and the position after that exists too.
pub fn draw_captain_slot(count: usize) -> (r: (usize, Ghost<usize>))
    requires
        count >= 3,
    ensures
        r.1@ == count - 2,
        r.0 < r.1@,
{
    random_below(count - 2)
}

/// Flips the toss of a team match: whether the first captain's team wins.
pub fn flip_toss() -> (r: bool) {
    random_bool()
}

/// The name of a slot in the lists of available players.
pub open spec fn slot_name(p: HcPlayer) -> Seq<char> {
    match p {
        HcPlayer::U(u) => u.name@,
        HcPlayer::E(_) => "Extrawicket"@,
    }
}

/// The list of the slots at `idxs`, one name and `,` per line.
pub open spec fn avail_text(roster: Seq<HcPlayer>, idxs: Seq<usize>) -> Seq<char>
    decreases idxs.len(),
{
    if idxs.len() == 0 {
        Seq::empty()
    } else {
        avail_text(roster, idxs.drop_last()) + slot_name(roster[idxs.last() as int]) + ",\n"@
    }
}

/// All of `idxs` are positions in a sequence of length `n`.
pub open spec fn indices_below(idxs: Seq<usize>, n: nat) -> bool {
    forall|k: int| 0 <= k < idxs.len() ==> #[trigger] idxs[k] < n
}

/// The positions `0..n`.
pub open spec fn positions(n: nat) -> Seq<usize> {
    Seq::new(n, |i: int| i as usize)
}

/// The draft of the two teams.  `pool` holds the positions in `roster` of
/// the players still to pick; `team1` and `team2` the entries the captains
/// got.
#[derive(Debug)]
pub struct Draft {
    pub users: Vec<Profile>,
    pub roster: Vec<HcPlayer>,
    pub pool: Vec<usize>,
    pub team1: Vec<usize>,
    pub team2: Vec<usize>,
    pub cap1: usize,
    pub cap2: usize,
    /// Whether the first captain picks next.
    pub turn1: bool,
}

/// Lists the names of the slots at `idxs`.
pub fn avail_list(roster: &Vec<HcPlayer>, idxs: &Vec<usize>) -> (r: String)
    requires
        indices_below(idxs@, roster@.len()),
    ensures
        r@ == avail_text(roster@, idxs@),
{
    let mut s = String::new();
    let mut k: usize = 0;
    while k < idxs.len()
        invariant
            k <= idxs.len(),
            indices_below(idxs@, roster@.len()),
            s@ == avail_text(roster@, idxs@.take(k as int)),
        decreases idxs.len() - k,
    {
        proof {
            let t = idxs@.take(k + 1);
            assert(t.drop_last() =~= idxs@.take(k as int));
        }
        assert(idxs@[k as int] < roster@.len());
        match &roster[idxs[k]] {
            HcPlayer::U(u) => s.append(u.name.as_str()),
            HcPlayer::E(_) => s.append("Extrawicket"),
        }
        s.append(",\n");
        k = k + 1;
    }
    assert(idxs@.take(idxs.len() as int) =~= idxs@);
    s
}

impl Draft {
    /// The draft is consistent: the roster is the users' slots (the last
    /// one may be the extra wicket), every position is a slot, the
    /// captains are users, and every slot counts once among the pool and
    /// the teams.
    pub open spec fn wf(&self) -> bool {
        &&& self.users@.len() <= self.roster@.len() <= self.users@.len() + 1
        &&& forall|k: int| 0 <= k < self.users@.len() ==> self.roster@[k] == HcPlayer::U(#[trigger] self.users@[k])
        &&& self.roster@.len() == self.users@.len() + 1 ==> self.roster@.last() is E
        &&& indices_below(self.pool@, self.roster@.len())
        &&& indices_below(self.team1@, self.roster@.len())
        &&& indices_below(self.team2@, self.roster@.len())
        &&& self.cap1 < self.users@.len()
        &&& self.cap2 < self.users@.len()
        &&& self.pool@.len() + self.team1@.len() + self.team2@.len() == self.roster@.len()
    }

    /// The team a captain picks for.
    pub open spec fn team(&self, first: bool) -> Seq<usize> {
        if first { self.team1@ } else { self.team2@ }
    }

    /// A captain.
    pub open spec fn captain(&self, first: bool) -> Profile {
        if first { self.users@[self.cap1 as int] } else { self.users@[self.cap2 as int] }
    }

    /// Starts the draft with the captains at `num` and `num + 1`: the
    /// first captain's team gets the player at `num`; the second team gets
    /// the player at position `num + 1` of the pool that is left, which is
    /// the one at `num + 2`.  Gives the announcement of the captains.
    pub fn new(users: Vec<Profile>, roster: Vec<HcPlayer>, num: usize) -> (r: (Draft, String))
        requires
            num + 2 < users@.len(),
            users@.len() <= 22,
            roster@ == roster_of(users@),
        ensures
            r.0.wf(),
            r.0.users@ == users@,
            r.0.roster@ == roster@,
            r.0.pool@ == positions(roster@.len()).remove(num as int).remove(num + 1),
            r.0.team1@ == seq![num],
            r.0.team2@ == seq![(num + 2) as usize],
            r.0.cap1 == num,
            r.0.cap2 == num + 1,
            r.0.turn1,
            r.1@ == "Teaming: We got,\n Captain 1: **"@ + users@[num as int].name@ + "**\n Captain 2: **"@
                + users@[num + 1].name@ + "**."@,
    {
        let n = roster.len();
        let mut pool: Vec<usize> = Vec::new();
        let mut i: usize = 0;
        while i < n
            invariant
                i <= n,
                n == roster@.len(),
                pool@ == positions(i as nat),
            decreases n - i,
        {
            pool.push(i);
            assert(pool@ =~= positions((i + 1) as nat));
            i = i + 1;
        }
        let ghost all = pool@;
        let first = pool.remove(num);
        let ghost after = pool@;
        let second = pool.remove(num + 1);
        assert(after[num + 1] == all[num + 2]);
        let mut team1: Vec<usize> = Vec::new();
        team1.push(first);
        let mut team2: Vec<usize> = Vec::new();
        team2.push(second);
        let mut s = "Teaming: We got,\n Captain 1: **".to_owned();
        s.append(users[num].name.as_str());
        s.append("**\n Captain 2: **");
        s.append(users[num + 1].name.as_str());
        s.append("**.");
        let d = Draft { users, roster, pool, team1, team2, cap1: num, cap2: num + 1, turn1: true };
        proof {
            assert forall|k: int| 0 <= k < d.pool@.len() implies #[trigger] d.pool@[k] < d.roster@.len() by {
                if k < num {
                    assert(d.pool@[k] == all[k]);
                } else if k < num + 1 {
                    assert(d.pool@[k] == all[k + 1]);
                } else {
                    assert(d.pool@[k] == all[k + 2]);
                }
            }
            assert(d.roster@.len() == d.users@.len() + 1 ==> d.roster@.last() is E);
        }
        (d, s)
    }

    /// The message that asks a captain to pick.
    pub fn pick_prompt(&self, first: bool) -> (r: String)
        requires
            self.wf(),
        ensures
            r@ == "Choose your team member by pinging: <@"@ + decimal(self.captain(first).id as nat)
                + ">, available players are:\n"@ + avail_text(self.roster@, self.pool@),
    {
        let cap = if first { &self.users[self.cap1] } else { &self.users[self.cap2] };
        let mut s = "Choose your team member by pinging: <@".to_owned();
        push_decimal(&mut s, cap.id as u128);
        s.append(">, available players are:\n");
        let avail = avail_list(&self.roster, &self.pool);
        s.append(avail.as_str());
        s
    }

    /// The reply to a pick that names nobody in the pool.
    pub fn pick_retry(&self) -> (r: String)
        requires
            self.wf(),
        ensures
            r@ == "That is not a player available for pick. Try again from\n "@ + avail_text(self.roster@, self.pool@),
    {
        let mut s = "That is not a player available for pick. Try again from\n ".to_owned();
        let avail = avail_list(&self.roster, &self.pool);
        s.append(avail.as_str());
        s
    }

    /// The error a setup stops with when a captain does not answer.
    pub fn timeout_error(&self, first: bool) -> (r: String)
        requires
            self.wf(),
        ensures
            r@ == "res: "@ + self.captain(first).name@,
    {
        let cap = if first { &self.users[self.cap1] } else { &self.users[self.cap2] };
        let mut s = "res: ".to_owned();
        s.append(cap.name.as_str());
        s
    }
}

/// A reply that mentions `mention` and reads `content` names the slot:
/// the user with that id, or the extra wicket when the text says `extra`.
pub open spec fn names_slot(p: HcPlayer, mention: u64, content: Seq<char>) -> bool {
    match p {
        HcPlayer::U(u) => u.id == mention,
        HcPlayer::E(_) => has_infix(content, "extra"@),
    }
}

impl Draft {
    /// The position in the pool of the player a captain's reply names: the
    /// first whose slot the reply names.
    pub fn pick_target(&self, mention: u64, content: &str) -> (r: Option<usize>)
        requires
            self.wf(),
        ensures
            match r {
                Some(j) => j < self.pool@.len() && names_slot(self.roster@[self.pool@[j as int] as int], mention, content@)
                    && forall|k: int| 0 <= k < j ==> !names_slot(self.roster@[#[trigger] self.pool@[k] as int], mention, content@),
                None => forall|k: int| 0 <= k < self.pool@.len() ==> !names_slot(self.roster@[#[trigger] self.pool@[k] as int], mention, content@),
            },
    {
        let says_extra = contains_str(content, "extra");
        let mut j: usize = 0;
        while j < self.pool.len()
            invariant
                self.wf(),
                j <= self.pool@.len(),
                says_extra == has_infix(content@, "extra"@),
                forall|k: int| 0 <= k < j ==> !names_slot(self.roster@[#[trigger] self.pool@[k] as int], mention, content@),
            decreases self.pool@.len() - j,
        {
            assert(self.pool@[j as int] < self.roster@.len());
            let hit = match &self.roster[self.pool[j]] {
                HcPlayer::U(u) => u.id == mention,
                HcPlayer::E(_) => says_extra,
            };
            if hit {
                return Some(j);
            }
            j = j + 1;
        }
        None
    }

    /// Records a captain's pick of the player at position `pos` of the
    /// pool: the player leaves the pool, and the team gets the entry `pos`,
    /// the position in the pool (not the player's slot in the roster).
    pub fn apply_pick(&mut self, first: bool, pos: usize)
        requires
            old(self).wf(),
            pos < old(self).pool@.len(),
        ensures
            final(self).wf(),
            final(self).users@ == old(self).users@,
            final(self).roster@ == old(self).roster@,
            final(self).cap1 == old(self).cap1,
            final(self).cap2 == old(self).cap2,
            final(self).turn1 == old(self).turn1,
            final(self).pool@ == old(self).pool@.remove(pos as int),
            final(self).team(first) == old(self).team(first).push(pos),
            final(self).team(!first) == old(self).team(!first),
    {
        let ghost p0 = self.pool@;
        self.pool.remove(pos);
        if first {
            self.team1.push(pos);
        } else {
            self.team2.push(pos);
        }
        proof {
            assert forall|k: int| 0 <= k < self.pool@.len() implies #[trigger] self.pool@[k] < self.roster@.len() by {
                if k < pos { assert(self.pool@[k] == p0[k]); } else { assert(self.pool@[k] == p0[k + 1]); }
            }
        }
    }

    /// The last player in the pool goes to the picking captain's team
    /// without a prompt.
    pub fn take_last(&mut self, first: bool)
        requires
            old(self).wf(),
            old(self).pool@.len() == 1,
        ensures
            final(self).wf(),
            final(self).users@ == old(self).users@,
            final(self).roster@ == old(self).roster@,
            final(self).cap1 == old(self).cap1,
            final(self).cap2 == old(self).cap2,
            final(self).turn1 == old(self).turn1,
            final(self).pool@.len() == 0,
            final(self).team(first) == old(self).team(first).push(old(self).pool@[0]),
            final(self).team(!first) == old(self).team(!first),
    {
        let ghost p0 = self.pool@;
        let x = self.pool.remove(0);
        assert(x == p0[0]);
        assert(x < self.roster@.len());
        if first {
            self.team1.push(x);
        } else {
            self.team2.push(x);
        }
    }
}

} // verus!

verus! {

/// The slots at `idxs`, in order.
pub open spec fn slots_at(roster: Seq<HcPlayer>, idxs: Seq<usize>) -> Seq<HcPlayer> {
    Seq::new(idxs.len(), |k: int| roster[idxs[k] as int])
}

/// A line-up follows the team's entries: it has one slot per entry, and
/// its `k`-th slot is the roster slot at the team's `k`-th entry, so the
/// captain's entry comes first and the picks follow in pick order.
pub proof fn lemma_line_up_follows_entries(roster: Seq<HcPlayer>, idxs: Seq<usize>)
    ensures
        slots_at(roster, idxs).len() == idxs.len(),
        forall|k: int| 0 <= k < idxs.len() ==> #[trigger] slots_at(roster, idxs)[k] == roster[idxs[k] as int],
{
}

impl Draft {
    /// Whether the last slot is the extra wicket; if so, whether it is in
    /// the first team.
    pub fn extra_team(&self) -> (r: Option<bool>)
        requires
            self.wf(),
        ensures
            match r {
                Some(et1) => self.roster@.len() > 0 && self.roster@.last() is E
                    && et1 == self.team1@.contains((self.roster@.len() - 1) as usize),
                None => self.roster@.len() == 0 || !(self.roster@.last() is E),
            },
    {
        let n = self.roster.len();
        if n == 0 {
            return None;
        }
        match &self.roster[n - 1] {
            HcPlayer::E(_) => {
                let last = n - 1;
                let mut found = false;
                let mut k: usize = 0;
                while k < self.team1.len()
                    invariant
                        k <= self.team1@.len(),
                        found == exists|j: int| 0 <= j < k && self.team1@[j] == last,
                    decreases self.team1@.len() - k,
                {
                    if self.team1[k] == last {
                        found = true;
                    }
                    k = k + 1;
                }
                Some(found)
            },
            HcPlayer::U(_) => None,
        }
    }

    /// The message that asks the captain of the short team who bats for
    /// the extra wicket.
    pub fn extra_prompt(&self, et1: bool) -> (r: String)
        requires
            self.wf(),
        ensures
            r@ == "<@"@ + decimal(self.captain(et1).id as nat)
                + ">, Who is going to play Extrawicket in your team? Ping them. Team members are:\n"@
                + avail_text(self.roster@, self.team(et1)),
    {
        let cap = if et1 { &self.users[self.cap1] } else { &self.users[self.cap2] };
        let mut s = "<@".to_owned();
        push_decimal(&mut s, cap.id as u128);
        s.append(">, Who is going to play Extrawicket in your team? Ping them. Team members are:\n");
        let avail = if et1 { avail_list(&self.roster, &self.team1) } else { avail_list(&self.roster, &self.team2) };
        s.append(avail.as_str());
        s
    }

    /// The reply to a choice of the extra batter that names nobody in the
    /// team.
    pub fn extra_retry(&self, et1: bool) -> (r: String)
        requires
            self.wf(),
        ensures
            r@ == "Mentioned player is not valid player in your team. Team members are:\n"@ + avail_text(self.roster@, self.team(et1)),
    {
        let mut s = "Mentioned player is not valid player in your team. Team members are:\n".to_owned();
        let avail = if et1 { avail_list(&self.roster, &self.team1) } else { avail_list(&self.roster, &self.team2) };
        s.append(avail.as_str());
        s
    }

    /// The user the captain named to bat for the extra wicket: the first
    /// user with the mentioned id, when the team's entries hold that user's
    /// position.
    pub fn extra_target(&self, et1: bool, mention: u64) -> (r: Option<usize>)
        requires
            self.wf(),
        ensures
            match r {
                Some(i) => i < self.users@.len() && self.users@[i as int].id == mention
                    && (forall|j: int| 0 <= j < i ==> (#[trigger] self.users@[j]).id != mention)
                    && self.team(et1).contains(i),
                None => forall|i: int| 0 <= i < self.users@.len() && (#[trigger] self.users@[i]).id == mention
                    && (forall|j: int| 0 <= j < i ==> (#[trigger] self.users@[j]).id != mention)
                    ==> !self.team(et1).contains(i as usize),
            },
    {
        let mut i: usize = 0;
        while i < self.users.len()
            invariant
                i <= self.users@.len(),
                forall|j: int| 0 <= j < i ==> (#[trigger] self.users@[j]).id != mention,
            decreases self.users@.len() - i,
        {
            if self.users[i].id == mention {
                let team = if et1 { &self.team1 } else { &self.team2 };
                let mut k: usize = 0;
                while k < team.len()
                    invariant
                        k <= team@.len(),
                        team@ == self.team(et1),
                        i < self.users@.len(),
                        self.users@[i as int].id == mention,
                        forall|j: int| 0 <= j < i ==> (#[trigger] self.users@[j]).id != mention,
                        forall|j: int| 0 <= j < k ==> team@[j] != i,
                    decreases team@.len() - k,
                {
                    if team[k] == i {
                        assert(team@[k as int] == i);
                        return Some(i);
                    }
                    k = k + 1;
                }
                return None;
            }
            i = i + 1;
        }
        None
    }

    /// Names user `i` as the batter of the extra wicket.
    pub fn assign_extra(&mut self, i: usize)
        requires
            old(self).wf(),
            i < old(self).users@.len(),
            old(self).roster@.len() == old(self).users@.len() + 1,
        ensures
            final(self).wf(),
            final(self).users@ == old(self).users@,
            final(self).pool@ == old(self).pool@,
            final(self).team1@ == old(self).team1@,
            final(self).team2@ == old(self).team2@,
            final(self).cap1 == old(self).cap1,
            final(self).cap2 == old(self).cap2,
            final(self).turn1 == old(self).turn1,
            final(self).roster@ == old(self).roster@.update(
                old(self).roster@.len() - 1,
                HcPlayer::E(Extra(Some(old(self).users@[i as int]))),
            ),
    {
        let last = self.roster.len() - 1;
        let p = self.users[i].duplicate();
        self.roster.set(last, HcPlayer::E(Extra(Some(p))));
    }

    /// The message that asks the toss winner's captain to choose.
    pub fn toss_prompt(&self, is1win: bool) -> (r: String)
        requires
            self.wf(),
        ensures
            r@ == "<@"@ + decimal(self.captain(is1win).id as nat) + ">'s team won the toss, choose:"@,
    {
        let cap = if is1win { &self.users[self.cap1] } else { &self.users[self.cap2] };
        let mut s = "<@".to_owned();
        push_decimal(&mut s, cap.id as u128);
        s.append(">'s team won the toss, choose:");
        s
    }

    /// The teams after the toss: none when the winning captain did not
    /// answer (the setup stops with `res: <captain>`).  Whatever the
    /// answer, the first captain's team bats and the second bowls.
    pub fn line_up(&self, is1win: bool, answer: Option<&str>) -> (r: Result<(Vec<HcPlayer>, Vec<HcPlayer>), String>)
        requires
            self.wf(),
        ensures
            answer is None ==> (r matches Err(e) && e@ == "res: "@ + self.captain(is1win).name@),
            answer is Some ==> (r matches Ok((bat, bowl)) && bat@ == slots_at(self.roster@, self.team1@)
                && bowl@ == slots_at(self.roster@, self.team2@)),
            answer is Some ==> (r matches Ok((bat, bowl)) && bat@.len() == self.team1@.len()
                && bowl@.len() == self.team2@.len()
                && (forall|k: int| 0 <= k < bat@.len() ==> #[trigger] bat@[k] == self.roster@[self.team1@[k] as int])
                && (forall|k: int| 0 <= k < bowl@.len() ==> #[trigger] bowl@[k] == self.roster@[self.team2@[k] as int])),
    {
        match answer {
            None => Err(self.timeout_error(is1win)),
            Some(_) => Ok((self.team_slots(true), self.team_slots(false))),
        }
    }

    /// The slots of a team, in the order of its entries.
    pub fn team_slots(&self, first: bool) -> (r: Vec<HcPlayer>)
        requires
            self.wf(),
        ensures
            r@ == slots_at(self.roster@, self.team(first)),
            r@.len() == self.team(first).len(),
            forall|k: int| 0 <= k < r@.len() ==> #[trigger] r@[k] == self.roster@[self.team(first)[k] as int],
    {
        let team = if first { &self.team1 } else { &self.team2 };
        let mut out: Vec<HcPlayer> = Vec::new();
        let mut k: usize = 0;
        while k < team.len()
            invariant
                self.wf(),
                team@ == self.team(first),
                k <= team@.len(),
                out@ == slots_at(self.roster@, team@.take(k as int)),
            decreases team@.len() - k,
        {
            assert(team@[k as int] < self.roster@.len());
            out.push(self.roster[team[k]].duplicate());
            assert(out@ =~= slots_at(self.roster@, team@.take(k + 1)));
            k = k + 1;
        }
        assert(team@.take(team@.len() as int) =~= team@);
        out
    }
}

/// The message that announces the toss of a team match.
pub fn toss_notice(toss_emoji: &str) -> (r: String)
    ensures
        r@ == "Teaming is done, let's flip the toss... "@ + toss_emoji@,
{
    let mut s = "Teaming is done, let's flip the toss... ".to_owned();
    s.append(toss_emoji);
    s
}

} // verus!

verus! {

/// A reply in the channel during the draft: the first user it mentions,
/// if any, and its text.
#[derive(Debug)]
pub struct Reply {
    pub mention: Option<u64>,
    pub content: String,
}

/// How the draft stands after a reply.
#[derive(Debug)]
pub enum PickOutcome {
    /// The pick was made.
    Picked,
    /// The reply mentions nobody; keep waiting.
    Ignored,
    /// The reply names nobody who can be picked: answer it and keep waiting.
    Retry { reply: String },
    /// The captain did not answer in time: the setup stops with this error.
    TimedOut { error: String },
}

/// How a captain's turn starts.
#[derive(Debug)]
pub enum TurnStart {
    /// Nobody is left to pick.
    Finished,
    /// The last player went to the captain's team without a prompt.
    AutoPicked,
    /// Ask the captain with this message.
    Prompt { text: String },
}

impl Draft {
    /// Starts the next captain's turn: the draft is over when the pool is
    /// empty; the last player needs no prompt; otherwise the captain is
    /// asked to pick.
    pub fn begin_turn(&mut self) -> (r: TurnStart)
        requires
            old(self).wf(),
        ensures
            final(self).wf(),
            final(self).users@ == old(self).users@,
            final(self).roster@ == old(self).roster@,
            final(self).cap1 == old(self).cap1,
            final(self).cap2 == old(self).cap2,
            old(self).pool@.len() == 0 ==> r is Finished && *final(self) == *old(self),
            old(self).pool@.len() == 1 ==> r is AutoPicked && final(self).pool@.len() == 0
                && final(self).team(old(self).turn1) == old(self).team(old(self).turn1).push(old(self).pool@[0])
                && final(self).team(!old(self).turn1) == old(self).team(!old(self).turn1)
                && final(self).turn1 == !old(self).turn1,
            old(self).pool@.len() >= 2 ==> (r matches TurnStart::Prompt { text } && *final(self) == *old(self)
                && text@ == "Choose your team member by pinging: <@"@ + decimal(old(self).captain(old(self).turn1).id as nat)
                    + ">, available players are:\n"@ + avail_text(old(self).roster@, old(self).pool@)),
    {
        if self.pool.len() == 0 {
            TurnStart::Finished
        } else if self.pool.len() == 1 {
            let t = self.turn1;
            self.take_last(t);
            self.turn1 = !t;
            TurnStart::AutoPicked
        } else {
            TurnStart::Prompt { text: self.pick_prompt(self.turn1) }
        }
    }

    /// Handles a reply to the captain whose turn it is: a reply that names
    /// a player in the pool makes the pick and ends the turn.
    pub fn answer_pick(&mut self, reply: Option<&Reply>) -> (r: PickOutcome)
        requires
            old(self).wf(),
            old(self).pool@.len() >= 2,
        ensures
            final(self).wf(),
            final(self).users@ == old(self).users@,
            final(self).roster@ == old(self).roster@,
            final(self).cap1 == old(self).cap1,
            final(self).cap2 == old(self).cap2,
            match reply {
                None => (r matches PickOutcome::TimedOut { error } && error@ == "res: "@ + old(self).captain(old(self).turn1).name@)
                    && *final(self) == *old(self),
                Some(rp) => match rp.mention {
                    None => r is Ignored && *final(self) == *old(self),
                    Some(m) => {
                        ||| (r matches PickOutcome::Retry { reply } && reply@ == "That is not a player available for pick. Try again from\n "@
                            + avail_text(old(self).roster@, old(self).pool@) && *final(self) == *old(self)
                            && forall|k: int| 0 <= k < old(self).pool@.len() ==> !names_slot(old(self).roster@[#[trigger] old(self).pool@[k] as int], m, rp.content@))
                        ||| exists|j: int| {
                            &&& 0 <= j < old(self).pool@.len()
                            &&& names_slot(old(self).roster@[old(self).pool@[j] as int], m, rp.content@)
                            &&& forall|k: int| 0 <= k < j ==> !names_slot(old(self).roster@[#[trigger] old(self).pool@[k] as int], m, rp.content@)
                            &&& r is Picked
                            &&& final(self).pool@ == old(self).pool@.remove(j)
                            &&& final(self).team(old(self).turn1) == old(self).team(old(self).turn1).push(j as usize)
                            &&& final(self).team(!old(self).turn1) == old(self).team(!old(self).turn1)
                            &&& final(self).turn1 == !old(self).turn1
                        }
                    },
                },
            },
    {
        match reply {
            None => PickOutcome::TimedOut { error: self.timeout_error(self.turn1) },
            Some(rp) => match rp.mention {
                None => PickOutcome::Ignored,
                Some(m) => match self.pick_target(m, rp.content.as_str()) {
                    Some(j) => {
                        let t = self.turn1;
                        self.apply_pick(t, j);
                        self.turn1 = !t;
                        PickOutcome::Picked
                    },
                    None => PickOutcome::Retry { reply: self.pick_retry() },
                },
            },
        }
    }

    /// Handles a reply to the captain of the short team about who bats for
    /// the extra wicket: a mention of a user whom the team's entries hold
    /// settles it.
    pub fn answer_extra(&mut self, et1: bool, reply: Option<&Reply>) -> (r: PickOutcome)
        requires
            old(self).wf(),
            old(self).roster@.len() == old(self).users@.len() + 1,
        ensures
            final(self).wf(),
            final(self).users@ == old(self).users@,
            final(self).pool@ == old(self).pool@,
            final(self).team1@ == old(self).team1@,
            final(self).team2@ == old(self).team2@,
            final(self).cap1 == old(self).cap1,
            final(self).cap2 == old(self).cap2,
            final(self).turn1 == old(self).turn1,
            match reply {
                None => (r matches PickOutcome::TimedOut { error } && error@ == "res: "@ + old(self).captain(et1).name@)
                    && *final(self) == *old(self),
                Some(rp) => match rp.mention {
                    None => r is Ignored && *final(self) == *old(self),
                    Some(m) => {
                        ||| (r matches PickOutcome::Retry { reply } && reply@ == "Mentioned player is not valid player in your team. Team members are:\n"@
                            + avail_text(old(self).roster@, old(self).team(et1)) && *final(self) == *old(self)
                            && forall|i: int| 0 <= i < old(self).users@.len() && (#[trigger] old(self).users@[i]).id == m
                                && (forall|j: int| 0 <= j < i ==> (#[trigger] old(self).users@[j]).id != m)
                                ==> !old(self).team(et1).contains(i as usize))
                        ||| exists|i: int| {
                            &&& 0 <= i < old(self).users@.len()
                            &&& old(self).users@[i].id == m
                            &&& forall|j: int| 0 <= j < i ==> (#[trigger] old(self).users@[j]).id != m
                            &&& old(self).team(et1).contains(i as usize)
                            &&& r is Picked
                            &&& final(self).roster@ == old(self).roster@.update(
                                old(self).roster@.len() - 1,
                                HcPlayer::E(Extra(Some(old(self).users@[i]))),
                            )
                        }
                    },
                },
            },
    {
        match reply {
            None => PickOutcome::TimedOut { error: self.timeout_error(et1) },
            Some(rp) => match rp.mention {
                None => PickOutcome::Ignored,
                Some(m) => match self.extra_target(et1, m) {
                    Some(i) => {
                        self.assign_extra(i);
                        PickOutcome::Picked
                    },
                    None => PickOutcome::Retry { reply: self.extra_retry(et1) },
                },
            },
        }
    }
}

} // verus!

verus! {

/// The invitation to join the team match of `host_name`.
pub fn team_invite_text(host_name: &str) -> (r: String)
    ensures
        r@ == "React to join **"@ + host_name@ + "**'s handcricket match."@,
{
    bold_line("React to join **", host_name, "**'s handcricket match.")
}

} // verus!
