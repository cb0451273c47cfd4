//! The `hc` command: what a request to play asks for, and the answer to a
//! profile lookup.
use vstd::prelude::*;
use crate::text::{decimal, to_decimal, str_eq};

verus! {

/// What an `hc` request asks for.
#[derive(Debug, Clone, Copy, PartialEq, Eq, Structural)]
pub enum HcPlan {
    /// A team match.
    Team,
    /// A duo match against the first mentioned user.
    Duo { opponent: u64 },
}

/// The plan of an `hc` request, or the error it ends with.
pub open spec fn hc_plan(sub_cmd: Seq<char>, author: u64, mentions: Seq<u64>) -> Result<HcPlan, Seq<char>> {
    if sub_cmd == "team"@ {
        Ok(HcPlan::Team)
    } else if mentions.len() == 0 {
        Err("syntax"@)
    } else if mentions[0] == author {
        Err("self_mention"@)
    } else {
        Ok(HcPlan::Duo { opponent: mentions[0] })
    }
}

/// Decides what `hc <sub_cmd>` from `author` asks for: `team` is a team
/// match; anything else is a duo match against the first mentioned user,
/// which fails with `syntax` when nobody is mentioned and with
/// `self_mention` when the author mentions themself.
pub fn plan_hc(sub_cmd: &str, author: u64, mentions: &Vec<u64>) -> (r: Result<HcPlan, String>)
    ensures
        match r {
            Ok(p) => hc_plan(sub_cmd@, author, mentions@) == Ok::<HcPlan, Seq<char>>(p),
            Err(e) => hc_plan(sub_cmd@, author, mentions@) == Err::<HcPlan, Seq<char>>(e@),
        },
{
    if str_eq(sub_cmd, "team") {
        Ok(HcPlan::Team)
    } else if mentions.len() == 0 {
        Err("syntax".to_owned())
    } else if mentions[0] == author {
        Err("self_mention".to_owned())
    } else {
        Ok(HcPlan::Duo { opponent: mentions[0] })
    }
}

/// The key of a user in the list of engaged users: the decimal id.
pub fn user_key(id: u64) -> (r: String)
    ensures
        r@ == decimal(id as nat),
{
    to_decimal(id as u128)
}

/// The keys of the two players of a duo match, challenger first.
pub fn duo_keys(u: u64, t: u64) -> (r: Vec<String>)
    ensures
        r.deep_view() == seq![decimal(u as nat), decimal(t as nat)],
{
    let mut v: Vec<String> = Vec::new();
    v.push(user_key(u));
    v.push(user_key(t));
    assert(v.deep_view() =~= seq![decimal(u as nat), decimal(t as nat)]);
    v
}

/// The answer to a player lookup, given the first record the database
/// returned for user `id`: the record, its error, or `data: <id>` when
/// there is none.
pub fn resolve_player<P>(id: &str, first: Option<Result<P, String>>) -> (r: Result<P, String>)
    ensures
        match first {
            Some(Ok(p)) => r == Ok::<P, String>(p),
            Some(Err(e)) => r matches Err(m) && m@ == e@,
            None => r matches Err(m) && m@ == "data: "@ + id@,
        },
{
    match first {
        Some(Ok(p)) => Ok(p),
        Some(Err(why)) => Err(why),
        None => {
            let mut s = "data: ".to_owned();
            s.append(id);
            Err(s)
        },
    }
}

} // verus!
