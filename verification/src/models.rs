//! The plain data that the bot's rules work on.
use vstd::prelude::*;

verus! {

/// Key of the shared slot that holds the bot's custom emojis.
pub struct Emojis;

/// Key of the shared slot that holds the help text of every command.
pub struct Commands;

/// Key of the shared slot that holds the players' database collection.
pub struct Players;

/// How a hand-cricket match is played.
#[derive(Debug, Clone, Copy, PartialEq, Eq, Structural)]
pub struct HcOptions {
    /// Whether the scoreboard is also posted in the channel.
    pub post: bool,
    /// Wickets per innings.
    pub wickets: u8,
    /// Overs per innings.
    pub overs: u8,
}

impl HcOptions {
    /// The options of a match for which no flag was given.
    pub fn standard() -> (r: HcOptions)
        ensures
            r == (HcOptions { post: false, wickets: 1, overs: 4 }),
    {
        HcOptions { post: false, overs: 4, wickets: 1 }
    }
}

/// A Discord user as the match rules see one: the id and the display name.
#[derive(Debug)]
pub struct Profile {
    pub id: u64,
    pub name: String,
}

impl Profile {
    /// A copy of this profile.
    pub fn duplicate(&self) -> (r: Profile)
        ensures
            r == *self,
    {
        Profile { id: self.id, name: self.name.clone() }
    }
}

/// The extra wicket of a team with one player fewer: the team member who
/// bats for it, once the captain has named one.
#[derive(Debug)]
pub struct Extra(pub Option<Profile>);

/// A slot in a team: a user, or the extra wicket.
#[derive(Debug)]
pub enum HcPlayer {
    U(Profile),
    E(Extra),
}

impl HcPlayer {
    /// A copy of this slot.
    pub fn duplicate(&self) -> (r: HcPlayer)
        ensures
            r == *self,
    {
        match self {
            HcPlayer::U(p) => HcPlayer::U(p.duplicate()),
            HcPlayer::E(Extra(None)) => HcPlayer::E(Extra(None)),
            HcPlayer::E(Extra(Some(p))) => HcPlayer::E(Extra(Some(p.duplicate()))),
        }
    }
}

} // verus!
