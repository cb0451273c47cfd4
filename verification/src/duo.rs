//! Setting up a duo match: the invited player answers, the toss is
//! rolled, and the toss winner picks to bat or to bowl.
use vstd::prelude::*;
use crate::models::Profile;
use crate::text::{decimal, push_decimal, str_eq};

verus! {

/// Where the setup of a duo match stands.
#[derive(Debug, Clone, Copy, PartialEq, Eq, Structural)]
pub enum DuoStage {
    /// The invited player has not answered yet.
    AwaitingConsent,
    /// The toss was rolled; the winner has not picked yet.
    AwaitingChoice,
    /// The match started.
    Started,
    /// The match was called off.
    Cancelled,
}

/// What the bot does after an answer.
#[derive(Debug)]
pub enum DuoAction {
    /// Show the rolling toss (`rolling_text`) in place of the invitation,
    /// wait, then show `ask` with the bat and bowl buttons for the toss
    /// winner.
    Toss { ask: String, winner: u64 },
    /// Reply `reply` to the command and delete the invitation.
    Cancel { reply: String },
    /// Announce `notice` and start the match with these players.
    Start { notice: String, bat: Profile, bowl: Profile },
}

/// A duo match being set up between the challenger and the invited
/// opponent.
#[derive(Debug)]
pub struct DuoSetup {
    pub challenger: Profile,
    pub opponent: Profile,
    pub stage: DuoStage,
}

/// The answer is the button `word`.
pub open spec fn answered(answer: Option<&str>, word: Seq<char>) -> bool {
    answer matches Some(a) && a@ == word
}

/// The invitation the opponent sees.
pub open spec fn invite_text(challenger: Profile, opponent: Profile) -> Seq<char> {
    "<@"@ + decimal(opponent.id as nat) + ">, Do you want to play handcricket with **"@ + challenger.name@ + "**?"@
}

/// The message that shows the toss rolling.
pub fn rolling_text(toss_emoji: &str) -> (r: String)
    ensures
        r@ == "Rolling the toss... "@ + toss_emoji@,
{
    let mut rolling = "Rolling the toss... ".to_owned();
    rolling.append(toss_emoji);
    rolling
}

impl DuoSetup {
    /// Starts setting up a match of `challenger` against `opponent`, and
    /// gives the invitation to send.
    pub fn new(challenger: Profile, opponent: Profile) -> (r: (DuoSetup, String))
        ensures
            r.0.challenger == challenger,
            r.0.opponent == opponent,
            r.0.stage == DuoStage::AwaitingConsent,
            r.1@ == invite_text(challenger, opponent),
    {
        let mut s = "<@".to_owned();
        push_decimal(&mut s, opponent.id as u128);
        s.append(">, Do you want to play handcricket with **");
        s.append(challenger.name.as_str());
        s.append("**?");
        (DuoSetup { challenger, opponent, stage: DuoStage::AwaitingConsent }, s)
    }

    /// The opponent's answer to the invitation: the id of the button they
    /// pressed, or none when they did not answer in time.  Only `y` goes
    /// on to the toss, which the challenger always wins.
    pub fn consent(&mut self, answer: Option<&str>) -> (r: DuoAction)
        requires
            old(self).stage == DuoStage::AwaitingConsent,
        ensures
            final(self).challenger == old(self).challenger,
            final(self).opponent == old(self).opponent,
            answered(answer, "y"@) ==> {
                &&& final(self).stage == DuoStage::AwaitingChoice
                &&& r matches DuoAction::Toss { ask, winner }
                &&& ask@ == "<@"@ + decimal(old(self).challenger.id as nat) + ">, you won the toss, what do you pick?"@
                &&& winner == old(self).challenger.id
            },
            !answered(answer, "y"@) ==> {
                &&& final(self).stage == DuoStage::Cancelled
                &&& r matches DuoAction::Cancel { reply }
                &&& reply@ == old(self).opponent.name@ + " failed to give a positive response, match cancelled."@
            },
    {
        let yes = match answer {
            Some(a) => str_eq(a, "y"),
            None => false,
        };
        if yes {
            self.stage = DuoStage::AwaitingChoice;
            let mut ask = "<@".to_owned();
            push_decimal(&mut ask, self.challenger.id as u128);
            ask.append(">, you won the toss, what do you pick?");
            DuoAction::Toss { ask, winner: self.challenger.id }
        } else {
            self.stage = DuoStage::Cancelled;
            let mut reply = self.opponent.name.clone();
            reply.append(" failed to give a positive response, match cancelled.");
            DuoAction::Cancel { reply }
        }
    }

    /// The toss winner's pick: the id of the button pressed, or none when
    /// they did not answer in time.  `bat` makes the winner bat; any other
    /// answer makes them bowl.
    pub fn pick_side(&mut self, answer: Option<&str>) -> (r: DuoAction)
        requires
            old(self).stage == DuoStage::AwaitingChoice,
        ensures
            final(self).challenger == old(self).challenger,
            final(self).opponent == old(self).opponent,
            answer is None ==> {
                &&& final(self).stage == DuoStage::Cancelled
                &&& r matches DuoAction::Cancel { reply }
                &&& reply@ == old(self).challenger.name@ + " failed to give a response, match cancelled."@
            },
            answer is Some ==> {
                &&& final(self).stage == DuoStage::Started
                &&& r matches DuoAction::Start { notice, bat, bowl }
                &&& notice@ == "Match starts, move to DMs players!"@
                &&& (answered(answer, "bat"@) ==> bat == old(self).challenger && bowl == old(self).opponent)
                &&& (!answered(answer, "bat"@) ==> bat == old(self).opponent && bowl == old(self).challenger)
            },
    {
        match answer {
            None => {
                self.stage = DuoStage::Cancelled;
                let mut reply = self.challenger.name.clone();
                reply.append(" failed to give a response, match cancelled.");
                DuoAction::Cancel { reply }
            },
            Some(a) => {
                self.stage = DuoStage::Started;
                let notice = "Match starts, move to DMs players!".to_owned();
                if str_eq(a, "bat") {
                    DuoAction::Start { notice, bat: self.challenger.duplicate(), bowl: self.opponent.duplicate() }
                } else {
                    DuoAction::Start { notice, bat: self.opponent.duplicate(), bowl: self.challenger.duplicate() }
                }
            },
        }
    }
}

} // verus!
