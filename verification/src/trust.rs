//! An iterated game of trust: two agents repeatedly choose to cooperate or
//! cheat, see each other's previous action, and collect points per round.

use vstd::prelude::*;

verus! {

/// What both agents did in one round.
#[derive(Clone, Copy, Debug, PartialEq, Eq, Structural)]
pub enum RoundOutcome {
    BothCooperated,
    LeftCheated,
    RightCheated,
    BothCheated,
}

/// One agent's choice in a round.
#[derive(Clone, Copy, Debug, PartialEq, Eq, Structural)]
pub enum Action {
    Cooperate,
    Cheat,
}

/// A strategy for the game. The two spec functions pin down the action an
/// agent takes and the state it moves to, given the opponent's previous
/// action (`None` in the first round); `play_enabled` excludes the calls a
/// strategy does not support.
pub trait Agent: Sized {
    /// When the agent can be asked to play.
    spec fn play_enabled(&self, opponent_last_action: Option<Action>) -> bool;

    /// The action the agent takes.
    spec fn next_action(&self, opponent_last_action: Option<Action>) -> Action;

    /// The state the agent is in afterwards.
    spec fn next_state(&self, opponent_last_action: Option<Action>) -> Self;

    /// Plays one round.
    fn play(&mut self, opponent_last_action: Option<Action>) -> (a: Action)
        requires
            old(self).play_enabled(opponent_last_action),
        ensures
            a == old(self).next_action(opponent_last_action),
            *final(self) == old(self).next_state(opponent_last_action),
    ;
}

/// The outcome of a round in which the left agent played `la` and the right
/// agent played `ra`.
pub open spec fn outcome_of(la: Action, ra: Action) -> RoundOutcome {
    match (la, ra) {
        (Action::Cooperate, Action::Cooperate) => RoundOutcome::BothCooperated,
        (Action::Cheat, Action::Cooperate) => RoundOutcome::LeftCheated,
        (Action::Cooperate, Action::Cheat) => RoundOutcome::RightCheated,
        (Action::Cheat, Action::Cheat) => RoundOutcome::BothCheated,
    }
}

/// The points the left agent gains (or loses) for an outcome.
pub open spec fn left_points(o: RoundOutcome) -> int {
    match o {
        RoundOutcome::BothCooperated => 2,
        RoundOutcome::LeftCheated => 3,
        RoundOutcome::RightCheated => -1,
        RoundOutcome::BothCheated => 0,
    }
}

/// The points the right agent gains (or loses) for an outcome.
pub open spec fn right_points(o: RoundOutcome) -> int {
    match o {
        RoundOutcome::BothCooperated => 2,
        RoundOutcome::LeftCheated => -1,
        RoundOutcome::RightCheated => 3,
        RoundOutcome::BothCheated => 0,
    }
}

/// A running game: the two agents, their scores, and each side's previous
/// action, shown to the opponent in the next round.
pub struct Game<L: Agent, R: Agent> {
    left: L,
    left_score: i32,
    left_last_action: Option<Action>,
    right: R,
    right_score: i32,
    right_last_action: Option<Action>,
}

impl<L: Agent, R: Agent> Game<L, R> {
    /// The left agent's state.
    pub closed spec fn left_agent(&self) -> L {
        self.left
    }

    /// The right agent's state.
    pub closed spec fn right_agent(&self) -> R {
        self.right
    }

    /// The left agent's previous action, if a round was played.
    pub closed spec fn left_last(&self) -> Option<Action> {
        self.left_last_action
    }

    /// The right agent's previous action, if a round was played.
    pub closed spec fn right_last(&self) -> Option<Action> {
        self.right_last_action
    }

    /// The left agent's score so far.
    pub closed spec fn spec_left_score(&self) -> i32 {
        self.left_score
    }

    /// The right agent's score so far.
    pub closed spec fn spec_right_score(&self) -> i32 {
        self.right_score
    }

    /// Starts a game: no score, no previous actions.
    pub fn new(left: L, right: R) -> (g: Self)
        ensures
            g.left_agent() == left,
            g.right_agent() == right,
            g.spec_left_score() == 0,
            g.spec_right_score() == 0,
            g.left_last() is None,
            g.right_last() is None,
    {
        Game {
            left,
            left_score: 0,
            left_last_action: None,
            right,
            right_score: 0,
            right_last_action: None,
        }
    }

    /// The left agent's score.
    pub fn left_score(&self) -> (s: i32)
        ensures
            s == self.spec_left_score(),
    {
        self.left_score
    }

    /// The right agent's score.
    pub fn right_score(&self) -> (s: i32)
        ensures
            s == self.spec_right_score(),
    {
        self.right_score
    }

    /// Plays one round: both agents act on the opponent's previous action,
    /// the actions are remembered for the next round, and the scores move by
    /// the outcome's points.
    pub fn play_round(&mut self) -> (outcome: RoundOutcome)
        requires
            old(self).left_agent().play_enabled(old(self).right_last()),
            old(self).right_agent().play_enabled(old(self).left_last()),
            i32::MIN + 1 <= old(self).spec_left_score() <= i32::MAX - 3,
            i32::MIN + 1 <= old(self).spec_right_score() <= i32::MAX - 3,
        ensures
            ({
                let la = old(self).left_agent().next_action(old(self).right_last());
                let ra = old(self).right_agent().next_action(old(self).left_last());
                &&& outcome == outcome_of(la, ra)
                &&& final(self).left_agent() == old(self).left_agent().next_state(
                    old(self).right_last(),
                )
                &&& final(self).right_agent() == old(self).right_agent().next_state(
                    old(self).left_last(),
                )
                &&& final(self).left_last() == Some(la)
                &&& final(self).right_last() == Some(ra)
                &&& final(self).spec_left_score() == old(self).spec_left_score() + left_points(
                    outcome,
                )
                &&& final(self).spec_right_score() == old(self).spec_right_score() + right_points(
                    outcome,
                )
            }),
    {
        let left_action = self.left.play(self.right_last_action);
        let right_action = self.right.play(self.left_last_action);

        self.left_last_action = Some(left_action);
        self.right_last_action = Some(right_action);

        let outcome = match (left_action, right_action) {
            (Action::Cooperate, Action::Cooperate) => RoundOutcome::BothCooperated,
            (Action::Cheat, Action::Cooperate) => RoundOutcome::LeftCheated,
            (Action::Cooperate, Action::Cheat) => RoundOutcome::RightCheated,
            (Action::Cheat, Action::Cheat) => RoundOutcome::BothCheated,
        };

        match outcome {
            RoundOutcome::BothCooperated => {
                self.left_score = self.left_score + 2;
                self.right_score = self.right_score + 2;
            },
            RoundOutcome::LeftCheated => {
                self.left_score = self.left_score + 3;
                self.right_score = self.right_score - 1;
            },
            RoundOutcome::RightCheated => {
                self.left_score = self.left_score - 1;
                self.right_score = self.right_score + 3;
            },
            RoundOutcome::BothCheated => (),
        }

        outcome
    }
}

/// Always cheats.
#[derive(Default)]
pub struct CheatingAgent {}

impl Agent for CheatingAgent {
    open spec fn play_enabled(&self, opponent_last_action: Option<Action>) -> bool {
        true
    }

    open spec fn next_action(&self, opponent_last_action: Option<Action>) -> Action {
        Action::Cheat
    }

    open spec fn next_state(&self, opponent_last_action: Option<Action>) -> Self {
        CheatingAgent {  }
    }

    fn play(&mut self, _opponent_last_action: Option<Action>) -> Action {
        Action::Cheat
    }
}

/// Always cooperates.
#[derive(Default)]
pub struct CooperatingAgent {}

impl Agent for CooperatingAgent {
    open spec fn play_enabled(&self, opponent_last_action: Option<Action>) -> bool {
        true
    }

    open spec fn next_action(&self, opponent_last_action: Option<Action>) -> Action {
        Action::Cooperate
    }

    open spec fn next_state(&self, opponent_last_action: Option<Action>) -> Self {
        CooperatingAgent {  }
    }

    fn play(&mut self, _opponent_last_action: Option<Action>) -> Action {
        Action::Cooperate
    }
}

/// Cooperates until the opponent cheats once, then cheats forever.
#[derive(Default)]
pub struct GrudgerAgent {
    pub was_betrayed: bool,
}

impl Agent for GrudgerAgent {
    open spec fn play_enabled(&self, opponent_last_action: Option<Action>) -> bool {
        true
    }

    open spec fn next_action(&self, opponent_last_action: Option<Action>) -> Action {
        match opponent_last_action {
            Some(a) => {
                if self.was_betrayed || a == Action::Cheat {
                    Action::Cheat
                } else {
                    Action::Cooperate
                }
            },
            None => Action::Cooperate,
        }
    }

    open spec fn next_state(&self, opponent_last_action: Option<Action>) -> Self {
        GrudgerAgent {
            was_betrayed: self.was_betrayed || opponent_last_action == Some(Action::Cheat),
        }
    }

    fn play(&mut self, opponent_last_action: Option<Action>) -> Action {
        match opponent_last_action {
            Some(a) => {
                if self.was_betrayed {
                    Action::Cheat
                } else if a == Action::Cheat {
                    self.was_betrayed = true;
                    a
                } else {
                    Action::Cooperate
                }
            },
            None => Action::Cooperate,
        }
    }
}

/// Repeats the opponent's previous action; cooperates in the first round.
#[derive(Default)]
pub struct CopycatAgent {}

impl Agent for CopycatAgent {
    open spec fn play_enabled(&self, opponent_last_action: Option<Action>) -> bool {
        true
    }

    open spec fn next_action(&self, opponent_last_action: Option<Action>) -> Action {
        match opponent_last_action {
            Some(a) => a,
            None => Action::Cooperate,
        }
    }

    open spec fn next_state(&self, opponent_last_action: Option<Action>) -> Self {
        CopycatAgent {  }
    }

    fn play(&mut self, opponent_last_action: Option<Action>) -> Action {
        match opponent_last_action {
            Some(a) => a,
            None => Action::Cooperate,
        }
    }
}

/// Opens with a fixed probe of four actions; afterwards plays copycat if the
/// opponent ever cheated, and cheats forever otherwise.
pub struct DetectiveAgent {
    pub round: usize,
    pub actions: [Action; 4],
    pub was_betrayed: bool,
}

impl Default for DetectiveAgent {
    /// The probe: cooperate, cheat, cooperate, cooperate.
    fn default() -> (r: Self)
        ensures
            r.round == 0,
            r.actions@ == seq![Action::Cooperate, Action::Cheat, Action::Cooperate, Action::Cooperate],
            !r.was_betrayed,
    {
        let r = DetectiveAgent {
            round: 0,
            actions: [Action::Cooperate, Action::Cheat, Action::Cooperate, Action::Cooperate],
            was_betrayed: false,
        };
        proof {
            assert(r.actions@ =~= seq![
                Action::Cooperate,
                Action::Cheat,
                Action::Cooperate,
                Action::Cooperate,
            ]);
        }
        r
    }
}

impl Agent for DetectiveAgent {
    /// Past the probe, a betrayed detective copies the opponent's action, so
    /// there must be one.
    open spec fn play_enabled(&self, opponent_last_action: Option<Action>) -> bool {
        self.round >= 4 && self.was_betrayed ==> opponent_last_action is Some
    }

    open spec fn next_action(&self, opponent_last_action: Option<Action>) -> Action {
        let betrayed = self.was_betrayed || opponent_last_action == Some(Action::Cheat);
        if self.round < 4 {
            self.actions@[self.round as int]
        } else if betrayed {
            opponent_last_action->0
        } else {
            Action::Cheat
        }
    }

    open spec fn next_state(&self, opponent_last_action: Option<Action>) -> Self {
        DetectiveAgent {
            round: if self.round < 4 {
                (self.round + 1) as usize
            } else {
                self.round
            },
            actions: self.actions,
            was_betrayed: self.was_betrayed || opponent_last_action == Some(Action::Cheat),
        }
    }

    fn play(&mut self, opponent_last_action: Option<Action>) -> Action {
        self.was_betrayed = self.was_betrayed || (match opponent_last_action {
            Some(a) => a == Action::Cheat,
            None => false,
        });
        if self.round < 4 {
            let action = self.actions[self.round];
            self.round = self.round + 1;
            action
        } else if self.was_betrayed {
            match opponent_last_action {
                Some(a) => a,
                None => {
                    proof {
                        assert(false);
                    }
                    Action::Cheat
                },
            }
        } else {
            Action::Cheat
        }
    }
}

} // verus!
