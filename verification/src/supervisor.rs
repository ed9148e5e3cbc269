//! The supervision of one move: how long an agent may think, when to look
//! whether it has answered, and when the game is forfeited.
//!
//! The supervisor decides and does nothing else. Whoever runs the agent
//! carries out each action it is given and reports back what it saw.

use vstd::prelude::*;
use crate::error::GameError;
use crate::player::Player;

verus! {

/// The time that an agent has for one move, in milliseconds.
pub const TIME_LIMIT: u64 = 1500;

/// How many times the supervisor looks whether the agent has answered.
pub const WAKE_UP_COUNT: u64 = 100;

/// The time between two looks, in milliseconds.
pub const POLL_INTERVAL: u64 = 15;

/// The agent that plays for a player.
#[derive(Clone, Copy, Debug, PartialEq, Eq, Structural)]
pub enum Agents {
    First,
    Random,
    Test,
    Solution,
    Manual,
}

/// Where the supervision of a move stands.
#[derive(Clone, Copy, Debug, PartialEq, Eq, Structural)]
pub enum Watch {
    /// The agent is at work; `polls` looks have found it unfinished.
    Dispatched { polls: u64 },
    /// The agent has answered, or is waited for without a deadline.
    Completed,
    /// The agent did not answer in time.
    Forfeited,
}

/// What is to be done next.
#[derive(Clone, Copy, Debug, PartialEq, Eq, Structural)]
pub enum Action {
    /// Sleep for so many milliseconds, then report whether the agent has
    /// finished.
    Sleep(u64),
    /// Wait for the agent to finish, however long it takes, and take its
    /// answer.
    Join,
}

/// The state and the first action when an agent is set to work: an agent
/// that waits for a human is joined at once, without a deadline; every
/// other agent is looked at after the first interval.
pub open spec fn dispatched(agent: Agents) -> (Watch, Action) {
    if agent == Agents::Manual {
        (Watch::Completed, Action::Join)
    } else {
        (Watch::Dispatched { polls: 0 }, Action::Sleep(POLL_INTERVAL))
    }
}

/// The state after a look at the agent, and the next action. A finished
/// agent is joined. An unfinished one is given another interval, unless
/// this was the last look: then the game is forfeited and there is nothing
/// more to do. Once the supervision has ended, nothing changes any more.
pub open spec fn polled(watch: Watch, finished: bool) -> (Watch, Result<Action, GameError>) {
    match watch {
        Watch::Dispatched { polls } => {
            if finished {
                (Watch::Completed, Ok(Action::Join))
            } else if polls + 1 >= WAKE_UP_COUNT {
                (Watch::Forfeited, Err(GameError::Forfeit))
            } else {
                (Watch::Dispatched { polls: (polls + 1) as u64 }, Ok(Action::Sleep(POLL_INTERVAL)))
            }
        },
        Watch::Completed => (Watch::Completed, Ok(Action::Join)),
        Watch::Forfeited => (Watch::Forfeited, Err(GameError::Forfeit)),
    }
}

/// The state after a series of looks, the first of them first.
pub open spec fn watched(watch: Watch, looks: Seq<bool>) -> Watch
    decreases looks.len(),
{
    if looks.len() == 0 {
        watch
    } else {
        polled(watched(watch, looks.drop_last()), looks.last()).0
    }
}

/// The states that a supervision can be in: it never counts as many looks
/// as it is allowed and goes on.
pub open spec fn valid_watch(watch: Watch) -> bool {
    match watch {
        Watch::Dispatched { polls } => polls < WAKE_UP_COUNT,
        _ => true,
    }
}

/// Sets an agent to work: gives the state of the supervision and the first
/// thing to do.
pub fn dispatch(agent: Agents) -> (start: (Watch, Action))
    ensures
        start == dispatched(agent),
        valid_watch(start.0),
{
    match agent {
        Agents::Manual => (Watch::Completed, Action::Join),
        _ => (Watch::Dispatched { polls: 0 }, Action::Sleep(POLL_INTERVAL)),
    }
}

/// Takes the report of a look at the agent, `finished` or not, and gives
/// the next state and the next thing to do, or `Forfeit` where the agent
/// has used up its time.
pub fn poll(watch: Watch, finished: bool) -> (next: (Watch, Result<Action, GameError>))
    requires
        valid_watch(watch),
    ensures
        next == polled(watch, finished),
        valid_watch(next.0),
{
    match watch {
        Watch::Dispatched { polls } => {
            if finished {
                (Watch::Completed, Ok(Action::Join))
            } else if polls + 1 >= WAKE_UP_COUNT {
                (Watch::Forfeited, Err(GameError::Forfeit))
            } else {
                (Watch::Dispatched { polls: polls + 1 }, Ok(Action::Sleep(POLL_INTERVAL)))
            }
        },
        Watch::Completed => (Watch::Completed, Ok(Action::Join)),
        Watch::Forfeited => (Watch::Forfeited, Err(GameError::Forfeit)),
    }
}

/// The text of the announcement that a player's agent has forfeited.
pub open spec fn notice_text(player: Player) -> Seq<char> {
    player.letter() + " Agent is taking too long. Game forfeited"@
}

/// The announcement that the agent of `player` took too long.
pub fn forfeit_notice(player: Player) -> (notice: String)
    ensures
        notice@ == notice_text(player),
{
    let mut notice: String = player.to_string();
    notice.append(" Agent is taking too long. Game forfeited");
    notice
}

/// The looks are spread evenly over the time limit.
pub proof fn lemma_intervals_fill_limit()
    ensures
        POLL_INTERVAL * WAKE_UP_COUNT == TIME_LIMIT,
        POLL_INTERVAL == TIME_LIMIT / WAKE_UP_COUNT,
{
}

/// While an agent under a deadline is found unfinished, the supervision
/// goes on and counts the looks; it has neither completed nor forfeited
/// before the last look.
pub proof fn lemma_unfinished_looks(agent: Agents, looks: Seq<bool>)
    requires
        agent != Agents::Manual,
        looks.len() < WAKE_UP_COUNT,
        forall|k: int| 0 <= k < looks.len() ==> !(#[trigger] looks[k]),
    ensures
        watched(dispatched(agent).0, looks) == (Watch::Dispatched { polls: looks.len() as u64 }),
    decreases looks.len(),
{
    if looks.len() > 0 {
        let head = looks.drop_last();
        assert forall|k: int| 0 <= k < head.len() implies !(#[trigger] head[k]) by {
            assert(head[k] == looks[k]);
        }
        lemma_unfinished_looks(agent, head);
        assert(!looks[looks.len() - 1]);
    }
}

/// An agent under a deadline that is still unfinished at the last look
/// forfeits the game: that look ends in `Forfeit` and the state is
/// `Forfeited`, and no look before it has led to a join, so no move was
/// taken from the agent. The time slept up to then is the time limit.
pub proof fn lemma_forfeit_after_limit(agent: Agents, looks: Seq<bool>)
    requires
        agent != Agents::Manual,
        looks.len() == WAKE_UP_COUNT,
        forall|k: int| 0 <= k < looks.len() ==> !(#[trigger] looks[k]),
    ensures
        watched(dispatched(agent).0, looks) == Watch::Forfeited,
        polled(watched(dispatched(agent).0, looks.drop_last()), looks.last()).1 == Err::<
            Action,
            GameError,
        >(GameError::Forfeit),
        forall|n: int|
            0 <= n < looks.len() ==> polled(
                watched(dispatched(agent).0, #[trigger] looks.take(n)),
                looks[n],
            ).1 != Ok::<Action, GameError>(Action::Join),
        looks.len() * POLL_INTERVAL == TIME_LIMIT,
{
    let head = looks.drop_last();
    assert forall|k: int| 0 <= k < head.len() implies !(#[trigger] head[k]) by {
        assert(head[k] == looks[k]);
    }
    lemma_unfinished_looks(agent, head);
    assert(!looks[looks.len() - 1]);
    assert forall|n: int| 0 <= n < looks.len() implies polled(
        watched(dispatched(agent).0, #[trigger] looks.take(n)),
        looks[n],
    ).1 != Ok::<Action, GameError>(Action::Join) by {
        let seen = looks.take(n);
        assert forall|k: int| 0 <= k < seen.len() implies !(#[trigger] seen[k]) by {
            assert(seen[k] == looks[k]);
        }
        lemma_unfinished_looks(agent, seen);
        assert(!looks[n]);
    }
}

/// An agent under a deadline that is found finished at some look, after
/// unfinished looks only, is joined at that look, and the supervision has
/// completed.
pub proof fn lemma_join_when_finished(agent: Agents, looks: Seq<bool>)
    requires
        agent != Agents::Manual,
        0 < looks.len() <= WAKE_UP_COUNT,
        looks.last(),
        forall|k: int| 0 <= k < looks.len() - 1 ==> !(#[trigger] looks[k]),
    ensures
        watched(dispatched(agent).0, looks) == Watch::Completed,
        polled(watched(dispatched(agent).0, looks.drop_last()), looks.last()).1 == Ok::<
            Action,
            GameError,
        >(Action::Join),
{
    let head = looks.drop_last();
    assert forall|k: int| 0 <= k < head.len() implies !(#[trigger] head[k]) by {
        assert(head[k] == looks[k]);
    }
    lemma_unfinished_looks(agent, head);
}

} // verus!
