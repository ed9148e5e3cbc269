use tictactoe::error::GameError;
use tictactoe::player::Player;
use tictactoe::supervisor::{
    dispatch, forfeit_notice, poll, Action, Agents, Watch, POLL_INTERVAL, TIME_LIMIT,
    WAKE_UP_COUNT,
};

#[test]
fn the_looks_fill_the_time_limit() {
    assert_eq!(TIME_LIMIT, 1500);
    assert_eq!(WAKE_UP_COUNT, 100);
    assert_eq!(POLL_INTERVAL, TIME_LIMIT / WAKE_UP_COUNT);
    assert_eq!(POLL_INTERVAL * WAKE_UP_COUNT, TIME_LIMIT);
}

#[test]
fn timed_agents_are_looked_at_after_an_interval() {
    for agent in [Agents::First, Agents::Random, Agents::Test, Agents::Solution] {
        assert_eq!(
            dispatch(agent),
            (Watch::Dispatched { polls: 0 }, Action::Sleep(15))
        );
    }
}

#[test]
fn manual_agent_is_joined_without_a_deadline() {
    assert_eq!(dispatch(Agents::Manual), (Watch::Completed, Action::Join));
}

#[test]
fn finished_agent_is_joined() {
    let (watch, _) = dispatch(Agents::First);
    assert_eq!(poll(watch, true), (Watch::Completed, Ok(Action::Join)));

    let (mut watch, _) = dispatch(Agents::Random);
    for polls in 1..4 {
        let (next, action) = poll(watch, false);
        assert_eq!(next, Watch::Dispatched { polls });
        assert_eq!(action, Ok(Action::Sleep(15)));
        watch = next;
    }
    assert_eq!(poll(watch, true), (Watch::Completed, Ok(Action::Join)));
}

#[test]
fn agent_that_finishes_at_the_last_look_is_joined() {
    let (mut watch, _) = dispatch(Agents::Test);
    for _ in 0..99 {
        let (next, action) = poll(watch, false);
        assert_eq!(action, Ok(Action::Sleep(15)));
        watch = next;
    }
    assert_eq!(watch, Watch::Dispatched { polls: 99 });
    assert_eq!(poll(watch, true), (Watch::Completed, Ok(Action::Join)));
}

#[test]
fn agent_that_never_finishes_forfeits() {
    let (mut watch, first) = dispatch(Agents::Solution);
    let mut slept = match first {
        Action::Sleep(ms) => ms,
        Action::Join => panic!("a timed agent is not joined at once"),
    };
    let mut looks = 0;
    let end = loop {
        looks += 1;
        let (next, action) = poll(watch, false);
        watch = next;
        match action {
            Ok(Action::Sleep(ms)) => slept += ms,
            Ok(Action::Join) => panic!("an unfinished agent is not joined"),
            Err(e) => break e,
        }
    };
    assert_eq!(end, GameError::Forfeit);
    assert_eq!(watch, Watch::Forfeited);
    assert_eq!(looks, 100);
    assert_eq!(slept, 1500);
}

#[test]
fn supervision_that_has_ended_stays_as_it_is() {
    assert_eq!(
        poll(Watch::Forfeited, true),
        (Watch::Forfeited, Err(GameError::Forfeit))
    );
    assert_eq!(
        poll(Watch::Forfeited, false),
        (Watch::Forfeited, Err(GameError::Forfeit))
    );
    assert_eq!(
        poll(Watch::Completed, false),
        (Watch::Completed, Ok(Action::Join))
    );
}

#[test]
fn forfeit_notice_names_the_player() {
    assert_eq!(
        forfeit_notice(Player::X),
        "X Agent is taking too long. Game forfeited"
    );
    assert_eq!(
        forfeit_notice(Player::O),
        "O Agent is taking too long. Game forfeited"
    );
}
