//! The course of one resolution.
//!
//! Resolving a configuration takes two steps. The first says what the caller
//! is to do: read the environment, or send one request to the authority. The
//! second takes what the caller found and ends with a record or an error.
//! Nothing is retried, and neither source stands in for the other.

use vstd::prelude::*;
use crate::conf::Conf;
use crate::error::ConfigError;
use crate::local::{env_prefix, load, load_result, outcome_view, pairs_view, prefix_of};
use crate::remote::{fetch_outcome, fetch_request, is_fetch_request, judged, Reply, Request};

verus! {

/// Where the configuration comes from.
#[derive(Debug, Clone, Copy, PartialEq, Eq, Structural)]
pub enum Source {
    /// The variables of the process environment.
    Environment,
    /// The configuration authority.
    Authority,
}

/// How far a resolution has come.
#[derive(Debug, Clone, Copy, PartialEq, Eq, Structural)]
pub enum State {
    Ready,
    AwaitingEnvironment,
    AwaitingReply,
    Finished,
}

/// What the caller reports.
#[derive(PartialEq, Debug, Clone)]
pub enum Event {
    /// The resolution is to begin.
    Start,
    /// The variables of the environment, as pairs of key and value.
    Environment(Vec<(String, String)>),
    /// What came of the request to the authority.
    Reply(Reply),
}

/// What the caller is to do next.
#[derive(PartialEq, Debug)]
pub enum Action {
    /// Read the environment and report its variables.
    ReadEnvironment { prefix: String },
    /// Send the request and report what came of it.
    Send(Request),
    /// The resolution is over, with this outcome.
    Finish(Result<Conf, ConfigError>),
    /// The event has no place in this state: nothing is to be done.
    Nothing,
}

/// The state after an event. An event that the state does not wait for
/// leaves it as it is.
pub open spec fn next_state(source: Source, state: State, event: Event) -> State {
    match (state, event) {
        (State::Ready, Event::Start) => match source {
            Source::Environment => State::AwaitingEnvironment,
            Source::Authority => State::AwaitingReply,
        },
        (State::AwaitingEnvironment, Event::Environment(_)) => State::Finished,
        (State::AwaitingReply, Event::Reply(_)) => State::Finished,
        _ => state,
    }
}

/// Whether an event in a state has a request sent to the authority.
pub open spec fn sends_request(source: Source, state: State, event: Event) -> bool {
    state == State::Ready && event is Start && source == Source::Authority
}

/// Whether an action is the one that an event in a state calls for.
pub open spec fn action_fits(
    app_name: Seq<char>,
    source: Source,
    state: State,
    event: Event,
    action: Action,
) -> bool {
    match (state, event) {
        (State::Ready, Event::Start) => match source {
            Source::Environment => action matches Action::ReadEnvironment { prefix } && prefix@
                == prefix_of(app_name),
            Source::Authority => action matches Action::Send(request) && is_fetch_request(
                request,
                app_name,
            ),
        },
        (State::AwaitingEnvironment, Event::Environment(vars)) => action matches Action::Finish(
            outcome,
        ) && outcome_view(outcome) == load_result(prefix_of(app_name), pairs_view(vars@)),
        (State::AwaitingReply, Event::Reply(reply)) => action == Action::Finish(judged(reply)),
        _ => action is Nothing,
    }
}

/// Takes a resolution one step further.
///
/// From `Ready`, `Start` asks the caller for the variables of the
/// environment, or has it send the one request to the authority, as the source
/// says. The report of what it found finishes the resolution: with the record
/// that the prefixed variables make, or with the record of the authority's
/// reply, or with the error that says why there is none.
pub fn get_config(app_name: String, source: Source, state: State, event: Event) -> (step: (
    State,
    Action,
))
    ensures
        step.0 == next_state(source, state, event),
        action_fits(app_name@, source, state, event, step.1),
        step.1 is Send <==> sends_request(source, state, event),
{
    match state {
        State::Ready => match event {
            Event::Start => match source {
                Source::Environment => {
                    let prefix = env_prefix(app_name.as_str());
                    (State::AwaitingEnvironment, Action::ReadEnvironment { prefix })
                },
                Source::Authority => (State::AwaitingReply, Action::Send(fetch_request(app_name))),
            },
            _ => (state, Action::Nothing),
        },
        State::AwaitingEnvironment => match event {
            Event::Environment(vars) => {
                let prefix = env_prefix(app_name.as_str());
                (State::Finished, Action::Finish(load(prefix.as_str(), &vars)))
            },
            _ => (state, Action::Nothing),
        },
        State::AwaitingReply => match event {
            Event::Reply(reply) => (State::Finished, Action::Finish(fetch_outcome(reply))),
            _ => (state, Action::Nothing),
        },
        State::Finished => (state, Action::Nothing),
    }
}

/// The state after a run of events.
pub open spec fn state_after(source: Source, state: State, events: Seq<Event>) -> State
    decreases events.len(),
{
    if events.len() == 0 {
        state
    } else {
        state_after(source, next_state(source, state, events[0]), events.skip(1))
    }
}

/// How many requests a run of events has sent to the authority.
pub open spec fn requests_sent(source: Source, state: State, events: Seq<Event>) -> nat
    decreases events.len(),
{
    if events.len() == 0 {
        0
    } else {
        let now: nat = if sends_request(source, state, events[0]) {
            1
        } else {
            0
        };
        now + requests_sent(source, next_state(source, state, events[0]), events.skip(1))
    }
}

/// A resolution that has begun does not begin again, and sends nothing more.
pub proof fn lemma_begun_stays_begun(source: Source, state: State, events: Seq<Event>)
    requires
        state != State::Ready,
    ensures
        state_after(source, state, events) != State::Ready,
        requests_sent(source, state, events) == 0,
    decreases events.len(),
{
    if events.len() > 0 {
        lemma_begun_stays_begun(source, next_state(source, state, events[0]), events.skip(1));
    }
}

/// Whatever the caller reports, and in whatever order, one resolution sends at
/// most one request. One that finishes has sent exactly one where the source
/// is the authority, and none where it is the environment.
pub proof fn law_single_request(source: Source, events: Seq<Event>)
    ensures
        requests_sent(source, State::Ready, events) <= 1,
        state_after(source, State::Ready, events) == State::Finished ==> requests_sent(
            source,
            State::Ready,
            events,
        ) == (if source == Source::Authority {
            1nat
        } else {
            0nat
        }),
    decreases events.len(),
{
    if events.len() > 0 {
        let next = next_state(source, State::Ready, events[0]);
        if next == State::Ready {
            law_single_request(source, events.skip(1));
        } else {
            lemma_begun_stays_begun(source, next, events.skip(1));
        }
    }
}

} // verus!
