//! The subscription side of the cross-thread bridge: the state machine that
//! forwards messages from the worker's stream to the view layer, one item per
//! scheduler turn.
//!
//! While the stream is live, each received item is forwarded unchanged, in
//! arrival order — never reordered, dropped or coalesced. When the stream
//! ends, a terminal `Finished` marker is forwarded once and the subscription
//! turns inert: it never resolves another item.

use vstd::prelude::*;

use crate::events::WaylandIncoming;

verus! {

/// Whether the worker's stream is still live or has ended.
#[derive(Clone, Copy, Debug, PartialEq, Eq, Structural)]
pub enum State {
    Waiting,
    Finished,
}

/// The bridge transition for one scheduler turn, given what polling the
/// worker's stream yielded (`None` once the stream has ended): the next
/// state, and the message to forward to the view layer, if any.
pub open spec fn spec_listen_step(state: State, polled: Option<WaylandIncoming>) -> (
    State,
    Option<WaylandIncoming>,
) {
    match state {
        State::Waiting => match polled {
            Some(u) => (State::Waiting, Some(u)),
            None => (State::Finished, Some(WaylandIncoming::Finished)),
        },
        State::Finished => (State::Finished, None),
    }
}

/// One scheduler turn of the subscription: forward what the stream yielded,
/// or the terminal `Finished` marker when it ended; once finished, forward
/// nothing ever again.
pub fn listen_step(state: State, polled: Option<WaylandIncoming>) -> (r: (
    State,
    Option<WaylandIncoming>,
))
    ensures
        r == spec_listen_step(state, polled),
{
    match state {
        State::Waiting => match polled {
            Some(u) => (State::Waiting, Some(u)),
            None => (State::Finished, Some(WaylandIncoming::Finished)),
        },
        State::Finished => (State::Finished, None),
    }
}

/// What a whole run of scheduler turns forwards, in order.
pub open spec fn spec_drain(state: State, polls: Seq<Option<WaylandIncoming>>) -> Seq<
    WaylandIncoming,
>
    decreases polls.len(),
{
    if polls.len() == 0 {
        Seq::empty()
    } else {
        let emitted = spec_listen_step(state, polls[0]).1;
        let rest = spec_drain(spec_listen_step(state, polls[0]).0, polls.drop_first());
        match emitted {
            Some(u) => seq![u] + rest,
            None => rest,
        }
    }
}

/// Ordering guarantee of the live bridge: a run of received items is
/// forwarded exactly as it arrived — same items, same order, nothing
/// dropped, added or coalesced.
pub proof fn lemma_drain_fifo(items: Seq<WaylandIncoming>)
    ensures
        spec_drain(State::Waiting, items.map_values(|u: WaylandIncoming| Some(u)))
            == items,
    decreases items.len(),
{
    let polls = items.map_values(|u: WaylandIncoming| Some(u));
    if items.len() == 0 {
        assert(spec_drain(State::Waiting, polls) =~= items);
    } else {
        lemma_drain_fifo(items.drop_first());
        assert(polls.drop_first() =~= items.drop_first().map_values(
            |u: WaylandIncoming| Some(u),
        ));
        assert(spec_drain(State::Waiting, polls) =~= items);
    }
}

/// Inertness after the end of the stream: a finished subscription forwards
/// nothing, whatever polling yields.
pub proof fn lemma_finished_inert(polls: Seq<Option<WaylandIncoming>>)
    ensures
        spec_drain(State::Finished, polls) == Seq::<WaylandIncoming>::empty(),
    decreases polls.len(),
{
    if polls.len() > 0 {
        lemma_finished_inert(polls.drop_first());
    }
}

} // verus!
