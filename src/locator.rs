use vstd::prelude::*;

use crate::error::CommandError;
use crate::number::{decimal_text, lemma_decimal_text_reads_back, parse_decimal, parse_pane_id};

verus! {

/// Where a search for the pane beside a reference pane stands.
#[derive(PartialEq, Eq, Structural, Clone, Copy, Debug)]
pub enum LocateState {
    /// The multiplexer was asked for the neighbour in the chosen direction.
    AwaitingNeighbor,
    /// There was none, and the multiplexer was asked to split one off.
    AwaitingSplit,
    /// The pane is known.
    Located(u64),
    /// The multiplexer's answer could not be read.
    Failed(CommandError),
}

/// What the caller does next.
#[derive(PartialEq, Eq, Structural, Clone, Copy, Debug)]
pub enum LocateAction {
    /// Split the reference pane in the chosen direction, and hand back the reply.
    SplitPane,
    /// Use this pane.
    UsePane(u64),
    /// Give up with this error.
    Stop(CommandError),
}

/// One step of the search, on the multiplexer's reply to the last request.
pub open spec fn locate_next(state: LocateState, reply: Seq<char>) -> (LocateState, LocateAction) {
    match state {
        LocateState::AwaitingNeighbor => if reply.len() == 0 {
            (LocateState::AwaitingSplit, LocateAction::SplitPane)
        } else {
            match parse_decimal(reply) {
                Some(id) => (LocateState::Located(id), LocateAction::UsePane(id)),
                None => (
                    LocateState::Failed(CommandError::Multiplexer),
                    LocateAction::Stop(CommandError::Multiplexer),
                ),
            }
        },
        LocateState::AwaitingSplit => match parse_decimal(reply) {
            Some(id) => (LocateState::Located(id), LocateAction::UsePane(id)),
            None => (
                LocateState::Failed(CommandError::Multiplexer),
                LocateAction::Stop(CommandError::Multiplexer),
            ),
        },
        LocateState::Located(id) => (state, LocateAction::UsePane(id)),
        LocateState::Failed(e) => (state, LocateAction::Stop(e)),
    }
}

/// Takes the multiplexer's reply to the last request and decides the next
/// step: an empty neighbour reply means there is no neighbour, so a split is
/// asked for; a reply that is a pane id gives the pane; any other reply fails.
pub fn get_or_split_pane(state: LocateState, reply: &str) -> (r: (LocateState, LocateAction))
    ensures
        r == locate_next(state, reply@),
{
    match state {
        LocateState::AwaitingNeighbor => {
            if reply.unicode_len() == 0 {
                return (LocateState::AwaitingSplit, LocateAction::SplitPane);
            }
            match parse_pane_id(reply) {
                Some(id) => (LocateState::Located(id), LocateAction::UsePane(id)),
                None => (
                    LocateState::Failed(CommandError::Multiplexer),
                    LocateAction::Stop(CommandError::Multiplexer),
                ),
            }
        },
        LocateState::AwaitingSplit => match parse_pane_id(reply) {
            Some(id) => (LocateState::Located(id), LocateAction::UsePane(id)),
            None => (
                LocateState::Failed(CommandError::Multiplexer),
                LocateAction::Stop(CommandError::Multiplexer),
            ),
        },
        LocateState::Located(id) => (state, LocateAction::UsePane(id)),
        LocateState::Failed(e) => (state, LocateAction::Stop(e)),
    }
}

/// State after feeding `replies`, in order, from `state`.
pub open spec fn locate_run(state: LocateState, replies: Seq<Seq<char>>) -> LocateState
    decreases replies.len(),
{
    if replies.len() == 0 {
        state
    } else {
        locate_run(locate_next(state, replies[0]).0, replies.drop_first())
    }
}

/// Number of splits asked for while feeding `replies` from `state`.
pub open spec fn splits_in_run(state: LocateState, replies: Seq<Seq<char>>) -> nat
    decreases replies.len(),
{
    if replies.len() == 0 {
        0
    } else {
        let (next, action) = locate_next(state, replies[0]);
        (if action == LocateAction::SplitPane { 1nat } else { 0nat }) + splits_in_run(
            next,
            replies.drop_first(),
        )
    }
}

proof fn lemma_no_split_after_search(state: LocateState, replies: Seq<Seq<char>>)
    requires
        state != LocateState::AwaitingNeighbor,
    ensures
        splits_in_run(state, replies) == 0,
        locate_run(state, replies) != LocateState::AwaitingNeighbor,
    decreases replies.len(),
{
    if replies.len() > 0 {
        lemma_no_split_after_search(locate_next(state, replies[0]).0, replies.drop_first());
    }
}

/// Locating the same neighbour twice: the first search asks for at most one
/// split whatever the multiplexer replies; and once it has found pane `id`,
/// a second search, to which the multiplexer (unchanged in between) names
/// that pane as the neighbour, gives `id` again at once and asks for no split.
pub proof fn lemma_locate_idempotent(first: Seq<Seq<char>>, id: u64)
    requires
        locate_run(LocateState::AwaitingNeighbor, first) == LocateState::Located(id),
    ensures
        splits_in_run(LocateState::AwaitingNeighbor, first) <= 1,
        locate_next(LocateState::AwaitingNeighbor, decimal_text(id as nat)) == (
        LocateState::Located(id),
        LocateAction::UsePane(id),
        ),
{
    lemma_decimal_text_reads_back(id);
    if first.len() > 0 {
        let next = locate_next(LocateState::AwaitingNeighbor, first[0]).0;
        assert(next != LocateState::AwaitingNeighbor);
        lemma_no_split_after_search(next, first.drop_first());
    }
}

} // verus!
