//! The plan by which an index is replaced: what to ask of the search engine
//! next, given how the last request ended.
//!
//! The requests themselves are made by the caller. It starts in
//! [`LoadState::Idle`] with [`LoadEvent::Start`], performs the action that
//! [`step`] returns, waits for it to finish and reports how that ended.

use vstd::prelude::*;
use crate::card::CardView;

verus! {

/// Where a load stands.
#[derive(Clone, Copy, Debug, PartialEq, Eq, Structural)]
pub enum LoadState {
    Idle,
    Configuring,
    Clearing,
    Inserting,
    Done,
    Failed,
}

/// What the caller reports.
#[derive(Clone, Copy, Debug, PartialEq, Eq, Structural)]
pub enum LoadEvent {
    /// The load is to begin.
    Start,
    /// The last action was carried out and has finished.
    Completed,
    /// The engine rejected the last action, or it did not finish in time.
    Rejected,
}

/// What the caller is to do next.
#[derive(Clone, Copy, Debug, PartialEq, Eq, Structural)]
pub enum LoadAction {
    /// Set the searchable attributes of the index.
    Configure,
    /// Delete all documents of the index.
    Clear,
    /// Add the new documents under the primary key.
    Insert,
    /// Nothing is left to do.
    Nothing,
}

impl LoadState {
    /// A request to the engine is under way.
    pub open spec fn is_running(self) -> bool {
        self == LoadState::Configuring || self == LoadState::Clearing || self
            == LoadState::Inserting
    }

    /// The load has ended, well or not.
    pub open spec fn is_final(self) -> bool {
        self == LoadState::Done || self == LoadState::Failed
    }
}

/// The state after `event` in `state`, and the action to perform. An event
/// that does not fit the state changes nothing and asks for nothing.
pub open spec fn step_spec(state: LoadState, event: LoadEvent) -> (LoadState, LoadAction) {
    match (state, event) {
        (LoadState::Idle, LoadEvent::Start) => (LoadState::Configuring, LoadAction::Configure),
        (LoadState::Configuring, LoadEvent::Completed) => (LoadState::Clearing, LoadAction::Clear),
        (LoadState::Clearing, LoadEvent::Completed) => (LoadState::Inserting, LoadAction::Insert),
        (LoadState::Inserting, LoadEvent::Completed) => (LoadState::Done, LoadAction::Nothing),
        (LoadState::Configuring, LoadEvent::Rejected) => (LoadState::Failed, LoadAction::Nothing),
        (LoadState::Clearing, LoadEvent::Rejected) => (LoadState::Failed, LoadAction::Nothing),
        (LoadState::Inserting, LoadEvent::Rejected) => (LoadState::Failed, LoadAction::Nothing),
        _ => (state, LoadAction::Nothing),
    }
}

/// Decides the next state and the next action.
pub fn step(state: LoadState, event: LoadEvent) -> (next: (LoadState, LoadAction))
    ensures
        next == step_spec(state, event),
{
    match state {
        LoadState::Idle => match event {
            LoadEvent::Start => (LoadState::Configuring, LoadAction::Configure),
            _ => (state, LoadAction::Nothing),
        },
        LoadState::Configuring => match event {
            LoadEvent::Completed => (LoadState::Clearing, LoadAction::Clear),
            LoadEvent::Rejected => (LoadState::Failed, LoadAction::Nothing),
            LoadEvent::Start => (state, LoadAction::Nothing),
        },
        LoadState::Clearing => match event {
            LoadEvent::Completed => (LoadState::Inserting, LoadAction::Insert),
            LoadEvent::Rejected => (LoadState::Failed, LoadAction::Nothing),
            LoadEvent::Start => (state, LoadAction::Nothing),
        },
        LoadState::Inserting => match event {
            LoadEvent::Completed => (LoadState::Done, LoadAction::Nothing),
            LoadEvent::Rejected => (LoadState::Failed, LoadAction::Nothing),
            LoadEvent::Start => (state, LoadAction::Nothing),
        },
        LoadState::Done => (state, LoadAction::Nothing),
        LoadState::Failed => (state, LoadAction::Nothing),
    }
}

/// The state that a load is in after `events`, reported one after another
/// from [`LoadState::Idle`] on.
pub open spec fn state_after(events: Seq<LoadEvent>) -> LoadState
    decreases events.len(),
{
    if events.len() == 0 {
        LoadState::Idle
    } else {
        step_spec(state_after(events.drop_last()), events.last()).0
    }
}

/// The three requests follow one another in a fixed order, each only after
/// the one before it has finished: the documents are deleted only once the
/// index is configured, and inserted only once the old ones are deleted.
pub proof fn requests_follow_in_order(state: LoadState, event: LoadEvent)
    ensures
        step_spec(state, event).1 == LoadAction::Configure <==> state == LoadState::Idle && event
            == LoadEvent::Start,
        step_spec(state, event).1 == LoadAction::Clear <==> state == LoadState::Configuring
            && event == LoadEvent::Completed,
        step_spec(state, event).1 == LoadAction::Insert <==> state == LoadState::Clearing && event
            == LoadEvent::Completed,
        step_spec(state, event).0 == LoadState::Done && state != LoadState::Done ==> state
            == LoadState::Inserting && event == LoadEvent::Completed,
{
}

/// A rejected request ends the load: the state is `Failed` and nothing more
/// is asked for, now or after any later event.
pub proof fn failure_aborts(state: LoadState, later: LoadEvent)
    requires
        state.is_running(),
    ensures
        step_spec(state, LoadEvent::Rejected) == (LoadState::Failed, LoadAction::Nothing),
        step_spec(LoadState::Failed, later) == (LoadState::Failed, LoadAction::Nothing),
        step_spec(LoadState::Done, later) == (LoadState::Done, LoadAction::Nothing),
{
}

/// A load ends in `Done` exactly when, after the start, three requests in a
/// row were reported as completed before anything else.
pub proof fn done_needs_three_completions(events: Seq<LoadEvent>)
    requires
        events.len() == 4,
    ensures
        state_after(events) == LoadState::Done <==> events == seq![
            LoadEvent::Start,
            LoadEvent::Completed,
            LoadEvent::Completed,
            LoadEvent::Completed,
        ],
{
    let e3 = events.drop_last();
    let e2 = e3.drop_last();
    let e1 = e2.drop_last();
    let e0 = e1.drop_last();
    assert(e0.len() == 0);
    assert(state_after(e0) == LoadState::Idle);
    assert(state_after(e1) == step_spec(LoadState::Idle, events[0]).0);
    assert(state_after(e2) == step_spec(state_after(e1), events[1]).0);
    assert(state_after(e3) == step_spec(state_after(e2), events[2]).0);
    assert(state_after(events) == step_spec(state_after(e3), events[3]).0);
    let want = seq![
        LoadEvent::Start,
        LoadEvent::Completed,
        LoadEvent::Completed,
        LoadEvent::Completed,
    ];
    if state_after(events) == LoadState::Done {
        assert(events =~= want);
    }
    if events == want {
        assert(events[0] == LoadEvent::Start);
        assert(events[1] == LoadEvent::Completed);
        assert(events[2] == LoadEvent::Completed);
        assert(events[3] == LoadEvent::Completed);
    }
}

/// The contents of an index, each document under its primary key, once
/// `documents` are added to `index` one after another: a document replaces
/// the one that had its key.
pub open spec fn with_documents(
    index: Map<Seq<char>, CardView>,
    documents: Seq<CardView>,
) -> Map<Seq<char>, CardView>
    decreases documents.len(),
{
    if documents.len() == 0 {
        index
    } else {
        with_documents(index, documents.drop_last()).insert(documents.last().id, documents.last())
    }
}

/// What an action makes of the contents of an index when it is carried out
/// with `documents`.
pub open spec fn contents_after(
    action: LoadAction,
    index: Map<Seq<char>, CardView>,
    documents: Seq<CardView>,
) -> Map<Seq<char>, CardView> {
    match action {
        LoadAction::Configure => index,
        LoadAction::Clear => Map::empty(),
        LoadAction::Insert => with_documents(index, documents),
        LoadAction::Nothing => index,
    }
}

/// The contents of an index that held `index` at first, once the action
/// asked for after each of `events` was carried out.
pub open spec fn index_after(
    events: Seq<LoadEvent>,
    index: Map<Seq<char>, CardView>,
    documents: Seq<CardView>,
) -> Map<Seq<char>, CardView>
    decreases events.len(),
{
    if events.len() == 0 {
        index
    } else {
        contents_after(
            step_spec(state_after(events.drop_last()), events.last()).1,
            index_after(events.drop_last(), index, documents),
            documents,
        )
    }
}

/// The events of a load in which every request finishes, up to the last
/// request.
pub open spec fn full_run() -> Seq<LoadEvent> {
    seq![LoadEvent::Start, LoadEvent::Completed, LoadEvent::Completed]
}

/// A load in which every request finishes leaves in the index the documents
/// it was given and nothing else, whatever the index held before. So a
/// second load with the same documents leaves the index as the first did.
pub proof fn load_replaces_contents(
    before: Map<Seq<char>, CardView>,
    documents: Seq<CardView>,
)
    ensures
        state_after(full_run().push(LoadEvent::Completed)) == LoadState::Done,
        index_after(full_run(), before, documents) == with_documents(Map::empty(), documents),
        index_after(full_run(), index_after(full_run(), before, documents), documents)
            == index_after(full_run(), before, documents),
{
    assert(full_run().push(LoadEvent::Completed).len() == 4);
    done_needs_three_completions(full_run().push(LoadEvent::Completed));
    assert(full_run().push(LoadEvent::Completed) =~= seq![
        LoadEvent::Start,
        LoadEvent::Completed,
        LoadEvent::Completed,
        LoadEvent::Completed,
    ]);
    lemma_full_run_contents(before, documents);
    lemma_full_run_contents(index_after(full_run(), before, documents), documents);
}

proof fn lemma_full_run_contents(before: Map<Seq<char>, CardView>, documents: Seq<CardView>)
    ensures
        index_after(full_run(), before, documents) == with_documents(Map::empty(), documents),
{
    let e3 = full_run();
    let e2 = e3.drop_last();
    let e1 = e2.drop_last();
    let e0 = e1.drop_last();
    assert(e0.len() == 0);
    assert(e1.last() == LoadEvent::Start);
    assert(e2.last() == LoadEvent::Completed);
    assert(e3.last() == LoadEvent::Completed);
    assert(state_after(e0) == LoadState::Idle);
    assert(state_after(e1) == LoadState::Configuring);
    assert(state_after(e2) == LoadState::Clearing);
    assert(index_after(e0, before, documents) == before);
    assert(index_after(e1, before, documents) == before);
    assert(index_after(e2, before, documents) == Map::<Seq<char>, CardView>::empty());
}

} // verus!
