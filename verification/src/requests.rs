use vstd::prelude::*;

use std::collections::VecDeque;

use crate::CFrame;
use crate::CInput;
use crate::CPlayerHandle;

verus! {

/// Discriminant of a flattened request record.
#[derive(Clone, Copy, PartialEq, Eq, Structural, Debug)]
pub enum CRequestType {
    /// Advance the simulation by one frame.
    AdvanceFrame,
    /// Set one player's input before the next advance.
    SetInput,
    /// Restore the state saved for the given frame.
    LoadGameState,
    /// Save the current state under the given frame.
    SaveGameState,
    /// Sentinel: the queue held nothing; carries no payload.
    Empty,
}

/// One plain, fixed-layout record of the request queue. Fields that a given
/// tag does not use are zero.
#[derive(Clone, Copy, PartialEq, Eq, Structural, Debug)]
pub struct CRequest {
    /// Which action the record asks for.
    pub request_type: CRequestType,
    /// Frame number for save/load records.
    pub frame: CFrame,
    /// Player slot for input records.
    pub player_handle: CPlayerHandle,
    /// Input payload for input records.
    pub input: CInput,
}

impl CRequest {
    /// The sentinel record returned when a queue is absent or empty.
    pub open spec fn none_spec() -> CRequest {
        CRequest { request_type: CRequestType::Empty, frame: 0, player_handle: 0, input: 0 }
    }

    /// The record asking the caller to save state for `frame`.
    pub open spec fn save_spec(frame: CFrame) -> CRequest {
        CRequest { request_type: CRequestType::SaveGameState, frame, player_handle: 0, input: 0 }
    }

    /// The record asking the caller to load the state of `frame`.
    pub open spec fn load_spec(frame: CFrame) -> CRequest {
        CRequest { request_type: CRequestType::LoadGameState, frame, player_handle: 0, input: 0 }
    }

    /// The record asking the caller to advance the simulation one frame.
    pub open spec fn advance_spec() -> CRequest {
        CRequest { request_type: CRequestType::AdvanceFrame, frame: 0, player_handle: 0, input: 0 }
    }

    /// The record assigning `input` to player `player_handle`.
    pub open spec fn input_spec(player_handle: CPlayerHandle, input: CInput) -> CRequest {
        CRequest { request_type: CRequestType::SetInput, frame: 0, player_handle, input }
    }

    /// Builds the sentinel record.
    pub fn new_none() -> (r: CRequest)
        ensures
            r == CRequest::none_spec(),
    {
        CRequest { request_type: CRequestType::Empty, frame: 0, player_handle: 0, input: 0 }
    }

    /// Builds a save record for `frame`.
    pub fn new_save(frame: CFrame) -> (r: CRequest)
        ensures
            r == CRequest::save_spec(frame),
    {
        CRequest { request_type: CRequestType::SaveGameState, frame, player_handle: 0, input: 0 }
    }

    /// Builds a load record for `frame`.
    pub fn new_load(frame: CFrame) -> (r: CRequest)
        ensures
            r == CRequest::load_spec(frame),
    {
        CRequest { request_type: CRequestType::LoadGameState, frame, player_handle: 0, input: 0 }
    }

    /// Builds an advance record.
    pub fn new_advance() -> (r: CRequest)
        ensures
            r == CRequest::advance_spec(),
    {
        CRequest { request_type: CRequestType::AdvanceFrame, frame: 0, player_handle: 0, input: 0 }
    }

    /// Builds an input record for one player.
    pub fn new_input(player_handle: CPlayerHandle, input: CInput) -> (r: CRequest)
        ensures
            r == CRequest::input_spec(player_handle, input),
    {
        CRequest { request_type: CRequestType::SetInput, frame: 0, player_handle, input }
    }
}

/// One event of the engine's per-advance batch, with any capability it carried
/// already resolved, so only plain data remains.
#[derive(Clone, Debug)]
pub enum CSessionEvent {
    /// The engine saved state for this frame.
    SaveGameState {
        /// Frame the saved state belongs to.
        frame: CFrame,
    },
    /// The engine restored the state of this frame.
    LoadGameState {
        /// Frame whose state was restored.
        frame: CFrame,
    },
    /// The engine resolved the inputs of every player for one frame;
    /// `inputs[p]` is the input of player slot `p`.
    AdvanceFrame {
        /// Per-player resolved inputs, indexed by player slot.
        inputs: Vec<CInput>,
    },
}

/// True of the events that only mark a state save or load.
pub open spec fn is_state_event(ev: CSessionEvent) -> bool {
    match ev {
        CSessionEvent::SaveGameState { .. } => true,
        CSessionEvent::LoadGameState { .. } => true,
        CSessionEvent::AdvanceFrame { .. } => false,
    }
}

/// The single record that a save or load event flattens to.
pub open spec fn state_record(ev: CSessionEvent) -> CRequest {
    match ev {
        CSessionEvent::SaveGameState { frame } => CRequest::save_spec(frame),
        CSessionEvent::LoadGameState { frame } => CRequest::load_spec(frame),
        CSessionEvent::AdvanceFrame { .. } => CRequest::advance_spec(),
    }
}

/// The records of one resolved-inputs event: one input record per player in
/// increasing slot order, then one advance record.
pub open spec fn advance_requests(inputs: Seq<CInput>) -> Seq<CRequest> {
    Seq::new(inputs.len(), |i: int| CRequest::input_spec(i as usize, inputs[i])).push(
        CRequest::advance_spec(),
    )
}

/// The records one event flattens to, in order.
pub open spec fn event_requests(ev: CSessionEvent) -> Seq<CRequest> {
    match ev {
        CSessionEvent::SaveGameState { frame } => seq![CRequest::save_spec(frame)],
        CSessionEvent::LoadGameState { frame } => seq![CRequest::load_spec(frame)],
        CSessionEvent::AdvanceFrame { inputs } => advance_requests(inputs@),
    }
}

/// The records a whole batch flattens to, preserving the batch's order.
pub open spec fn batch_requests(events: Seq<CSessionEvent>) -> Seq<CRequest>
    decreases events.len(),
{
    if events.len() == 0 {
        Seq::empty()
    } else {
        event_requests(events[0]) + batch_requests(events.drop_first())
    }
}

/// Flattening one more event appends that event's records.
pub proof fn lemma_batch_requests_snoc(events: Seq<CSessionEvent>, ev: CSessionEvent)
    ensures
        batch_requests(events.push(ev)) == batch_requests(events) + event_requests(ev),
    decreases events.len(),
{
    if events.len() == 0 {
        assert(events.push(ev).drop_first() =~= Seq::<CSessionEvent>::empty());
        assert(events.push(ev)[0] == ev);
        assert(batch_requests(Seq::<CSessionEvent>::empty()) == Seq::<CRequest>::empty());
        assert(batch_requests(events.push(ev)) == event_requests(ev) + Seq::<CRequest>::empty());
        assert(batch_requests(events.push(ev)) =~= batch_requests(events) + event_requests(ev));
    } else {
        assert(events.push(ev)[0] == events[0]);
        assert(events.push(ev).drop_first() =~= events.drop_first().push(ev));
        lemma_batch_requests_snoc(events.drop_first(), ev);
        assert(batch_requests(events.push(ev)) == event_requests(events[0]) + (batch_requests(
            events.drop_first(),
        ) + event_requests(ev)));
        assert(batch_requests(events.push(ev)) =~= batch_requests(events) + event_requests(ev));
    }
}

/// Flattening preserves the engine's emission order: the records of `a`
/// followed by `b` are the records of `a` followed by the records of `b`.
pub proof fn lemma_batch_requests_concat(a: Seq<CSessionEvent>, b: Seq<CSessionEvent>)
    ensures
        batch_requests(a + b) == batch_requests(a) + batch_requests(b),
    decreases a.len(),
{
    if a.len() == 0 {
        assert(a + b =~= b);
        assert(batch_requests(a) + batch_requests(b) =~= batch_requests(b));
    } else {
        assert((a + b)[0] == a[0]);
        assert((a + b).drop_first() =~= a.drop_first() + b);
        lemma_batch_requests_concat(a.drop_first(), b);
        assert(batch_requests(a + b) =~= batch_requests(a) + batch_requests(b));
    }
}

/// No flattened record ever carries the sentinel tag, so the sentinel returned
/// by a poll is unambiguous.
pub proof fn lemma_batch_requests_no_sentinel(events: Seq<CSessionEvent>)
    ensures
        forall|i: int|
            0 <= i < batch_requests(events).len() ==> (#[trigger] batch_requests(events)[i])
                .request_type != CRequestType::Empty,
    decreases events.len(),
{
    if events.len() > 0 {
        lemma_batch_requests_no_sentinel(events.drop_first());
        assert forall|i: int| 0 <= i < batch_requests(events).len() implies (
        #[trigger] batch_requests(events)[i]).request_type != CRequestType::Empty by {
            let head = event_requests(events[0]);
            if i < head.len() {
                assert(batch_requests(events)[i] == head[i]);
                match events[0] {
                    CSessionEvent::SaveGameState { frame } => {},
                    CSessionEvent::LoadGameState { frame } => {},
                    CSessionEvent::AdvanceFrame { inputs } => {
                        assert(head == advance_requests(inputs@));
                    },
                }
            } else {
                assert(batch_requests(events)[i] == batch_requests(events.drop_first())[i - head.len()]);
            }
        }
    }
}

/// A batch of save and load events flattens to exactly one record per event,
/// in the order the engine emitted them.
pub proof fn lemma_state_events_flatten(events: Seq<CSessionEvent>)
    requires
        forall|i: int| 0 <= i < events.len() ==> is_state_event(#[trigger] events[i]),
    ensures
        batch_requests(events) == events.map_values(|ev: CSessionEvent| state_record(ev)),
    decreases events.len(),
{
    let mapped = events.map_values(|ev: CSessionEvent| state_record(ev));
    if events.len() == 0 {
        assert(batch_requests(events) =~= mapped);
    } else {
        lemma_state_events_flatten(events.drop_first());
        assert(is_state_event(events[0]));
        assert(event_requests(events[0]) =~= seq![state_record(events[0])]);
        assert(events.drop_first().map_values(|ev: CSessionEvent| state_record(ev)) =~= mapped
            .drop_first());
        assert(batch_requests(events) =~= mapped);
    }
}

/// The shape of one resolved-inputs block: input records in increasing player
/// order, one per player, then a single advance record.
pub proof fn lemma_advance_block(inputs: Seq<CInput>)
    ensures
        advance_requests(inputs).len() == inputs.len() + 1,
        forall|i: int|
            0 <= i < inputs.len() ==> advance_requests(inputs)[i] == CRequest::input_spec(
                i as usize,
                inputs[i],
            ),
        advance_requests(inputs)[inputs.len() as int] == CRequest::advance_spec(),
{
}

/// Order preservation around a resolved-inputs event: save/load events before
/// and after it keep their places, and the input/advance block sits between
/// them exactly as emitted.
pub proof fn lemma_advance_emission_order(
    pre: Seq<CSessionEvent>,
    ev: CSessionEvent,
    post: Seq<CSessionEvent>,
)
    requires
        forall|i: int| 0 <= i < pre.len() ==> is_state_event(#[trigger] pre[i]),
        forall|i: int| 0 <= i < post.len() ==> is_state_event(#[trigger] post[i]),
        !is_state_event(ev),
    ensures
        batch_requests(pre + seq![ev] + post) == pre.map_values(
            |e: CSessionEvent| state_record(e),
        ) + event_requests(ev) + post.map_values(|e: CSessionEvent| state_record(e)),
{
    lemma_batch_requests_concat(pre + seq![ev], post);
    lemma_batch_requests_concat(pre, seq![ev]);
    lemma_state_events_flatten(pre);
    lemma_state_events_flatten(post);
    assert(batch_requests(seq![ev]) =~= event_requests(ev)) by {
        assert(seq![ev][0] == ev);
        assert(seq![ev].drop_first() =~= Seq::<CSessionEvent>::empty());
        assert(batch_requests(seq![ev].drop_first()) == Seq::<CRequest>::empty());
    }
}

/// Appends the records of one event to the back of a queue.
fn push_event(queue: &mut VecDeque<CRequest>, ev: &CSessionEvent)
    ensures
        final(queue)@ == old(queue)@ + event_requests(*ev),
{
    match ev {
        CSessionEvent::SaveGameState { frame } => {
            queue.push_back(CRequest::new_save(*frame));
            proof {
                assert(queue@ =~= old(queue)@ + event_requests(*ev));
            }
        },
        CSessionEvent::LoadGameState { frame } => {
            queue.push_back(CRequest::new_load(*frame));
            proof {
                assert(queue@ =~= old(queue)@ + event_requests(*ev));
            }
        },
        CSessionEvent::AdvanceFrame { inputs } => {
            let n = inputs.len();
            let mut i: usize = 0;
            while i < n
                invariant
                    i <= n,
                    n == inputs@.len(),
                    queue@ == old(queue)@ + Seq::new(
                        i as nat,
                        |j: int| CRequest::input_spec(j as usize, inputs@[j]),
                    ),
                decreases n - i,
            {
                queue.push_back(CRequest::new_input(i, inputs[i]));
                proof {
                    assert(queue@ =~= old(queue)@ + Seq::new(
                        (i + 1) as nat,
                        |j: int| CRequest::input_spec(j as usize, inputs@[j]),
                    ));
                }
                i += 1;
            }
            queue.push_back(CRequest::new_advance());
            proof {
                assert(queue@ =~= old(queue)@ + advance_requests(inputs@));
            }
        },
    }
}

/// Appends the records of a whole engine batch to the back of a queue,
/// preserving the batch's order.
pub fn append_batch(queue: &mut VecDeque<CRequest>, events: &Vec<CSessionEvent>)
    ensures
        final(queue)@ == old(queue)@ + batch_requests(events@),
{
    let mut k: usize = 0;
    while k < events.len()
        invariant
            k <= events@.len(),
            queue@ == old(queue)@ + batch_requests(events@.take(k as int)),
        decreases events@.len() - k,
    {
        push_event(queue, &events[k]);
        proof {
            lemma_batch_requests_snoc(events@.take(k as int), events@[k as int]);
            assert(events@.take(k as int).push(events@[k as int]) =~= events@.take(k as int + 1));
        }
        k += 1;
    }
    proof {
        assert(events@.take(events@.len() as int) =~= events@);
    }
}

} // verus!
