//! The generation protocol as a state machine.
//!
//! A generator is shared by two parties. The consumer submits prompts, asks
//! the worker to stop, drains the messages that have arrived and, at the
//! end, shuts the generator down. The worker polls for what to do next and
//! hands in what the engine produced. Each of these is one event; this
//! module says what each event does to the state and proves what holds of
//! every state that a sequence of events can lead to.

use crate::message::{GeneratorMode, MessageView};
use vstd::prelude::*;

verus! {

/// A request of the consumer that the worker has not read yet.
pub enum CommandView {
    /// Generate a reply to the prompt with this identifier and text.
    Prompt(nat, Seq<char>),
    /// Abandon the request in flight.
    Stop,
}

impl CommandView {
    /// The prompt that a submission carries; a stop request carries none.
    pub open spec fn prompt(self) -> Option<nat> {
        match self {
            CommandView::Prompt(id, _) => Some(id),
            CommandView::Stop => None,
        }
    }
}

/// What the worker is doing.
#[derive(Clone, Copy, Debug, PartialEq, Eq, Structural)]
pub enum Activity {
    /// Waiting for a prompt.
    Idle,
    /// Producing the reply to the prompt that it took up last.
    Generating,
    /// Gone: it has seen the shutdown and will do nothing more.
    Exited,
}

/// What a poll tells the worker to do next.
pub enum DirectiveView {
    /// Drop what is in flight and start on this prompt.
    Begin(nat, Seq<char>),
    /// Drop what is in flight.
    Abandon,
    /// Go on with the reply to this prompt.
    Generate(nat),
    /// Nothing to do until the consumer asks for something.
    Wait,
    /// Leave.
    Exit,
}

/// One step of the protocol.
pub enum Event {
    /// The consumer submits a prompt with this text.
    SendPrompt(Seq<char>),
    /// The consumer takes the next message, if there is one.
    NextMessage,
    /// The consumer asks the worker to abandon the request in flight.
    Stop,
    /// The consumer shuts the generator down.
    Shutdown,
    /// The worker asks what to do next.
    Poll,
    /// The worker hands in a fragment that the engine produced.
    Deliver(Seq<char>),
    /// The worker reports that the engine failed.
    Fail(Seq<char>),
    /// The worker reports that the reply is complete.
    Finish,
}

/// The state that the consumer and the worker share.
pub struct GeneratorState {
    /// The mode that the generator was made with.
    pub mode: GeneratorMode,
    /// How many prompts have been submitted. Their identifiers are
    /// `1..=minted`.
    pub minted: nat,
    /// The prompt that the worker took up last; 0 before the first.
    pub begun: nat,
    /// What the worker is doing.
    pub activity: Activity,
    /// Whether the consumer has shut the generator down.
    pub closed: bool,
    /// The requests that the worker has not read yet, oldest first.
    pub commands: Seq<CommandView>,
    /// The messages that the consumer has not taken yet, oldest first.
    pub messages: Seq<MessageView>,
    /// Every message that the worker has handed in, oldest first.
    pub produced: Seq<MessageView>,
    /// Every message that the consumer has taken, oldest first.
    pub received: Seq<MessageView>,
}

impl GeneratorState {
    /// A generator that has just been made: nothing submitted, nothing
    /// produced, the worker waiting.
    pub open spec fn initial(mode: GeneratorMode) -> GeneratorState {
        GeneratorState {
            mode,
            minted: 0,
            begun: 0,
            activity: Activity::Idle,
            closed: false,
            commands: Seq::empty(),
            messages: Seq::empty(),
            produced: Seq::empty(),
            received: Seq::empty(),
        }
    }

    /// The identifier that the next submission gets.
    pub open spec fn next_id(self) -> nat {
        self.minted + 1
    }

    /// A submission mints the next identifier and queues the prompt for
    /// the worker. A generator that was shut down still mints, and queues
    /// nothing.
    pub open spec fn send_prompt(self, text: Seq<char>) -> GeneratorState {
        GeneratorState {
            minted: self.next_id(),
            commands: if self.closed {
                self.commands
            } else {
                self.commands.push(CommandView::Prompt(self.next_id(), text))
            },
            ..self
        }
    }

    /// The message that the consumer gets when it asks for one.
    pub open spec fn front(self) -> Option<MessageView> {
        if self.messages.len() > 0 {
            Some(self.messages[0])
        } else {
            None
        }
    }

    /// Taking a message removes the oldest one that waits. With none
    /// waiting, nothing changes.
    pub open spec fn next_message(self) -> GeneratorState {
        if self.messages.len() > 0 {
            GeneratorState {
                messages: self.messages.drop_first(),
                received: self.received.push(self.messages[0]),
                ..self
            }
        } else {
            self
        }
    }

    /// The state after the consumer has taken every message that waits.
    pub open spec fn drained(self) -> GeneratorState {
        GeneratorState {
            messages: Seq::empty(),
            received: self.received + self.messages,
            ..self
        }
    }

    /// A stop request is queued behind the requests that wait already. The
    /// messages that wait stay where they are.
    pub open spec fn stop(self) -> GeneratorState {
        if self.closed {
            self
        } else {
            GeneratorState { commands: self.commands.push(CommandView::Stop), ..self }
        }
    }

    /// A shutdown closes the generator and drops the requests that the
    /// worker has not read.
    pub open spec fn shutdown(self) -> GeneratorState {
        GeneratorState { closed: true, commands: Seq::empty(), ..self }
    }

    /// What a poll tells the worker in this state.
    pub open spec fn directive(self) -> DirectiveView {
        if self.activity is Exited || self.closed {
            DirectiveView::Exit
        } else if self.commands.len() == 0 {
            if self.activity is Generating {
                DirectiveView::Generate(self.begun)
            } else {
                DirectiveView::Wait
            }
        } else {
            match self.commands[0] {
                CommandView::Prompt(id, text) => DirectiveView::Begin(id, text),
                CommandView::Stop => DirectiveView::Abandon,
            }
        }
    }

    /// A poll reads at most one request. A prompt supersedes what is in
    /// flight; a stop request ends it; a shutdown ends the worker.
    pub open spec fn poll(self) -> GeneratorState {
        match self.directive() {
            DirectiveView::Exit => GeneratorState { activity: Activity::Exited, ..self },
            DirectiveView::Begin(id, _) => GeneratorState {
                activity: Activity::Generating,
                begun: id,
                commands: self.commands.drop_first(),
                ..self
            },
            DirectiveView::Abandon => GeneratorState {
                activity: Activity::Idle,
                commands: self.commands.drop_first(),
                ..self
            },
            DirectiveView::Generate(_) => self,
            DirectiveView::Wait => self,
        }
    }

    /// A fragment is queued for the consumer under the prompt that the
    /// worker is generating for. A worker that is not generating has its
    /// fragment dropped.
    pub open spec fn deliver(self, fragment: Seq<char>) -> GeneratorState {
        if self.activity is Generating {
            GeneratorState {
                messages: self.messages.push(MessageView::Token(self.begun, fragment)),
                produced: self.produced.push(MessageView::Token(self.begun, fragment)),
                ..self
            }
        } else {
            self
        }
    }

    /// A failure of the engine is queued for the consumer as one error
    /// notice and ends the request in flight. The worker goes on waiting.
    pub open spec fn fail(self, error: Seq<char>) -> GeneratorState {
        if self.activity is Generating {
            GeneratorState {
                activity: Activity::Idle,
                messages: self.messages.push(MessageView::Error(error)),
                produced: self.produced.push(MessageView::Error(error)),
                ..self
            }
        } else {
            self
        }
    }

    /// A complete reply ends the request in flight.
    pub open spec fn finish(self) -> GeneratorState {
        if self.activity is Generating {
            GeneratorState { activity: Activity::Idle, ..self }
        } else {
            self
        }
    }

    /// What the engine returned for the request in flight, taken in: a
    /// fragment, the end of the reply, or a failure.
    pub open spec fn record(self, outcome: Result<Option<Seq<char>>, Seq<char>>) -> GeneratorState {
        match outcome {
            Ok(Some(fragment)) => self.deliver(fragment),
            Ok(None) => self.finish(),
            Err(error) => self.fail(error),
        }
    }

    /// The state after one event.
    pub open spec fn step(self, event: Event) -> GeneratorState {
        match event {
            Event::SendPrompt(text) => self.send_prompt(text),
            Event::NextMessage => self.next_message(),
            Event::Stop => self.stop(),
            Event::Shutdown => self.shutdown(),
            Event::Poll => self.poll(),
            Event::Deliver(fragment) => self.deliver(fragment),
            Event::Fail(error) => self.fail(error),
            Event::Finish => self.finish(),
        }
    }

    /// The state after a sequence of events, the first event first.
    pub open spec fn run(self, events: Seq<Event>) -> GeneratorState
        decreases events.len(),
    {
        if events.len() == 0 {
            self
        } else {
            self.run(events.drop_last()).step(events.last())
        }
    }

    /// The identifiers that the submissions among `events` got, in the order
    /// of the submissions, when the events start in this state.
    pub open spec fn ids_returned(self, events: Seq<Event>) -> Seq<nat>
        decreases events.len(),
    {
        if events.len() == 0 {
            Seq::empty()
        } else {
            let earlier = self.ids_returned(events.drop_last());
            if events.last() is SendPrompt {
                earlier.push(self.run(events.drop_last()).next_id())
            } else {
                earlier
            }
        }
    }

    /// What holds of every state that events lead to from an initial one.
    pub open spec fn wf(self) -> bool {
        &&& self.begun <= self.minted
        &&& (self.activity is Generating ==> self.begun >= 1)
        &&& (self.closed ==> self.commands.len() == 0)
        &&& prompts_within(self.commands, self.begun, self.minted)
        &&& prompts_in_order(self.commands)
        &&& self.produced == self.received + self.messages
        &&& fragments_within(self.produced, self.begun)
        &&& fragments_in_order(self.produced)
    }
}

/// Every prompt that waits has an identifier above `low` and up to `high`.
pub open spec fn prompts_within(commands: Seq<CommandView>, low: nat, high: nat) -> bool {
    forall|k: int|
        0 <= k < commands.len() ==> match (#[trigger] commands[k]).prompt() {
            Some(id) => low < id <= high,
            None => true,
        }
}

/// The prompts that wait have increasing identifiers.
pub open spec fn prompts_in_order(commands: Seq<CommandView>) -> bool {
    forall|i: int, j: int|
        0 <= i < j < commands.len() ==> match (
            (#[trigger] commands[i]).prompt(),
            (#[trigger] commands[j]).prompt(),
        ) {
            (Some(a), Some(b)) => a < b,
            _ => true,
        }
}

/// Every fragment of the log belongs to a prompt from 1 up to `high`.
pub open spec fn fragments_within(log: Seq<MessageView>, high: nat) -> bool {
    forall|k: int|
        0 <= k < log.len() ==> match (#[trigger] log[k]).prompt() {
            Some(id) => 1 <= id <= high,
            None => true,
        }
}

/// Along the log the fragments' prompts never go back: once a fragment of a
/// later prompt has appeared, none of an earlier prompt follows.
pub open spec fn fragments_in_order(log: Seq<MessageView>) -> bool {
    forall|i: int, j: int|
        0 <= i < j < log.len() ==> match (
            (#[trigger] log[i]).prompt(),
            (#[trigger] log[j]).prompt(),
        ) {
            (Some(a), Some(b)) => a <= b,
            _ => true,
        }
}

/// No event breaks what holds of the states.
pub proof fn lemma_step_keeps_wf(state: GeneratorState, event: Event)
    requires
        state.wf(),
    ensures
        state.step(event).wf(),
{
    let next = state.step(event);
    assert(next.produced =~= next.received + next.messages);
}

/// No sequence of events breaks what holds of the states.
pub proof fn lemma_run_keeps_wf(state: GeneratorState, events: Seq<Event>)
    requires
        state.wf(),
    ensures
        state.run(events).wf(),
    decreases events.len(),
{
    if events.len() > 0 {
        lemma_run_keeps_wf(state, events.drop_last());
        lemma_step_keeps_wf(state.run(events.drop_last()), events.last());
    }
}

/// Every state that events lead to from an initial one is well formed.
pub proof fn lemma_reachable_is_wf(mode: GeneratorMode, events: Seq<Event>)
    ensures
        GeneratorState::initial(mode).run(events).wf(),
{
    lemma_run_keeps_wf(GeneratorState::initial(mode), events);
}

/// The identifiers that successive submissions get count up by one from the
/// number of prompts submitted before, whatever else happens in between. So
/// they increase strictly, and no two of them are equal.
pub proof fn lemma_ids_count_up(state: GeneratorState, events: Seq<Event>)
    ensures
        state.run(events).minted == state.minted + state.ids_returned(events).len(),
        forall|k: int|
            0 <= k < state.ids_returned(events).len() ==> #[trigger] state.ids_returned(events)[k]
                == state.minted + 1 + k,
        forall|i: int, j: int|
            0 <= i < j < state.ids_returned(events).len() ==> state.ids_returned(events)[i]
                < state.ids_returned(events)[j],
    decreases events.len(),
{
    if events.len() > 0 {
        lemma_ids_count_up(state, events.drop_last());
    }
}

/// The consumer receives the messages in the order in which the worker
/// handed them in, none left out and none twice: what it has received is
/// the beginning of what was produced, and what waits is the rest.
pub proof fn lemma_received_in_order(state: GeneratorState)
    requires
        state.wf(),
    ensures
        state.received.is_prefix_of(state.produced),
        state.messages == state.produced.skip(state.received.len() as int),
{
}

/// The fragments of one prompt reach the consumer in the order in which
/// they were produced for that prompt.
pub proof fn lemma_received_in_order_per_prompt(state: GeneratorState, id: nat)
    requires
        state.wf(),
    ensures
        state.received.filter(|m: MessageView| m.prompt() == Some(id)).is_prefix_of(
            state.produced.filter(|m: MessageView| m.prompt() == Some(id)),
        ),
{
    let of_prompt = |m: MessageView| m.prompt() == Some(id);
    Seq::filter_distributes_over_add(state.received, state.messages, of_prompt);
}

/// Every fragment that the consumer has received, after any sequence of
/// events, bears the identifier that exactly one submission among those
/// events returned.
pub proof fn lemma_fragments_name_one_submission(mode: GeneratorMode, events: Seq<Event>, k: int)
    requires
        0 <= k < GeneratorState::initial(mode).run(events).received.len(),
        GeneratorState::initial(mode).run(events).received[k].prompt() is Some,
    ensures
        ({
            let start = GeneratorState::initial(mode);
            let id = start.run(events).received[k].prompt()->0;
            let ids = start.ids_returned(events);
            &&& 1 <= id <= ids.len()
            &&& ids[id - 1] == id
            &&& forall|j: int| 0 <= j < ids.len() && ids[j] == id ==> j == id - 1
        }),
{
    let start = GeneratorState::initial(mode);
    let state = start.run(events);
    lemma_reachable_is_wf(mode, events);
    lemma_ids_count_up(start, events);
    assert(state.produced[k] == state.received[k]);
}

/// A prompt that is submitted after a stop request gets an identifier that
/// no fragment produced so far bears. And whatever happens next, once the
/// consumer has received a fragment of the new prompt, no fragment of an
/// earlier prompt follows: stale fragments can be told by their identifier,
/// and they come first.
pub proof fn lemma_stale_fragments_stay_behind(
    state: GeneratorState,
    text: Seq<char>,
    events: Seq<Event>,
)
    requires
        state.wf(),
    ensures
        ({
            let id = state.next_id();
            let later = state.stop().send_prompt(text).run(events);
            &&& forall|k: int|
                0 <= k < state.produced.len() ==> (#[trigger] state.produced[k]).prompt() != Some(
                    id,
                )
            &&& forall|i: int, j: int|
                0 <= i < j < later.received.len() && (#[trigger] later.received[i]).prompt()
                    == Some(id) ==> match (#[trigger] later.received[j]).prompt() {
                    Some(other) => other >= id,
                    None => true,
                }
        }),
{
    let id = state.next_id();
    let later = state.stop().send_prompt(text).run(events);
    lemma_step_keeps_wf(state, Event::Stop);
    lemma_step_keeps_wf(state.stop(), Event::SendPrompt(text));
    lemma_run_keeps_wf(state.stop().send_prompt(text), events);
    assert forall|i: int, j: int|
        0 <= i < j < later.received.len() && (#[trigger] later.received[i]).prompt() == Some(
            id,
        ) implies match (#[trigger] later.received[j]).prompt() {
        Some(other) => other >= id,
        None => true,
    } by {
        assert(later.produced[i] == later.received[i]);
        assert(later.produced[j] == later.received[j]);
    }
}

/// Draining is taking messages until none waits: with none waiting it
/// changes nothing, and otherwise it is one message taken and the rest
/// drained.
pub proof fn lemma_drained_takes_all(state: GeneratorState)
    ensures
        state.messages.len() == 0 ==> state.drained() == state,
        state.messages.len() > 0 ==> state.drained() == state.next_message().drained(),
        state.drained().front() is None,
{
    if state.messages.len() == 0 {
        assert(state.messages =~= Seq::empty());
    } else {
        assert(state.received + state.messages =~= state.received.push(state.messages[0])
            + state.messages.drop_first());
    }
}

/// `count` times the event of the consumer taking a message.
pub open spec fn takings(count: nat) -> Seq<Event> {
    Seq::new(count, |i: int| Event::NextMessage)
}

/// Taking as many messages as wait, one after the other, drains the queue:
/// what is left of an earlier reply holds up the fragments behind it for as
/// many takings as it has messages, and no longer.
pub proof fn lemma_taking_drains(state: GeneratorState, count: nat)
    requires
        count <= state.messages.len(),
    ensures
        state.run(takings(count)) == (GeneratorState {
            messages: state.messages.skip(count as int),
            received: state.received + state.messages.take(count as int),
            ..state
        }),
        count == state.messages.len() ==> state.run(takings(count)) == state.drained(),
    decreases count,
{
    let after = GeneratorState {
        messages: state.messages.skip(count as int),
        received: state.received + state.messages.take(count as int),
        ..state
    };
    if count == 0 {
        assert(after.messages =~= state.messages);
    } else {
        let fewer = (count - 1) as nat;
        lemma_taking_drains(state, fewer);
        assert(takings(count).drop_last() =~= takings(fewer));
        let before = state.run(takings(fewer));
        assert(before.next_message().messages =~= after.messages);
        assert(before.next_message().received =~= after.received);
    }
    if count == state.messages.len() {
        assert(after.messages =~= Seq::empty());
        assert(state.messages.take(count as int) =~= state.messages);
    }
}

/// The mode of a generator never changes.
pub proof fn lemma_mode_is_fixed(state: GeneratorState, events: Seq<Event>)
    ensures
        state.run(events).mode == state.mode,
    decreases events.len(),
{
    if events.len() > 0 {
        lemma_mode_is_fixed(state, events.drop_last());
    }
}

/// A second shutdown changes nothing.
pub proof fn lemma_shutdown_is_idempotent(state: GeneratorState)
    ensures
        state.shutdown().shutdown() == state.shutdown(),
{
}

/// After a shutdown the worker is told to leave at its next poll.
pub proof fn lemma_shutdown_ends_worker(state: GeneratorState)
    ensures
        state.shutdown().directive() == DirectiveView::Exit,
        state.shutdown().poll().activity is Exited,
{
}

/// A worker that has left stays gone and produces nothing more, whatever
/// events follow.
pub proof fn lemma_exited_worker_stays_gone(state: GeneratorState, events: Seq<Event>)
    requires
        state.activity is Exited,
    ensures
        state.run(events).activity is Exited,
        state.run(events).produced == state.produced,
    decreases events.len(),
{
    if events.len() > 0 {
        lemma_exited_worker_stays_gone(state, events.drop_last());
    }
}

/// `later` comes after `state`, and nothing produced in between belongs to a
/// prompt older than the one that the worker had taken up last by then.
pub open spec fn has_kept_up(state: GeneratorState, later: GeneratorState) -> bool {
    &&& later.wf()
    &&& state.begun <= later.begun
    &&& state.produced.is_prefix_of(later.produced)
    &&& forall|k: int|
        state.produced.len() <= k < later.produced.len() ==> match (
            #[trigger] later.produced[k]).prompt() {
            Some(id) => state.begun <= id,
            None => true,
        }
}

proof fn lemma_step_keeps_up(state: GeneratorState, later: GeneratorState, event: Event)
    requires
        has_kept_up(state, later),
    ensures
        has_kept_up(state, later.step(event)),
{
    lemma_step_keeps_wf(later, event);
}

/// A prompt that the worker has taken up supersedes the ones before it: from
/// then on no fragment of an earlier prompt is produced. What was produced
/// before stays as it was.
pub proof fn lemma_superseded_request_is_over(state: GeneratorState, events: Seq<Event>)
    requires
        state.wf(),
    ensures
        has_kept_up(state, state.run(events)),
    decreases events.len(),
{
    if events.len() > 0 {
        lemma_superseded_request_is_over(state, events.drop_last());
        lemma_step_keeps_up(state, state.run(events.drop_last()), events.last());
    }
}

/// `later` comes after `state`, in which the worker was not generating, and
/// nothing produced in between belongs to a prompt that the worker had
/// taken up by then.
pub open spec fn has_moved_on(state: GeneratorState, later: GeneratorState) -> bool {
    &&& later.wf()
    &&& state.begun <= later.begun
    &&& (later.activity is Generating ==> state.begun < later.begun)
    &&& state.produced.is_prefix_of(later.produced)
    &&& forall|k: int|
        state.produced.len() <= k < later.produced.len() ==> match (
            #[trigger] later.produced[k]).prompt() {
            Some(id) => state.begun < id,
            None => true,
        }
}

proof fn lemma_step_moves_on(state: GeneratorState, later: GeneratorState, event: Event)
    requires
        has_moved_on(state, later),
    ensures
        has_moved_on(state, later.step(event)),
{
    lemma_step_keeps_wf(later, event);
}

/// Once the worker has left a request, because the reply was complete, the
/// engine failed, a stop request was read or the worker was idle anyway, no
/// fragment that is produced later belongs to that request or to an earlier
/// one. What was produced before stays as it was.
pub proof fn lemma_left_request_is_over(state: GeneratorState, events: Seq<Event>)
    requires
        state.wf(),
        !(state.activity is Generating),
    ensures
        has_moved_on(state, state.run(events)),
    decreases events.len(),
{
    if events.len() > 0 {
        lemma_left_request_is_over(state, events.drop_last());
        lemma_step_moves_on(state, state.run(events.drop_last()), events.last());
    }
}

} // verus!
