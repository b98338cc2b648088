//! The generator: the one object through which the consumer and the
//! generation worker talk.
//!
//! The consumer's side is `send_prompt`, `next_message`, `stop`, `shutdown`
//! and `mode`. The worker's side is `poll`, `deliver`, `fail` and `finish`.
//! No call waits for the other party: each one reads or changes the shared
//! state and returns. Whoever embeds the generator runs the worker in an
//! execution context of its own and lets the two parties take turns on it.
//!
//! Each method is one event of `crate::protocol`, and its contract says that
//! the state moves as that event prescribes.

use crate::message::{GeneratorMode, Message, MessageView, PromptId};
use crate::protocol::{
    lemma_step_keeps_wf, Activity, CommandView, DirectiveView, Event, GeneratorState,
};
use std::collections::VecDeque;
use vstd::prelude::*;

verus! {

/// A request of the consumer that the worker has not read yet.
enum Command {
    Prompt(PromptId, String),
    Stop,
}

impl View for Command {
    type V = CommandView;

    closed spec fn view(&self) -> CommandView {
        match *self {
            Command::Prompt(id, text) => CommandView::Prompt(id@, text@),
            Command::Stop => CommandView::Stop,
        }
    }
}

/// What a poll tells the worker to do next.
#[derive(Debug)]
pub enum Directive {
    /// Drop what is in flight and start on this prompt.
    Begin(PromptId, String),
    /// Drop what is in flight.
    Abandon,
    /// Go on with the reply to this prompt.
    Generate(PromptId),
    /// Nothing to do until the consumer asks for something.
    Wait,
    /// Leave.
    Exit,
}

impl View for Directive {
    type V = DirectiveView;

    open spec fn view(&self) -> DirectiveView {
        match *self {
            Directive::Begin(id, text) => DirectiveView::Begin(id@, text@),
            Directive::Abandon => DirectiveView::Abandon,
            Directive::Generate(id) => DirectiveView::Generate(id@),
            Directive::Wait => DirectiveView::Wait,
            Directive::Exit => DirectiveView::Exit,
        }
    }
}

/// What the engine returned as a plain value.
pub open spec fn outcome_view(outcome: Result<Option<String>, String>) -> Result<
    Option<Seq<char>>,
    Seq<char>,
> {
    match outcome {
        Ok(Some(fragment)) => Ok(Some(fragment@)),
        Ok(None) => Ok(None),
        Err(error) => Err(error@),
    }
}

/// The state that a consumer and a generation worker share.
pub struct Generator {
    mode: GeneratorMode,
    /// The identifier minted last; 0 before the first.
    minted: u64,
    /// The identifier of the prompt that the worker took up last.
    begun: u64,
    activity: Activity,
    closed: bool,
    /// From the consumer to the worker, oldest first.
    commands: VecDeque<Command>,
    /// From the worker to the consumer, oldest first.
    messages: VecDeque<Message>,
    /// Every message that was ever queued for the consumer.
    produced: Ghost<Seq<MessageView>>,
    /// Every message that the consumer has taken.
    received: Ghost<Seq<MessageView>>,
}

impl View for Generator {
    type V = GeneratorState;

    closed spec fn view(&self) -> GeneratorState {
        GeneratorState {
            mode: self.mode,
            minted: self.minted as nat,
            begun: self.begun as nat,
            activity: self.activity,
            closed: self.closed,
            commands: self.commands@.map_values(|command: Command| command@),
            messages: self.messages@.map_values(|message: Message| message@),
            produced: self.produced@,
            received: self.received@,
        }
    }
}

impl Generator {
    /// A generator for the given mode, with nothing submitted and the worker
    /// waiting for the first prompt.
    pub fn new(mode: GeneratorMode) -> (generator: Generator)
        ensures
            generator@ == GeneratorState::initial(mode),
            generator@.wf(),
    {
        let generator = Generator {
            mode,
            minted: 0,
            begun: 0,
            activity: Activity::Idle,
            closed: false,
            commands: VecDeque::new(),
            messages: VecDeque::new(),
            produced: Ghost(Seq::empty()),
            received: Ghost(Seq::empty()),
        };
        assert(generator@.commands =~= Seq::empty());
        assert(generator@.messages =~= Seq::empty());
        generator
    }

    /// The mode that the generator was made with.
    pub fn mode(&self) -> (mode: GeneratorMode)
        ensures
            mode == self@.mode,
    {
        self.mode
    }

    /// Whether another prompt can be submitted: the identifiers have not run
    /// out.
    pub fn can_send(&self) -> (ready: bool)
        ensures
            ready == (self@.minted < u64::MAX),
    {
        self.minted < u64::MAX
    }

    /// Submits a prompt and returns its identifier, which is larger than
    /// every identifier returned before. The identifier is there at once;
    /// generation starts when the worker next polls.
    pub fn send_prompt(&mut self, text: &str) -> (id: PromptId)
        requires
            old(self)@.minted < u64::MAX,
        ensures
            id@ == old(self)@.next_id(),
            final(self)@ == old(self)@.send_prompt(text@),
            old(self)@.wf() ==> final(self)@.wf(),
    {
        proof {
            if self@.wf() {
                lemma_step_keeps_wf(self@, Event::SendPrompt(text@));
            }
        }
        self.minted = self.minted + 1;
        let id = PromptId { value: self.minted };
        if !self.closed {
            self.commands.push_back(Command::Prompt(id, text.to_owned()));
        }
        assert(self@.commands =~= old(self)@.send_prompt(text@).commands);
        id
    }

    /// Takes the oldest message that waits for the consumer. Returns `None`
    /// at once where none waits.
    pub fn next_message(&mut self) -> (message: Option<Message>)
        ensures
            match message {
                Some(m) => old(self)@.front() == Some(m@),
                None => old(self)@.front() is None,
            },
            final(self)@ == old(self)@.next_message(),
            old(self)@.messages.len() == 0 ==> message is None && final(self)@ == old(self)@,
            old(self)@.wf() ==> final(self)@.wf(),
    {
        proof {
            if self@.wf() {
                lemma_step_keeps_wf(self@, Event::NextMessage);
            }
        }
        let message = self.messages.pop_front();
        match &message {
            Some(m) => {
                self.received = Ghost(self.received@.push(m@));
                assert(self@.messages =~= old(self)@.messages.drop_first());
            },
            None => {},
        }
        message
    }

    /// Asks the worker to abandon the request in flight. The worker does so
    /// when it next polls, so fragments of that request may still arrive;
    /// they carry its identifier.
    pub fn stop(&mut self)
        ensures
            final(self)@ == old(self)@.stop(),
            old(self)@.wf() ==> final(self)@.wf(),
    {
        proof {
            if self@.wf() {
                lemma_step_keeps_wf(self@, Event::Stop);
            }
        }
        if !self.closed {
            self.commands.push_back(Command::Stop);
        }
        assert(self@.commands =~= old(self)@.stop().commands);
    }

    /// Shuts the generator down: the worker is told to leave when it next
    /// polls. A second shutdown changes nothing.
    pub fn shutdown(&mut self)
        ensures
            final(self)@ == old(self)@.shutdown(),
            old(self)@.wf() ==> final(self)@.wf(),
    {
        proof {
            if self@.wf() {
                lemma_step_keeps_wf(self@, Event::Shutdown);
            }
        }
        self.closed = true;
        self.commands.clear();
        assert(self@.commands =~= Seq::empty());
    }

    /// Whether the generator was shut down.
    pub fn is_shut_down(&self) -> (closed: bool)
        ensures
            closed == self@.closed,
    {
        self.closed
    }

    /// What the worker is doing.
    pub fn activity(&self) -> (activity: Activity)
        ensures
            activity == self@.activity,
    {
        self.activity
    }

    /// Tells the worker what to do next. The worker polls before each
    /// fragment, so a stop request, a newer prompt or a shutdown takes
    /// effect at the next fragment boundary.
    pub fn poll(&mut self) -> (directive: Directive)
        ensures
            directive@ == old(self)@.directive(),
            final(self)@ == old(self)@.poll(),
            old(self)@.wf() ==> final(self)@.wf(),
    {
        proof {
            if self@.wf() {
                lemma_step_keeps_wf(self@, Event::Poll);
            }
        }
        if self.activity == Activity::Exited || self.closed {
            self.activity = Activity::Exited;
            return Directive::Exit;
        }
        match self.commands.pop_front() {
            None => {
                if self.activity == Activity::Generating {
                    Directive::Generate(PromptId { value: self.begun })
                } else {
                    Directive::Wait
                }
            },
            Some(Command::Prompt(id, text)) => {
                self.activity = Activity::Generating;
                self.begun = id.value;
                assert(self@.commands =~= old(self)@.commands.drop_first());
                Directive::Begin(id, text)
            },
            Some(Command::Stop) => {
                self.activity = Activity::Idle;
                assert(self@.commands =~= old(self)@.commands.drop_first());
                Directive::Abandon
            },
        }
    }

    /// Hands in a fragment of the reply that the worker is generating. It
    /// is queued behind the messages that wait already, under the prompt
    /// that the worker took up last. Returns whether it was queued: the
    /// fragment of a worker that is not generating is dropped.
    pub fn deliver(&mut self, fragment: String) -> (queued: bool)
        ensures
            queued == (old(self)@.activity is Generating),
            final(self)@ == old(self)@.deliver(fragment@),
            old(self)@.wf() ==> final(self)@.wf(),
    {
        proof {
            if self@.wf() {
                lemma_step_keeps_wf(self@, Event::Deliver(fragment@));
            }
        }
        if self.activity == Activity::Generating {
            let message = Message::Token(PromptId { value: self.begun }, fragment);
            self.produced = Ghost(self.produced@.push(message@));
            self.messages.push_back(message);
            assert(self@.messages =~= old(self)@.deliver(fragment@).messages);
            true
        } else {
            false
        }
    }

    /// Reports that the engine failed on the request in flight. One error
    /// notice is queued for the consumer and the request is over; the worker
    /// goes on waiting for the next prompt. Returns whether the notice was
    /// queued: the report of a worker that is not generating is dropped.
    pub fn fail(&mut self, error: String) -> (queued: bool)
        ensures
            queued == (old(self)@.activity is Generating),
            final(self)@ == old(self)@.fail(error@),
            old(self)@.wf() ==> final(self)@.wf(),
    {
        proof {
            if self@.wf() {
                lemma_step_keeps_wf(self@, Event::Fail(error@));
            }
        }
        if self.activity == Activity::Generating {
            let message = Message::Error(error);
            self.produced = Ghost(self.produced@.push(message@));
            self.messages.push_back(message);
            self.activity = Activity::Idle;
            assert(self@.messages =~= old(self)@.fail(error@).messages);
            true
        } else {
            false
        }
    }

    /// Reports that the reply to the request in flight is complete.
    pub fn finish(&mut self)
        ensures
            final(self)@ == old(self)@.finish(),
            old(self)@.wf() ==> final(self)@.wf(),
    {
        proof {
            if self@.wf() {
                lemma_step_keeps_wf(self@, Event::Finish);
            }
        }
        if self.activity == Activity::Generating {
            self.activity = Activity::Idle;
        }
    }

    /// Takes in what the engine returned when it was asked for the next
    /// fragment: a fragment is delivered, the end of the reply finishes the
    /// request, and a failure is reported.
    pub fn record(&mut self, outcome: Result<Option<String>, String>)
        ensures
            final(self)@ == old(self)@.record(outcome_view(outcome)),
            old(self)@.wf() ==> final(self)@.wf(),
    {
        match outcome {
            Ok(Some(fragment)) => {
                self.deliver(fragment);
            },
            Ok(None) => {
                self.finish();
            },
            Err(error) => {
                self.fail(error);
            },
        }
    }
}

} // verus!
