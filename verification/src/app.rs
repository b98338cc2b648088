//! The application behind the window: the prompt being typed, the
//! conversation so far, and what each event of the interface does to them.
//!
//! Nothing here draws or reads input. The window hands in what happened (a
//! key, an edit, a click, a polling tick) and shows what comes back.

use crate::generator::Generator;
use crate::history::{prompt_texts, HistoryNavigator, Navigation, Prompt, PromptView};
use crate::message::{GeneratorMode, Message, MessageView, PromptId};
use crate::protocol::{lemma_drained_takes_all, GeneratorState};
use crate::text::{trim, trimmed};
use crate::theme::UiMode;
use vstd::prelude::*;
use vstd::string::StringExecFns;

verus! {

/// What outlives a run of the application.
#[derive(Debug)]
pub struct PersistedState {
    pub history: Vec<Prompt>,
    pub generator_mode: GeneratorMode,
    pub ui_mode: UiMode,
}

impl Default for PersistedState {
    fn default() -> (state: PersistedState)
        ensures
            state.history@.len() == 0,
            state.generator_mode == GeneratorMode::Careful,
            state.ui_mode == UiMode::Light,
    {
        PersistedState {
            history: Vec::new(),
            generator_mode: GeneratorMode::Careful,
            ui_mode: UiMode::Light,
        }
    }
}

/// The keys that the application acts on, each with whether it was pressed
/// since the last tick.
#[derive(Clone, Copy, Debug)]
pub struct Keys {
    pub escape: bool,
    pub up: bool,
    pub down: bool,
}

/// The application's state.
#[derive(Debug)]
pub struct App {
    prompt: String,
    last_prompt_id: PromptId,
    state: PersistedState,
    error: Option<String>,
    matcher: HistoryNavigator,
}

/// The exchanges of a history as plain values.
pub open spec fn exchanges(history: Seq<Prompt>) -> Seq<PromptView> {
    history.map_values(|entry: Prompt| entry@)
}

/// The application as a plain value.
pub struct AppView {
    /// The text in the prompt field.
    pub prompt: Seq<char>,
    /// The prompt whose reply is being shown: the one submitted last, or 0.
    pub active: nat,
    /// The conversation, oldest exchange first.
    pub history: Seq<PromptView>,
    pub generator_mode: GeneratorMode,
    pub ui_mode: UiMode,
    /// The error that waits to be shown.
    pub error: Option<Seq<char>>,
    /// Where the user is in recalling earlier prompts.
    pub navigation: Navigation,
}

impl AppView {
    /// The prompts of the conversation, oldest first.
    pub open spec fn texts(self) -> Seq<Seq<char>> {
        self.history.map_values(|entry: PromptView| entry.prompt)
    }

    /// The prompt field emptied and the recall of earlier prompts reset.
    pub open spec fn cleared(self) -> AppView {
        AppView {
            prompt: Seq::empty(),
            navigation: self.navigation.reset(Seq::empty()),
            ..self
        }
    }

    /// Whether submitting sends anything: the prompt field holds more than
    /// white space.
    pub open spec fn sends(self) -> bool {
        trimmed(self.prompt).len() > 0
    }

    /// Submitting `text`, where `id` is the identifier that the generator
    /// gives the prompt. An empty text is not sent; the prompt field is
    /// emptied either way.
    pub open spec fn submit(self, text: Seq<char>, id: nat) -> AppView {
        if text.len() > 0 {
            AppView {
                active: id,
                history: self.history.push(PromptView { prompt: text, reply: Seq::empty() }),
                ..self
            }.cleared()
        } else {
            self.cleared()
        }
    }

    /// Submitting the prompt field without the white space around its text.
    pub open spec fn send_prompt(self, id: nat) -> AppView {
        self.submit(trimmed(self.prompt), id)
    }

    /// Whether a message adds to the conversation: it is a fragment of the
    /// active prompt, and there is an exchange to add it to.
    pub open spec fn shows(self, message: Option<MessageView>) -> bool {
        match message {
            Some(MessageView::Token(id, _)) => id == self.active && self.history.len() > 0,
            _ => false,
        }
    }

    /// Taking in a message. A fragment of the active prompt is appended to
    /// the reply of the last exchange; a fragment of any other prompt is
    /// dropped. An error notice replaces the error that waits to be shown.
    pub open spec fn receive(self, message: Option<MessageView>) -> AppView {
        match message {
            Some(MessageView::Token(id, fragment)) => {
                if id == self.active && self.history.len() > 0 {
                    let last = self.history.last();
                    AppView {
                        history: self.history.update(
                            self.history.len() - 1,
                            PromptView { prompt: last.prompt, reply: last.reply + fragment },
                        ),
                        ..self
                    }
                } else {
                    self
                }
            },
            Some(MessageView::Error(text)) => AppView { error: Some(text), ..self },
            None => self,
        }
    }

    /// Recalling the nearest earlier prompt that matches.
    pub open spec fn arrow_up(self) -> AppView {
        match self.navigation.up_target(self.texts()) {
            Some(k) => AppView {
                prompt: self.texts()[k],
                navigation: self.navigation.up(self.texts()),
                ..self
            },
            None => self,
        }
    }

    /// Recalling the nearest later prompt that matches.
    pub open spec fn arrow_down(self) -> AppView {
        match self.navigation.down_target(self.texts()) {
            Some(k) => AppView {
                prompt: self.texts()[k],
                navigation: self.navigation.down(self.texts()),
                ..self
            },
            None => self,
        }
    }

    /// Acting on the keys: Escape first, then Arrow Up, then Arrow Down.
    pub open spec fn process_input(self, keys: Keys) -> AppView {
        let escaped = if keys.escape {
            self.cleared()
        } else {
            self
        };
        let raised = if keys.up {
            escaped.arrow_up()
        } else {
            escaped
        };
        if keys.down {
            raised.arrow_down()
        } else {
            raised
        }
    }

    /// Whether acting on the keys puts a new text into the prompt field.
    pub open spec fn replaces_prompt(self, keys: Keys) -> bool {
        let escaped = if keys.escape {
            self.cleared()
        } else {
            self
        };
        let raised = if keys.up {
            escaped.arrow_up()
        } else {
            escaped
        };
        ||| keys.escape
        ||| keys.up && escaped.navigation.up_target(escaped.texts()) is Some
        ||| keys.down && raised.navigation.down_target(raised.texts()) is Some
    }

    /// The user has changed the prompt field to `text`.
    pub open spec fn edit(self, text: Seq<char>) -> AppView {
        AppView { prompt: text, navigation: self.navigation.reset(text), ..self }
    }

    /// The user asks for the prompt of the exchange at `index` again.
    pub open spec fn recall(self, index: int) -> AppView {
        if 0 <= index < self.history.len() {
            AppView { prompt: self.history[index].prompt, ..self }
        } else {
            self
        }
    }
}

impl View for App {
    type V = AppView;

    closed spec fn view(&self) -> AppView {
        AppView {
            prompt: self.prompt@,
            active: self.last_prompt_id@,
            history: exchanges(self.state.history@),
            generator_mode: self.state.generator_mode,
            ui_mode: self.state.ui_mode,
            error: match self.error {
                Some(text) => Some(text@),
                None => None,
            },
            navigation: self.matcher@,
        }
    }
}

/// A fragment that does not bear the identifier of the active prompt is
/// dropped: the application stays as it was.
pub proof fn lemma_other_fragments_are_dropped(app: AppView, id: nat, fragment: Seq<char>)
    requires
        id != app.active,
    ensures
        app.receive(Some(MessageView::Token(id, fragment))) == app,
        !app.shows(Some(MessageView::Token(id, fragment))),
{
}

/// Taking in a message changes the conversation at one place at most: the
/// reply of the last exchange, which only grows at its end. The prompts and
/// the earlier exchanges stay as they are.
pub proof fn lemma_replies_only_grow(app: AppView, message: Option<MessageView>)
    ensures
        ({
            let after = app.receive(message);
            &&& after.prompt == app.prompt
            &&& after.active == app.active
            &&& after.navigation == app.navigation
            &&& after.texts() == app.texts()
            &&& after.history.len() == app.history.len()
            &&& forall|k: int|
                0 <= k < app.history.len() - 1 ==> #[trigger] after.history[k] == app.history[k]
            &&& app.history.len() > 0 ==> app.history.last().reply.is_prefix_of(
                after.history.last().reply,
            )
        }),
{
}

/// After a submission the new exchange is the one in flight: it is the last,
/// its reply is empty, and it is the only one that fragments can add to.
/// Nothing that the worker produced before the submission adds to it: what
/// is left of an earlier reply bears an earlier identifier.
pub proof fn lemma_earlier_output_is_not_shown(app: AppView, generator: GeneratorState, k: int)
    requires
        generator.wf(),
        app.sends(),
        0 <= k < generator.produced.len(),
    ensures
        ({
            let after = app.send_prompt(generator.next_id());
            &&& after.history.len() == app.history.len() + 1
            &&& after.history.last() == (PromptView {
                prompt: trimmed(app.prompt),
                reply: Seq::empty(),
            })
            &&& !after.shows(Some(generator.produced[k]))
            &&& after.receive(Some(generator.produced[k])).history == after.history
        }),
{
}

/// Takes every message that waits, so that what is left of an earlier reply
/// is not taken for the next one.
pub fn flush(generator: &mut Generator)
    ensures
        final(generator)@ == old(generator)@.drained(),
        old(generator)@.wf() ==> final(generator)@.wf(),
{
    loop
        invariant
            generator@.drained() == old(generator)@.drained(),
            old(generator)@.wf() ==> generator@.wf(),
        ensures
            generator@ == old(generator)@.drained(),
        decreases generator@.messages.len(),
    {
        proof {
            lemma_drained_takes_all(generator@);
        }
        match generator.next_message() {
            Some(_) => {},
            None => {
                break ;
            },
        }
    }
}

impl App {
    /// The application as it starts: what was saved of the last run, an
    /// empty prompt field, and no prompt sent yet.
    pub fn new(state: PersistedState) -> (app: App)
        ensures
            app@ == (AppView {
                prompt: Seq::empty(),
                active: 0,
                history: exchanges(state.history@),
                generator_mode: state.generator_mode,
                ui_mode: state.ui_mode,
                error: None,
                navigation: Navigation::fresh(Seq::empty()),
            }),
    {
        App {
            prompt: String::new(),
            last_prompt_id: PromptId::default(),
            state,
            error: None,
            matcher: HistoryNavigator::new(),
        }
    }

    /// Submits the text of the prompt field, without the white space around
    /// it, and empties the field. A text that is empty after trimming is not
    /// submitted. Before a prompt is submitted the messages that wait are
    /// flushed. Returns whether a prompt was submitted.
    pub fn send_prompt(&mut self, generator: &mut Generator) -> (sent: bool)
        requires
            old(generator)@.minted < u64::MAX,
        ensures
            sent == old(self)@.sends(),
            final(self)@ == old(self)@.send_prompt(old(generator)@.next_id()),
            final(generator)@ == if sent {
                old(generator)@.drained().send_prompt(trimmed(old(self)@.prompt))
            } else {
                old(generator)@
            },
            old(generator)@.wf() ==> final(generator)@.wf(),
    {
        let prompt = trim(self.prompt.as_str()).to_owned();
        self.submit(prompt.as_str(), generator)
    }

    /// Submits `prompt` as it is and empties the prompt field. An empty
    /// prompt is not submitted. Before a prompt is submitted the messages
    /// that wait are flushed. Returns whether the prompt was submitted.
    pub fn submit(&mut self, prompt: &str, generator: &mut Generator) -> (sent: bool)
        requires
            old(generator)@.minted < u64::MAX,
        ensures
            sent == (prompt@.len() > 0),
            final(self)@ == old(self)@.submit(prompt@, old(generator)@.next_id()),
            final(generator)@ == if sent {
                old(generator)@.drained().send_prompt(prompt@)
            } else {
                old(generator)@
            },
            old(generator)@.wf() ==> final(generator)@.wf(),
    {
        let sent = !prompt.is_empty();
        if sent {
            flush(generator);
            self.last_prompt_id = generator.send_prompt(prompt);
            self.state.history.push(Prompt::new(prompt));
            assert(exchanges(self.state.history@) =~= exchanges(old(self).state.history@).push(
                PromptView { prompt: prompt@, reply: Seq::empty() },
            ));
        }
        self.reset_prompt(String::new());
        self.matcher.reset(self.prompt.as_str());
        sent
    }

    /// Puts `prompt` into the prompt field.
    pub fn reset_prompt(&mut self, prompt: String)
        ensures
            final(self)@ == (AppView { prompt: prompt@, ..old(self)@ }),
    {
        self.prompt = prompt;
    }

    /// Takes in a message from the generator. Returns whether it added to
    /// the conversation.
    pub fn receive(&mut self, message: Option<Message>) -> (shown: bool)
        ensures
            final(self)@ == old(self)@.receive(
                match message {
                    Some(m) => Some(m@),
                    None => None,
                },
            ),
            shown == old(self)@.shows(
                match message {
                    Some(m) => Some(m@),
                    None => None,
                },
            ),
    {
        match message {
            Some(Message::Token(prompt_id, fragment)) => {
                let len = self.state.history.len();
                if self.last_prompt_id == prompt_id && len > 0 {
                    let last = &mut self.state.history[len - 1];
                    last.reply.append(fragment.as_str());
                    assert(exchanges(self.state.history@) =~= old(self)@.receive(
                        Some(MessageView::Token(prompt_id@, fragment@)),
                    ).history);
                    true
                } else {
                    false
                }
            },
            Some(Message::Error(text)) => {
                self.error = Some(text);
                false
            },
            None => false,
        }
    }

    /// One polling tick: takes at most one message from the generator and
    /// takes it in. Returns whether it added to the conversation.
    pub fn update(&mut self, generator: &mut Generator) -> (shown: bool)
        ensures
            final(generator)@ == old(generator)@.next_message(),
            old(generator)@.wf() ==> final(generator)@.wf(),
            final(self)@ == old(self)@.receive(old(generator)@.front()),
            shown == old(self)@.shows(old(generator)@.front()),
    {
        let message = generator.next_message();
        self.receive(message)
    }

    /// Recalls the nearest earlier prompt that matches the filter into the
    /// prompt field. Returns whether there was one.
    pub fn arrow_up(&mut self) -> (found: bool)
        ensures
            final(self)@ == old(self)@.arrow_up(),
            found == old(self)@.navigation.up_target(old(self)@.texts()) is Some,
    {
        assert(prompt_texts(self.state.history@) =~= self@.texts());
        match self.matcher.up(self.state.history.as_slice()) {
            Some(prompt) => {
                self.reset_prompt(prompt);
                true
            },
            None => false,
        }
    }

    /// Recalls the nearest later prompt that matches the filter into the
    /// prompt field. Returns whether there was one.
    pub fn arrow_down(&mut self) -> (found: bool)
        ensures
            final(self)@ == old(self)@.arrow_down(),
            found == old(self)@.navigation.down_target(old(self)@.texts()) is Some,
    {
        assert(prompt_texts(self.state.history@) =~= self@.texts());
        match self.matcher.down(self.state.history.as_slice()) {
            Some(prompt) => {
                self.reset_prompt(prompt);
                true
            },
            None => false,
        }
    }

    /// Acts on the keys that were pressed. Escape asks the generator to stop
    /// and empties the prompt field; Arrow Up and Arrow Down recall earlier
    /// prompts. Returns whether the prompt field got a new text.
    pub fn process_input(&mut self, keys: Keys, generator: &mut Generator) -> (replaced: bool)
        ensures
            final(self)@ == old(self)@.process_input(keys),
            replaced == old(self)@.replaces_prompt(keys),
            final(generator)@ == if keys.escape {
                old(generator)@.stop()
            } else {
                old(generator)@
            },
            old(generator)@.wf() ==> final(generator)@.wf(),
    {
        let mut replaced = false;
        if keys.escape {
            generator.stop();
            self.reset_prompt(String::new());
            self.matcher.reset(self.prompt.as_str());
            replaced = true;
        }
        if keys.up {
            if self.arrow_up() {
                replaced = true;
            }
        }
        if keys.down {
            if self.arrow_down() {
                replaced = true;
            }
        }
        replaced
    }

    /// The user has changed the prompt field to `text`: the recall of
    /// earlier prompts starts anew, with the text as the filter.
    pub fn edit(&mut self, text: String)
        ensures
            final(self)@ == old(self)@.edit(text@),
    {
        self.matcher.reset(text.as_str());
        self.prompt = text;
    }

    /// Puts the prompt of the exchange at `index` into the prompt field
    /// again. An index beyond the conversation changes nothing.
    pub fn recall(&mut self, index: usize)
        ensures
            final(self)@ == old(self)@.recall(index as int),
    {
        if index < self.state.history.len() {
            self.prompt = self.state.history[index].prompt.clone();
        }
    }

    /// Forgets the conversation.
    pub fn clear_history(&mut self)
        ensures
            final(self)@ == (AppView { history: Seq::empty(), ..old(self)@ }),
    {
        self.state.history.clear();
        assert(exchanges(self.state.history@) =~= Seq::empty());
    }

    /// Takes the error that waits to be shown, if there is one.
    pub fn take_error(&mut self) -> (error: Option<String>)
        ensures
            final(self)@ == (AppView { error: None, ..old(self)@ }),
            match error {
                Some(text) => old(self)@.error == Some(text@),
                None => old(self)@.error is None,
            },
    {
        self.error.take()
    }

    /// The text in the prompt field.
    pub fn prompt(&self) -> (text: &str)
        ensures
            text@ == self@.prompt,
    {
        self.prompt.as_str()
    }

    /// The identifier of the prompt that was submitted last; the default
    /// identifier before the first.
    pub fn last_prompt_id(&self) -> (id: PromptId)
        ensures
            id@ == self@.active,
    {
        self.last_prompt_id
    }

    /// The conversation, oldest exchange first.
    pub fn history(&self) -> (history: &[Prompt])
        ensures
            exchanges(history@) == self@.history,
    {
        self.state.history.as_slice()
    }

    /// What is to be saved for the next run.
    pub fn state(&self) -> (state: &PersistedState)
        ensures
            exchanges(state.history@) == self@.history,
            state.generator_mode == self@.generator_mode,
            state.ui_mode == self@.ui_mode,
    {
        &self.state
    }

    /// Chooses the mode that the next generator is made with.
    pub fn set_generator_mode(&mut self, mode: GeneratorMode)
        ensures
            final(self)@ == (AppView { generator_mode: mode, ..old(self)@ }),
    {
        self.state.generator_mode = mode;
    }

    /// Chooses the look of the interface.
    pub fn set_ui_mode(&mut self, mode: UiMode)
        ensures
            final(self)@ == (AppView { ui_mode: mode, ..old(self)@ }),
    {
        self.state.ui_mode = mode;
    }
}

} // verus!
