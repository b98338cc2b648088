use coze::app::{flush, App, Keys, PersistedState};
use coze::generator::{Directive, Generator};
use coze::history::Prompt;
use coze::message::{GeneratorMode, Message, PromptId};
use coze::theme::UiMode;

const NO_KEYS: Keys = Keys { escape: false, up: false, down: false };

fn saved(prompts: &[&str]) -> PersistedState {
    PersistedState {
        history: prompts.iter().map(|prompt| Prompt::new(prompt)).collect(),
        generator_mode: GeneratorMode::Careful,
        ui_mode: UiMode::Light,
    }
}

fn prompts_of(app: &App) -> Vec<String> {
    app.history().iter().map(|entry| entry.prompt.clone()).collect()
}

fn replies_of(app: &App) -> Vec<String> {
    app.history().iter().map(|entry| entry.reply.clone()).collect()
}

#[test]
fn default_state_is_empty_careful_and_light() {
    let state = PersistedState::default();
    assert!(state.history.is_empty());
    assert_eq!(state.generator_mode, GeneratorMode::Careful);
    assert_eq!(state.ui_mode, UiMode::Light);
}

#[test]
fn new_app_has_sent_nothing() {
    let app = App::new(saved(&["earlier"]));
    assert_eq!(app.prompt(), "");
    assert_eq!(app.last_prompt_id(), PromptId::default());
    assert_eq!(prompts_of(&app), vec!["earlier".to_string()]);
}

#[test]
fn send_prompt_trims_and_records_the_prompt() {
    let mut generator = Generator::new(GeneratorMode::Careful);
    let mut app = App::new(PersistedState::default());
    app.edit("  \thello there \n".to_string());
    assert!(app.send_prompt(&mut generator));
    assert_eq!(app.prompt(), "");
    assert_eq!(app.last_prompt_id().value, 1);
    assert_eq!(prompts_of(&app), vec!["hello there".to_string()]);
    assert_eq!(replies_of(&app), vec!["".to_string()]);
    match generator.poll() {
        Directive::Begin(id, text) => {
            assert_eq!(id, app.last_prompt_id());
            assert_eq!(text, "hello there");
        },
        other => panic!("expected a prompt to begin, got {:?}", other),
    }
}

#[test]
fn blank_prompt_is_not_sent() {
    let mut generator = Generator::new(GeneratorMode::Careful);
    let mut app = App::new(PersistedState::default());
    assert!(!app.send_prompt(&mut generator));
    app.edit("   \n\t ".to_string());
    assert!(!app.send_prompt(&mut generator));
    assert_eq!(app.prompt(), "");
    assert_eq!(app.last_prompt_id(), PromptId::default());
    assert!(app.history().is_empty());
    assert!(matches!(generator.poll(), Directive::Wait));
    assert_eq!(generator.send_prompt("direct").value, 1);
}

#[test]
fn blank_prompt_leaves_waiting_messages() {
    let mut generator = Generator::new(GeneratorMode::Careful);
    let mut app = App::new(PersistedState::default());
    app.edit("q".to_string());
    assert!(app.send_prompt(&mut generator));
    let _ = generator.poll();
    assert!(generator.deliver("a".to_string()));
    app.edit("  ".to_string());
    assert!(!app.send_prompt(&mut generator));
    assert!(app.update(&mut generator));
    assert_eq!(replies_of(&app), vec!["a".to_string()]);
}

#[test]
fn send_prompt_flushes_what_is_left_of_the_last_reply() {
    let mut generator = Generator::new(GeneratorMode::Careful);
    let mut app = App::new(PersistedState::default());
    app.edit("first".to_string());
    assert!(app.send_prompt(&mut generator));
    let _ = generator.poll();
    assert!(generator.deliver("one".to_string()));
    assert!(generator.deliver("two".to_string()));
    app.edit("second".to_string());
    assert!(app.send_prompt(&mut generator));
    assert_eq!(generator.next_message(), None);
    assert_eq!(replies_of(&app), vec!["".to_string(), "".to_string()]);
    assert_eq!(app.last_prompt_id().value, 2);
}

#[test]
fn flush_takes_every_waiting_message() {
    let mut generator = Generator::new(GeneratorMode::Careful);
    generator.send_prompt("q");
    let _ = generator.poll();
    for fragment in ["a", "b", "c"] {
        assert!(generator.deliver(fragment.to_string()));
    }
    flush(&mut generator);
    assert_eq!(generator.next_message(), None);
    flush(&mut generator);
    assert_eq!(generator.next_message(), None);
}

#[test]
fn fragments_of_the_active_prompt_grow_the_last_reply() {
    let mut generator = Generator::new(GeneratorMode::Careful);
    let mut app = App::new(saved(&["earlier"]));
    app.edit("question".to_string());
    assert!(app.send_prompt(&mut generator));
    let id = app.last_prompt_id();
    assert!(app.receive(Some(Message::Token(id, "The ".to_string()))));
    assert!(app.receive(Some(Message::Token(id, "answer".to_string()))));
    assert_eq!(replies_of(&app), vec!["".to_string(), "The answer".to_string()]);
    assert_eq!(prompts_of(&app), vec!["earlier".to_string(), "question".to_string()]);
}

#[test]
fn fragments_of_another_prompt_are_dropped() {
    let mut generator = Generator::new(GeneratorMode::Careful);
    let mut app = App::new(PersistedState::default());
    app.edit("first".to_string());
    assert!(app.send_prompt(&mut generator));
    let old = app.last_prompt_id();
    app.edit("second".to_string());
    assert!(app.send_prompt(&mut generator));
    let new = app.last_prompt_id();
    assert!(!app.receive(Some(Message::Token(old, "stale".to_string()))));
    assert!(!app.receive(Some(Message::Token(PromptId::default(), "none".to_string()))));
    assert!(!app.receive(Some(Message::Token(PromptId { value: 99 }, "future".to_string()))));
    assert_eq!(replies_of(&app), vec!["".to_string(), "".to_string()]);
    assert!(app.receive(Some(Message::Token(new, "fresh".to_string()))));
    assert_eq!(replies_of(&app), vec!["".to_string(), "fresh".to_string()]);
}

#[test]
fn fragment_with_no_exchange_to_grow_is_dropped() {
    let mut generator = Generator::new(GeneratorMode::Careful);
    let mut app = App::new(PersistedState::default());
    app.edit("question".to_string());
    assert!(app.send_prompt(&mut generator));
    app.clear_history();
    assert!(!app.receive(Some(Message::Token(app.last_prompt_id(), "x".to_string()))));
    assert!(app.history().is_empty());
    assert!(!app.receive(None));
}

#[test]
fn error_notice_is_kept_until_taken() {
    let mut app = App::new(saved(&["earlier"]));
    assert_eq!(app.take_error(), None);
    assert!(!app.receive(Some(Message::Error("engine failed".to_string()))));
    assert_eq!(replies_of(&app), vec!["".to_string()]);
    assert_eq!(app.take_error(), Some("engine failed".to_string()));
    assert_eq!(app.take_error(), None);
    assert!(!app.receive(Some(Message::Error("first".to_string()))));
    assert!(!app.receive(Some(Message::Error("second".to_string()))));
    assert_eq!(app.take_error(), Some("second".to_string()));
}

#[test]
fn update_takes_one_message_per_tick() {
    let mut generator = Generator::new(GeneratorMode::Careful);
    let mut app = App::new(PersistedState::default());
    assert!(!app.update(&mut generator));
    app.edit("question".to_string());
    assert!(app.send_prompt(&mut generator));
    let _ = generator.poll();
    assert!(generator.deliver("a".to_string()));
    assert!(generator.deliver("b".to_string()));
    assert!(app.update(&mut generator));
    assert_eq!(replies_of(&app), vec!["a".to_string()]);
    assert!(app.update(&mut generator));
    assert_eq!(replies_of(&app), vec!["ab".to_string()]);
    assert!(!app.update(&mut generator));
}

#[test]
fn stopped_reply_does_not_leak_into_the_next_one() {
    let mut generator = Generator::new(GeneratorMode::Careful);
    let mut app = App::new(PersistedState::default());
    app.edit("first".to_string());
    assert!(app.send_prompt(&mut generator));
    let _ = generator.poll();
    assert!(generator.deliver("old-1".to_string()));
    assert!(app.update(&mut generator));

    let escape = Keys { escape: true, up: false, down: false };
    assert!(app.process_input(escape, &mut generator));
    app.edit("second".to_string());
    assert!(app.send_prompt(&mut generator));
    // The worker has not polled since: it still hands in the old reply.
    assert!(generator.deliver("old-2".to_string()));
    assert!(!app.update(&mut generator));
    assert!(matches!(generator.poll(), Directive::Abandon));
    assert!(matches!(generator.poll(), Directive::Begin(..)));
    assert!(generator.deliver("new-1".to_string()));
    assert!(app.update(&mut generator));
    assert_eq!(replies_of(&app), vec!["old-1".to_string(), "new-1".to_string()]);
}

#[test]
fn escape_stops_generation_and_clears_the_prompt() {
    let mut generator = Generator::new(GeneratorMode::Careful);
    let mut app = App::new(saved(&["earlier"]));
    generator.send_prompt("running");
    let _ = generator.poll();
    app.edit("half typed".to_string());
    let escape = Keys { escape: true, up: false, down: false };
    assert!(app.process_input(escape, &mut generator));
    assert_eq!(app.prompt(), "");
    assert!(matches!(generator.poll(), Directive::Abandon));
    // The filter was reset with the prompt: everything matches again.
    let up = Keys { escape: false, up: true, down: false };
    assert!(app.process_input(up, &mut generator));
    assert_eq!(app.prompt(), "earlier");
}

#[test]
fn no_key_changes_nothing() {
    let mut generator = Generator::new(GeneratorMode::Careful);
    let mut app = App::new(saved(&["earlier"]));
    app.edit("typing".to_string());
    assert!(!app.process_input(NO_KEYS, &mut generator));
    assert_eq!(app.prompt(), "typing");
    assert!(matches!(generator.poll(), Directive::Wait));
}

#[test]
fn arrows_recall_prompts_that_match_what_was_typed() {
    let mut generator = Generator::new(GeneratorMode::Careful);
    let mut app = App::new(saved(&["hello world", "help me", "hi"]));
    let up = Keys { escape: false, up: true, down: false };
    let down = Keys { escape: false, up: false, down: true };
    app.edit("he".to_string());
    assert!(app.process_input(up, &mut generator));
    assert_eq!(app.prompt(), "help me");
    assert!(app.process_input(up, &mut generator));
    assert_eq!(app.prompt(), "hello world");
    assert!(!app.process_input(up, &mut generator));
    assert_eq!(app.prompt(), "hello world");
    assert!(app.process_input(down, &mut generator));
    assert_eq!(app.prompt(), "help me");
    assert!(!app.process_input(down, &mut generator));
    assert_eq!(app.prompt(), "help me");
    assert!(matches!(generator.poll(), Directive::Wait));
}

#[test]
fn keys_are_handled_escape_first_then_up_then_down() {
    let mut generator = Generator::new(GeneratorMode::Careful);
    let mut app = App::new(saved(&["one", "two", "three"]));
    app.edit("zzz".to_string());
    let all = Keys { escape: true, up: true, down: true };
    assert!(app.process_input(all, &mut generator));
    // Escape empties the filter, Arrow Up then recalls the last prompt, and
    // Arrow Down finds nothing after it.
    assert_eq!(app.prompt(), "three");
    let up_and_down = Keys { escape: false, up: true, down: true };
    assert!(app.process_input(up_and_down, &mut generator));
    // Up goes to "two" and Down comes back to "three".
    assert_eq!(app.prompt(), "three");
}

#[test]
fn edit_restarts_the_recall_with_the_new_filter() {
    let mut app = App::new(saved(&["Alpha", "beta", "ALPINE"]));
    app.edit("AL".to_string());
    assert_eq!(app.prompt(), "AL");
    assert!(app.arrow_up());
    assert_eq!(app.prompt(), "ALPINE");
    assert!(app.arrow_up());
    assert_eq!(app.prompt(), "Alpha");
    app.edit("b".to_string());
    assert!(!app.arrow_down());
    assert!(app.arrow_up());
    assert_eq!(app.prompt(), "beta");
}

#[test]
fn recall_copies_a_prompt_into_the_field() {
    let mut app = App::new(saved(&["one", "two"]));
    app.recall(0);
    assert_eq!(app.prompt(), "one");
    app.recall(1);
    assert_eq!(app.prompt(), "two");
    app.recall(2);
    assert_eq!(app.prompt(), "two");
    assert_eq!(prompts_of(&app), vec!["one".to_string(), "two".to_string()]);
}

#[test]
fn reset_prompt_replaces_the_text_only() {
    let mut app = App::new(saved(&["one", "two"]));
    assert!(app.arrow_up());
    app.reset_prompt("typed over".to_string());
    assert_eq!(app.prompt(), "typed over");
    // The recall goes on from where it was.
    assert!(app.arrow_up());
    assert_eq!(app.prompt(), "one");
}

#[test]
fn modes_are_kept_for_saving() {
    let mut app = App::new(saved(&["one"]));
    app.set_generator_mode(GeneratorMode::Deranged);
    app.set_ui_mode(UiMode::Dark);
    assert_eq!(app.state().generator_mode, GeneratorMode::Deranged);
    assert_eq!(app.state().ui_mode, UiMode::Dark);
    assert_eq!(app.state().history.len(), 1);
    app.clear_history();
    assert!(app.state().history.is_empty());
}

#[test]
fn submit_takes_the_prompt_as_it_is() {
    let mut generator = Generator::new(GeneratorMode::Careful);
    let mut app = App::new(PersistedState::default());
    app.edit("typed".to_string());
    assert!(app.submit(" spaced ", &mut generator));
    assert_eq!(app.prompt(), "");
    assert_eq!(prompts_of(&app), vec![" spaced ".to_string()]);
    assert!(!app.submit("", &mut generator));
    assert_eq!(prompts_of(&app), vec![" spaced ".to_string()]);
    assert_eq!(app.last_prompt_id().value, 1);
}
