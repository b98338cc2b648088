use coze::generator::{Directive, Generator};
use coze::message::{GeneratorMode, Message, PromptId};
use coze::protocol::Activity;
use std::time::{Duration, Instant};

fn begun(directive: Directive) -> (PromptId, String) {
    match directive {
        Directive::Begin(id, text) => (id, text),
        other => panic!("expected a prompt to begin, got {:?}", other),
    }
}

#[test]
fn default_id_is_below_every_minted_id() {
    let mut generator = Generator::new(GeneratorMode::Careful);
    let none = PromptId::default();
    assert_eq!(none.value, 0);
    let first = generator.send_prompt("one");
    assert_ne!(first, none);
    assert!(first.value > none.value);
}

#[test]
fn ids_are_distinct_and_increase() {
    let mut generator = Generator::new(GeneratorMode::Careful);
    let a = generator.send_prompt("one");
    let b = generator.send_prompt("two");
    generator.stop();
    let c = generator.send_prompt("three");
    assert_eq!(a.value, 1);
    assert_eq!(b.value, 2);
    assert_eq!(c.value, 3);
    assert!(a != b && b != c && a != c);
}

#[test]
fn ids_do_not_depend_on_the_worker() {
    let mut generator = Generator::new(GeneratorMode::Creative);
    let a = generator.send_prompt("one");
    let _ = generator.poll();
    assert!(generator.deliver("x".to_string()));
    let b = generator.send_prompt("two");
    let _ = generator.next_message();
    generator.finish();
    let c = generator.send_prompt("three");
    assert_eq!((a.value, b.value, c.value), (1, 2, 3));
}

#[test]
fn next_message_on_empty_queue_returns_at_once() {
    let mut generator = Generator::new(GeneratorMode::Careful);
    let start = Instant::now();
    for _ in 0..1000 {
        assert_eq!(generator.next_message(), None);
    }
    assert!(start.elapsed() < Duration::from_secs(5));
}

#[test]
fn next_message_returns_nothing_while_the_worker_is_busy() {
    let mut generator = Generator::new(GeneratorMode::Careful);
    generator.send_prompt("question");
    assert_eq!(generator.next_message(), None);
    let _ = generator.poll();
    assert_eq!(generator.activity(), Activity::Generating);
    assert_eq!(generator.next_message(), None);
}

#[test]
fn mode_is_the_one_given_at_construction() {
    assert_eq!(Generator::new(GeneratorMode::Careful).mode(), GeneratorMode::Careful);
    assert_eq!(Generator::new(GeneratorMode::Creative).mode(), GeneratorMode::Creative);
    let mut generator = Generator::new(GeneratorMode::Deranged);
    generator.send_prompt("x");
    generator.shutdown();
    assert_eq!(generator.mode(), GeneratorMode::Deranged);
}

#[test]
fn mode_descriptions() {
    assert_eq!(GeneratorMode::Careful.description(), "Careful");
    assert_eq!(GeneratorMode::Creative.description(), "Creative");
    assert_eq!(GeneratorMode::Deranged.description(), "Deranged");
    assert_eq!(GeneratorMode::default(), GeneratorMode::Careful);
}

#[test]
fn fragments_arrive_in_order_under_the_prompts_id() {
    let mut generator = Generator::new(GeneratorMode::Careful);
    let id = generator.send_prompt("question");
    let (begun_id, text) = begun(generator.poll());
    assert_eq!(begun_id, id);
    assert_eq!(text, "question");
    assert!(matches!(generator.poll(), Directive::Generate(current) if current == id));
    assert!(generator.deliver("The ".to_string()));
    assert!(generator.deliver("answer".to_string()));
    assert!(generator.deliver(".".to_string()));
    generator.finish();
    assert_eq!(generator.next_message(), Some(Message::Token(id, "The ".to_string())));
    assert_eq!(generator.next_message(), Some(Message::Token(id, "answer".to_string())));
    assert_eq!(generator.next_message(), Some(Message::Token(id, ".".to_string())));
    assert_eq!(generator.next_message(), None);
}

#[test]
fn idle_worker_is_told_to_wait() {
    let mut generator = Generator::new(GeneratorMode::Careful);
    assert_eq!(generator.activity(), Activity::Idle);
    assert!(matches!(generator.poll(), Directive::Wait));
    generator.send_prompt("q");
    let _ = begun(generator.poll());
    generator.finish();
    assert_eq!(generator.activity(), Activity::Idle);
    assert!(matches!(generator.poll(), Directive::Wait));
}

#[test]
fn fragment_of_an_idle_worker_is_dropped() {
    let mut generator = Generator::new(GeneratorMode::Careful);
    assert!(!generator.deliver("stray".to_string()));
    assert!(!generator.fail("stray".to_string()));
    assert_eq!(generator.next_message(), None);
    generator.send_prompt("q");
    let _ = begun(generator.poll());
    generator.finish();
    assert!(!generator.deliver("late".to_string()));
    assert_eq!(generator.next_message(), None);
}

#[test]
fn stop_ends_the_request_at_the_next_poll() {
    let mut generator = Generator::new(GeneratorMode::Careful);
    let id = generator.send_prompt("question");
    let _ = begun(generator.poll());
    assert!(generator.deliver("a".to_string()));
    generator.stop();
    // The worker has not polled yet: one more fragment slips through.
    assert!(generator.deliver("b".to_string()));
    assert!(matches!(generator.poll(), Directive::Abandon));
    assert_eq!(generator.activity(), Activity::Idle);
    assert!(!generator.deliver("c".to_string()));
    // Stopping does not clear what was queued.
    assert_eq!(generator.next_message(), Some(Message::Token(id, "a".to_string())));
    assert_eq!(generator.next_message(), Some(Message::Token(id, "b".to_string())));
    assert_eq!(generator.next_message(), None);
}

#[test]
fn stale_fragments_bear_the_stopped_id() {
    let mut generator = Generator::new(GeneratorMode::Careful);
    let old = generator.send_prompt("first");
    let _ = begun(generator.poll());
    assert!(generator.deliver("old-1".to_string()));
    generator.stop();
    let new = generator.send_prompt("second");
    assert!(new.value > old.value);
    // Still before the worker's next poll.
    assert!(generator.deliver("old-2".to_string()));
    assert!(matches!(generator.poll(), Directive::Abandon));
    let (begun_id, text) = begun(generator.poll());
    assert_eq!(begun_id, new);
    assert_eq!(text, "second");
    assert!(generator.deliver("new-1".to_string()));

    let mut seen_new = false;
    let mut received = Vec::new();
    while let Some(message) = generator.next_message() {
        if let Message::Token(id, _) = &message {
            if *id == new {
                seen_new = true;
            } else {
                assert_eq!(*id, old);
                assert!(!seen_new);
            }
        }
        received.push(message);
    }
    assert_eq!(
        received,
        vec![
            Message::Token(old, "old-1".to_string()),
            Message::Token(old, "old-2".to_string()),
            Message::Token(new, "new-1".to_string()),
        ]
    );
}

#[test]
fn newer_prompt_supersedes_the_one_in_flight() {
    let mut generator = Generator::new(GeneratorMode::Careful);
    let first = generator.send_prompt("first");
    let _ = begun(generator.poll());
    assert!(generator.deliver("f1".to_string()));
    let second = generator.send_prompt("second");
    let (id, text) = begun(generator.poll());
    assert_eq!(id, second);
    assert_eq!(text, "second");
    assert!(generator.deliver("s1".to_string()));
    assert_eq!(generator.next_message(), Some(Message::Token(first, "f1".to_string())));
    assert_eq!(generator.next_message(), Some(Message::Token(second, "s1".to_string())));
}

#[test]
fn queued_prompts_are_begun_in_submission_order() {
    let mut generator = Generator::new(GeneratorMode::Careful);
    let a = generator.send_prompt("a");
    let b = generator.send_prompt("b");
    let (first, _) = begun(generator.poll());
    let (second, text) = begun(generator.poll());
    assert_eq!(first, a);
    assert_eq!(second, b);
    assert_eq!(text, "b");
    assert!(matches!(generator.poll(), Directive::Generate(id) if id == b));
}

#[test]
fn engine_failure_is_one_error_and_ends_the_request() {
    let mut generator = Generator::new(GeneratorMode::Careful);
    let id = generator.send_prompt("question");
    let _ = begun(generator.poll());
    assert!(generator.deliver("partial".to_string()));
    assert!(generator.fail("out of memory".to_string()));
    assert_eq!(generator.activity(), Activity::Idle);
    assert!(!generator.deliver("more".to_string()));
    assert!(!generator.fail("again".to_string()));
    assert_eq!(generator.next_message(), Some(Message::Token(id, "partial".to_string())));
    assert_eq!(generator.next_message(), Some(Message::Error("out of memory".to_string())));
    assert_eq!(generator.next_message(), None);
    // The worker is still there for the next prompt.
    let next = generator.send_prompt("again");
    let (begun_id, _) = begun(generator.poll());
    assert_eq!(begun_id, next);
}

#[test]
fn shutdown_twice_is_harmless() {
    let mut generator = Generator::new(GeneratorMode::Careful);
    generator.send_prompt("question");
    assert!(!generator.is_shut_down());
    let start = Instant::now();
    generator.shutdown();
    assert!(generator.is_shut_down());
    generator.shutdown();
    assert!(generator.is_shut_down());
    assert!(start.elapsed() < Duration::from_secs(5));
    assert!(matches!(generator.poll(), Directive::Exit));
    assert_eq!(generator.activity(), Activity::Exited);
    generator.shutdown();
    assert!(matches!(generator.poll(), Directive::Exit));
}

#[test]
fn shutdown_drops_unread_requests_and_keeps_messages() {
    let mut generator = Generator::new(GeneratorMode::Careful);
    let id = generator.send_prompt("one");
    let _ = begun(generator.poll());
    assert!(generator.deliver("x".to_string()));
    generator.send_prompt("two");
    generator.shutdown();
    assert!(matches!(generator.poll(), Directive::Exit));
    assert!(!generator.deliver("y".to_string()));
    assert_eq!(generator.next_message(), Some(Message::Token(id, "x".to_string())));
    assert_eq!(generator.next_message(), None);
}

#[test]
fn closed_generator_still_mints_ids() {
    let mut generator = Generator::new(GeneratorMode::Careful);
    let a = generator.send_prompt("one");
    generator.shutdown();
    assert!(generator.can_send());
    let b = generator.send_prompt("two");
    generator.stop();
    assert!(b.value > a.value);
    assert!(matches!(generator.poll(), Directive::Exit));
}

#[test]
fn stop_with_nothing_in_flight_is_harmless() {
    let mut generator = Generator::new(GeneratorMode::Careful);
    generator.stop();
    assert!(matches!(generator.poll(), Directive::Abandon));
    assert!(matches!(generator.poll(), Directive::Wait));
    let id = generator.send_prompt("q");
    let (begun_id, _) = begun(generator.poll());
    assert_eq!(begun_id, id);
}

#[test]
fn empty_prompt_gets_an_id_like_any_other() {
    let mut generator = Generator::new(GeneratorMode::Careful);
    let id = generator.send_prompt("");
    assert_eq!(id.value, 1);
    let (begun_id, text) = begun(generator.poll());
    assert_eq!(begun_id, id);
    assert_eq!(text, "");
}

#[test]
fn record_takes_in_what_the_engine_returned() {
    let mut generator = Generator::new(GeneratorMode::Careful);
    let id = generator.send_prompt("question");
    let _ = begun(generator.poll());
    generator.record(Ok(Some("one".to_string())));
    generator.record(Ok(Some("two".to_string())));
    generator.record(Ok(None));
    assert_eq!(generator.activity(), Activity::Idle);
    generator.record(Ok(Some("late".to_string())));
    assert_eq!(generator.next_message(), Some(Message::Token(id, "one".to_string())));
    assert_eq!(generator.next_message(), Some(Message::Token(id, "two".to_string())));
    assert_eq!(generator.next_message(), None);

    let next = generator.send_prompt("again");
    let _ = begun(generator.poll());
    generator.record(Ok(Some("three".to_string())));
    generator.record(Err("broken".to_string()));
    assert_eq!(generator.activity(), Activity::Idle);
    generator.record(Err("broken again".to_string()));
    assert_eq!(generator.next_message(), Some(Message::Token(next, "three".to_string())));
    assert_eq!(generator.next_message(), Some(Message::Error("broken".to_string())));
    assert_eq!(generator.next_message(), None);
}

#[test]
fn fragments_after_a_new_prompt_was_begun_bear_its_id() {
    let mut generator = Generator::new(GeneratorMode::Careful);
    let first = generator.send_prompt("first");
    let second = generator.send_prompt("second");
    let third = generator.send_prompt("third");
    let _ = begun(generator.poll());
    assert!(generator.deliver("a".to_string()));
    let _ = begun(generator.poll());
    let _ = begun(generator.poll());
    assert!(generator.deliver("b".to_string()));
    assert!(generator.deliver("c".to_string()));
    assert_eq!(generator.next_message(), Some(Message::Token(first, "a".to_string())));
    assert_eq!(generator.next_message(), Some(Message::Token(third, "b".to_string())));
    assert_eq!(generator.next_message(), Some(Message::Token(third, "c".to_string())));
    assert_eq!(generator.next_message(), None);
    assert!(second.value < third.value);
}
