use reload_bridge::dispatch::{DispatchError, Dispatcher, Step, SubscriptionChange, PACING_MS};
use reload_bridge::message::{forward_chunk, reload_messages, Message};
use reload_bridge::planner::extract_runnable_lines;
use reload_bridge::watch_set::WatchSet;

fn synthesized(s: &str) -> Message {
    Message::Synthesized(s.as_bytes().to_vec())
}

fn raw(s: &str) -> Message {
    Message::Raw(s.as_bytes().to_vec())
}

#[test]
fn planner_empty_text() {
    assert!(extract_runnable_lines("").is_empty());
}

#[test]
fn planner_picks_marked_lines_in_order() {
    let text = "-- run:foo\n-- run:bar\nplain text\n-- run:baz";
    assert_eq!(extract_runnable_lines(text), vec!["foo", "bar", "baz"]);
}

#[test]
fn planner_keeps_remainder_untrimmed() {
    let text = "-- run: main \n  -- run:indented\n-- run:\n--run:x\n";
    assert_eq!(extract_runnable_lines(text), vec![" main ", ""]);
}

#[test]
fn planner_strips_carriage_return_of_line_ending() {
    let text = "-- run:a\r\n-- run:b\r\nx\r\n-- run:c";
    assert_eq!(extract_runnable_lines(text), vec!["a", "b", "c"]);
}

#[test]
fn planner_non_ascii_text() {
    let text = "λ\n-- run:putStrLn \"é\"\n";
    assert_eq!(extract_runnable_lines(text), vec!["putStrLn \"é\""]);
}

#[test]
fn planner_count_matches_marked_lines() {
    let text = "a\n-- run:1\nb\n-- run:2\n-- run:3\n\n";
    let marked = text.lines().filter(|l| l.starts_with("-- run:")).count();
    assert_eq!(extract_runnable_lines(text).len(), marked);
}

#[test]
fn reload_emits_load_then_commands() {
    let text = "-- run:foo\n-- run:bar\nplain text\n-- run:baz";
    let ms = reload_messages("src/Main.hs", text);
    assert_eq!(
        ms,
        vec![
            synthesized(":l src/Main.hs\n"),
            synthesized("foo\n"),
            synthesized("bar\n"),
            synthesized("baz\n"),
        ]
    );
}

#[test]
fn reload_of_file_without_directives() {
    let ms = reload_messages("a.hs", "main = pure ()\n");
    assert_eq!(ms, vec![synthesized(":l a.hs\n")]);
}

#[test]
fn scenario_change_event_leaves_watch_set() {
    let mut d = Dispatcher::new(Some("input.hs"));
    let text = "-- run:foo\n-- run:bar\nplain text\n-- run:baz";
    let mut written = Vec::new();
    for m in reload_messages("input.hs", text) {
        let step = d.dispatch(m).unwrap();
        assert_eq!(step.change, None);
        written.push(String::from_utf8(step.write).unwrap());
    }
    assert_eq!(written, vec![":l input.hs\n", "foo\n", "bar\n", "baz\n"]);
    assert_eq!(d.watched().len(), 1);
    assert!(d.watched().contains("input.hs"));
}

#[test]
fn scenario_load_directive_from_user() {
    let mut d = Dispatcher::new(None);
    let step = d.dispatch(raw(":l other.txt\n")).unwrap();
    assert_eq!(step.change, Some(SubscriptionChange::Watch("other.txt".to_string())));
    assert!(d.watched().contains("other.txt"));
    let ms = reload_messages("other.txt", "-- run:main\n");
    assert_eq!(ms, vec![synthesized(":l other.txt\n"), synthesized("main\n")]);
}

#[test]
fn scenario_end_of_input_gives_no_message() {
    assert_eq!(forward_chunk(&[]), None);
}

#[test]
fn chunk_forwarded_unchanged() {
    let bytes = [b'x', 0xff, b'\n', 0];
    assert_eq!(forward_chunk(&bytes), Some(Message::Raw(bytes.to_vec())));
}

#[test]
fn raw_bytes_written_unchanged_without_delay() {
    let mut d = Dispatcher::new(None);
    let bytes = vec![0xc3, 0x28, b'a'];
    let step = d.dispatch(Message::Raw(bytes.clone())).unwrap();
    assert_eq!(step, Step { delay_ms: 0, write: bytes, echo: None, change: None });
}

#[test]
fn synthesized_paced_and_echoed() {
    let mut d = Dispatcher::new(None);
    let step = d.dispatch(synthesized("foo\n")).unwrap();
    assert_eq!(step.delay_ms, PACING_MS);
    assert!(PACING_MS > 0);
    assert_eq!(step.write, b"foo\n".to_vec());
    assert_eq!(step.echo, Some("foo\n".to_string()));
    assert_eq!(step.change, None);
}

#[test]
fn synthesized_invalid_text_echoes_placeholder() {
    let mut d = Dispatcher::new(None);
    let step = d.dispatch(Message::Synthesized(vec![0xff, 0xfe])).unwrap();
    assert_eq!(step.echo, Some("<invalid utf-8>".to_string()));
    assert_eq!(step.write, vec![0xff, 0xfe]);
}

#[test]
fn synthesized_load_line_does_not_change_watch_set() {
    let mut d = Dispatcher::new(None);
    let step = d.dispatch(synthesized(":l a.hs\n")).unwrap();
    assert_eq!(step.change, None);
    assert_eq!(d.watched().len(), 0);
}

#[test]
fn load_twice_watches_once() {
    let mut d = Dispatcher::new(None);
    let first = d.dispatch(raw(":l a.hs\n")).unwrap();
    assert_eq!(first.change, Some(SubscriptionChange::Watch("a.hs".to_string())));
    let second = d.dispatch(raw(":l a.hs\n")).unwrap();
    assert_eq!(second.change, None);
    assert_eq!(d.watched().len(), 1);
}

#[test]
fn load_of_initial_path_is_noop() {
    let mut d = Dispatcher::new(Some("a.hs"));
    let step = d.dispatch(raw(":l a.hs")).unwrap();
    assert_eq!(step.change, None);
    assert_eq!(d.watched().len(), 1);
}

#[test]
fn load_path_is_trimmed() {
    let mut d = Dispatcher::new(None);
    let step = d.dispatch(raw(":l   b.hs \t\r\n")).unwrap();
    assert_eq!(step.change, Some(SubscriptionChange::Watch("b.hs".to_string())));
    assert!(d.watched().contains("b.hs"));
}

#[test]
fn unload_of_unwatched_path_fails() {
    let mut d = Dispatcher::new(Some("a.hs"));
    let r = d.dispatch(raw(":u b.hs\n"));
    assert_eq!(r, Err(DispatchError::NotWatched("b.hs".to_string())));
    assert_eq!(d.watched().len(), 1);
}

#[test]
fn unload_of_watched_path() {
    let mut d = Dispatcher::new(Some("a.hs"));
    let step = d.dispatch(raw(":u a.hs\n")).unwrap();
    assert_eq!(step.change, Some(SubscriptionChange::Unwatch("a.hs".to_string())));
    assert_eq!(d.watched().len(), 0);
    assert!(d.dispatch(raw(":u a.hs\n")).is_err());
}

#[test]
fn other_input_is_not_a_directive() {
    let mut d = Dispatcher::new(None);
    for s in [":load a.hs\n", ":la.hs\n", " :l a.hs\n", "x :l a.hs\n", ":t map\n", ":u"] {
        let step = d.dispatch(raw(s)).unwrap();
        assert_eq!(step.change, None);
    }
    assert_eq!(d.watched().len(), 0);
}

#[test]
fn invalid_text_is_not_inspected() {
    let mut d = Dispatcher::new(None);
    let mut bytes = b":u a.hs ".to_vec();
    bytes.push(0xff);
    let step = d.dispatch(Message::Raw(bytes.clone())).unwrap();
    assert_eq!(step.write, bytes);
    assert_eq!(step.change, None);
}

#[test]
fn watch_set_insert_remove() {
    let mut w = WatchSet::new();
    assert!(w.insert("a"));
    assert!(w.insert("b"));
    assert!(!w.insert("a"));
    assert_eq!(w.len(), 2);
    assert!(w.remove("a"));
    assert!(!w.remove("a"));
    assert!(!w.contains("a"));
    assert!(w.contains("b"));
    assert_eq!(w.len(), 1);
}
