use codonn::sink::OutputSink;

#[test]
fn append_adds_text_at_end() {
    let mut sink = OutputSink::new("> ");
    sink.append("ls\n");
    assert_eq!(sink.snapshot(), "> ls\n");
}

#[test]
fn appends_lose_nothing_in_any_order() {
    let texts = ["alpha\n", "β-two\n", "", "gamma gamma\n"];
    let expected: usize = texts.iter().map(|t| t.chars().count()).sum();
    let mut forward = OutputSink::new("");
    for t in texts.iter() {
        forward.append(t);
    }
    let mut backward = OutputSink::new("");
    for t in texts.iter().rev() {
        backward.append(t);
    }
    assert_eq!(forward.snapshot().chars().count(), expected);
    assert_eq!(backward.snapshot().chars().count(), expected);
}

#[test]
fn clear_leaves_buffer_empty() {
    let mut sink = OutputSink::new("old output\n> ");
    sink.clear();
    assert_eq!(sink.snapshot(), "");
}

#[test]
fn clear_then_append_holds_exactly_the_append() {
    let mut sink = OutputSink::new("old output\n> ");
    sink.clear();
    sink.append("fresh\n");
    assert_eq!(sink.snapshot(), "fresh\n");
}

#[test]
fn append_then_clear_is_empty() {
    let mut sink = OutputSink::new("old\n");
    sink.append("fresh\n");
    sink.clear();
    assert_eq!(sink.snapshot(), "");
}
