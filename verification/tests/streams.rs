use britney::britney::Britney;
use britney::error::{GenerationError, PipelineError};
use britney::github_client::GithubClient;
use britney::issue_template::IssueTemplate;
use britney::response::FOOTER;
use britney::stream::{aggregate, Aggregator, StreamAction, StreamEvent};

fn chunk(text: &str) -> StreamEvent {
    StreamEvent::Chunk(text.to_string())
}

fn writer() -> Britney {
    Britney::new(GithubClient::new(None, None), None, None, IssueTemplate::new("t --- b"))
}

#[test]
fn stream_scenario_with_a_skipped_chunk() {
    let events = vec![
        chunk("Add retry"),
        StreamEvent::Skipped,
        chunk(" logic\nfor"),
        chunk(" network calls"),
    ];
    assert_eq!(aggregate(&events), Ok("Add retry logic\nfor network calls".to_string()));
}

#[test]
fn stream_scenario_with_an_empty_chunk() {
    let events = vec![chunk("Add retry"), chunk(""), chunk(" logic\nfor"), chunk(" network calls")];
    assert_eq!(aggregate(&events), Ok("Add retry logic\nfor network calls".to_string()));
}

#[test]
fn aggregate_of_nothing_is_empty() {
    assert_eq!(aggregate(&Vec::new()), Ok(String::new()));
    assert_eq!(aggregate(&vec![StreamEvent::Skipped, StreamEvent::Skipped]), Ok(String::new()));
}

#[test]
fn aggregate_round_trips_every_split() {
    let text = "Add retry logic\nfor network calls — 日本語";
    let chars: Vec<char> = text.chars().collect();
    for a in 0..=chars.len() {
        for b in a..=chars.len() {
            let one: String = chars[..a].iter().collect();
            let two: String = chars[a..b].iter().collect();
            let three: String = chars[b..].iter().collect();
            let events = vec![chunk(&one), chunk(&two), chunk(&three)];
            assert_eq!(aggregate(&events), Ok(text.to_string()));
        }
    }
}

#[test]
fn aggregate_keeps_delivery_order() {
    let events = vec![chunk("b"), chunk("a"), chunk("c")];
    assert_eq!(aggregate(&events), Ok("bac".to_string()));
}

#[test]
fn failure_leaves_no_text() {
    let events = vec![chunk("partial"), StreamEvent::Failed];
    assert_eq!(aggregate(&events), Err(GenerationError::TransportFailure));
    let events = vec![StreamEvent::Failed];
    assert_eq!(aggregate(&events), Err(GenerationError::TransportFailure));
    let events = vec![chunk("a"), StreamEvent::Failed, chunk("b")];
    assert_eq!(aggregate(&events), Err(GenerationError::TransportFailure));
}

#[test]
fn aggregator_echoes_each_chunk_once() {
    let mut aggregator = Aggregator::new(true);
    match aggregator.accept(chunk("Hello")) {
        StreamAction::Echo(text) => assert_eq!(text, "Hello"),
        other => panic!("{:?}", other),
    }
    assert!(matches!(aggregator.accept(StreamEvent::Skipped), StreamAction::Continue));
    match aggregator.accept(chunk(", world")) {
        StreamAction::Echo(text) => assert_eq!(text, ", world"),
        other => panic!("{:?}", other),
    }
    assert_eq!(aggregator.text, "Hello, world");
    assert_eq!(aggregator.finish(), Ok("Hello, world".to_string()));
}

#[test]
fn aggregator_without_sink_echoes_nothing() {
    let mut aggregator = Aggregator::new(false);
    assert!(matches!(aggregator.accept(chunk("Hello")), StreamAction::Continue));
    assert!(matches!(aggregator.accept(StreamEvent::Skipped), StreamAction::Continue));
    assert_eq!(aggregator.finish(), Ok("Hello".to_string()));
}

#[test]
fn aggregator_stops_at_failure_and_takes_nothing_after() {
    let mut aggregator = Aggregator::new(true);
    assert!(matches!(aggregator.accept(chunk("a")), StreamAction::Echo(_)));
    assert!(matches!(aggregator.accept(StreamEvent::Failed), StreamAction::Stop));
    assert!(aggregator.failed);
    assert!(matches!(aggregator.accept(chunk("b")), StreamAction::Stop));
    assert_eq!(aggregator.text, "a");
    assert_eq!(aggregator.finish(), Err(GenerationError::TransportFailure));
}

#[test]
fn new_aggregator_is_empty() {
    let aggregator = Aggregator::new(true);
    assert_eq!(aggregator.text, "");
    assert!(!aggregator.failed);
    assert!(aggregator.echo);
    assert_eq!(Aggregator::new(false).finish(), Ok(String::new()));
}

#[test]
fn stream_event_clone_is_equal() {
    match chunk("x").clone() {
        StreamEvent::Chunk(text) => assert_eq!(text, "x"),
        other => panic!("{:?}", other),
    }
    assert!(matches!(StreamEvent::Skipped.clone(), StreamEvent::Skipped));
    assert!(matches!(StreamEvent::Failed.clone(), StreamEvent::Failed));
}

#[test]
fn issue_from_stream_parses_the_whole_text() {
    let events = vec![
        chunk("Add retry"),
        StreamEvent::Skipped,
        chunk(" logic\nfor"),
        chunk(" network calls"),
    ];
    let issue = writer().issue_from_stream(&events).unwrap();
    assert_eq!(issue.title, "Add retry logic");
    assert_eq!(issue.body, format!("for network calls\n{}", FOOTER));
}

#[test]
fn issue_from_failed_stream_is_a_generation_failure() {
    let events = vec![chunk("Title\nbody"), StreamEvent::Failed];
    match writer().issue_from_stream(&events) {
        Err(e) => assert_eq!(e, PipelineError::Generation(GenerationError::TransportFailure)),
        Ok(issue) => panic!("{:?}", issue),
    }
}

#[test]
fn issue_from_empty_stream_is_footer_only() {
    let issue = writer().issue_from_stream(&Vec::new()).unwrap();
    assert_eq!(issue.title, "");
    assert_eq!(issue.body, FOOTER);
}
