use britney::batch::{BatchStep, DirEntry};
use britney::britney::Britney;
use britney::error::{GenerationError, PipelineError, PublishError};
use britney::github_client::{GithubClient, PublishStep};
use britney::issue::Issue;
use britney::issue_template::IssueTemplate;

fn writer() -> Britney {
    Britney::new(GithubClient::new(None, None), None, None, IssueTemplate::new("t --- b"))
}

fn file(path: &str) -> DirEntry {
    DirEntry { path: path.to_string(), is_file: true }
}

fn dir(path: &str) -> DirEntry {
    DirEntry { path: path.to_string(), is_file: false }
}

fn issue(n: usize) -> Issue {
    Issue { title: format!("title {}", n), body: format!("body {}", n) }
}

/// Drives a batch: artifact `i` comes to `outcomes(i)`. Gives the paths
/// asked for and the end.
fn drive(
    entries: Vec<DirEntry>,
    outcomes: &dyn Fn(usize) -> Result<Issue, PipelineError>,
) -> (Vec<String>, Result<Vec<Issue>, PipelineError>) {
    let mut asked = Vec::new();
    let mut step = writer().generate_issues_from_folder(entries);
    loop {
        match step {
            BatchStep::Generate { path, batch } => {
                let outcome = outcomes(asked.len());
                asked.push(path);
                step = batch.record(outcome);
            }
            BatchStep::Done(end) => return (asked, end),
        }
    }
}

#[test]
fn batch_of_successes_gives_one_issue_each_in_order() {
    let entries = vec![file("src/a.rs"), file("src/b.rs"), file("src/c.rs")];
    let (asked, end) = drive(entries, &|i| Ok(issue(i)));
    assert_eq!(asked, vec!["src/a.rs", "src/b.rs", "src/c.rs"]);
    let issues = end.unwrap();
    assert_eq!(issues.len(), 3);
    for (i, got) in issues.iter().enumerate() {
        assert_eq!(got.title, format!("title {}", i));
        assert_eq!(got.body, format!("body {}", i));
    }
}

#[test]
fn batch_stops_at_first_failure_and_keeps_nothing() {
    let failure = PipelineError::Generation(GenerationError::TransportFailure);
    let entries = vec![file("a"), file("b"), file("c"), file("d")];
    let (asked, end) = drive(entries, &|i| if i == 2 { Err(failure) } else { Ok(issue(i)) });
    assert_eq!(asked, vec!["a", "b", "c"]);
    match end {
        Err(e) => assert_eq!(e, failure),
        Ok(issues) => panic!("{:?}", issues),
    }
}

#[test]
fn batch_failing_first_asks_for_one_artifact() {
    let entries = vec![file("a"), file("b")];
    let (asked, end) = drive(entries, &|_| Err(PipelineError::Unavailable));
    assert_eq!(asked, vec!["a"]);
    assert!(matches!(end, Err(PipelineError::Unavailable)));
}

#[test]
fn batch_of_empty_directory_is_empty() {
    let (asked, end) = drive(Vec::new(), &|i| Ok(issue(i)));
    assert!(asked.is_empty());
    assert!(end.unwrap().is_empty());
}

#[test]
fn batch_takes_files_only() {
    let entries = vec![dir("src/bin"), file("src/a.rs"), dir("src/util"), file("src/b.rs"), dir("x")];
    let (asked, end) = drive(entries, &|i| Ok(issue(i)));
    assert_eq!(asked, vec!["src/a.rs", "src/b.rs"]);
    assert_eq!(end.unwrap().len(), 2);
    let (asked, end) = drive(vec![dir("only"), dir("dirs")], &|i| Ok(issue(i)));
    assert!(asked.is_empty());
    assert!(end.unwrap().is_empty());
}

/// Drives a publication: issue `i` gets the answer `answers(i)`. Gives the
/// titles sent and the end.
fn publish(
    first: PublishStep,
    answers: &dyn Fn(usize) -> Result<(), PublishError>,
) -> (Vec<(String, String)>, Result<(), PublishError>) {
    let mut sent = Vec::new();
    let mut step = first;
    loop {
        match step {
            PublishStep::Create { issue, rest } => {
                let answer = answers(sent.len());
                sent.push((issue.title, issue.body));
                step = rest.record(answer);
            }
            PublishStep::Done(end) => return (sent, end),
        }
    }
}

fn pair(title: &str, body: &str) -> (String, String) {
    (title.to_string(), body.to_string())
}

#[test]
fn publication_sends_issues_in_order() {
    let step = writer().post_issues(vec![issue(0), issue(1), issue(2)]);
    let (sent, end) = publish(step, &|_| Ok(()));
    assert_eq!(end, Ok(()));
    assert_eq!(
        sent,
        vec![pair("title 0", "body 0"), pair("title 1", "body 1"), pair("title 2", "body 2")]
    );
}

#[test]
fn publication_stops_at_first_refusal() {
    let step = writer().post_issues(vec![issue(0), issue(1), issue(2)]);
    let (sent, end) = publish(step, &|i| if i == 1 { Err(PublishError::Rejected) } else { Ok(()) });
    assert_eq!(end, Err(PublishError::Rejected));
    assert_eq!(sent.len(), 2);
    assert_eq!(sent[1], pair("title 1", "body 1"));
}

#[test]
fn publication_of_nothing_ends_well() {
    let (sent, end) = publish(writer().post_issues(Vec::new()), &|_| Ok(()));
    assert!(sent.is_empty());
    assert_eq!(end, Ok(()));
}

#[test]
fn single_issue_is_sent_once() {
    let (sent, end) = publish(writer().post_issue(issue(7)), &|_| Ok(()));
    assert_eq!(sent, vec![pair("title 7", "body 7")]);
    assert_eq!(end, Ok(()));
    let (sent, end) = publish(writer().post_issue(issue(7)), &|_| Err(PublishError::Rejected));
    assert_eq!(sent.len(), 1);
    assert_eq!(end, Err(PublishError::Rejected));
    let client = GithubClient::new(None, None);
    let (sent, _) = publish(client.create_issue(issue(1)), &|_| Ok(()));
    assert_eq!(sent, vec![pair("title 1", "body 1")]);
}

#[test]
fn publication_from_template_fills_each_pair() {
    let client = GithubClient::new(Some("octo".to_string()), Some("cat".to_string()));
    let template = IssueTemplate::new("Title: {title}\n---\nBody: {body}");
    let data = vec![pair("Crash", "Steps to reproduce"), pair("Leak", "Watch memory")];
    let step = client.create_issues_from_template(template, data);
    let (sent, end) = publish(step, &|_| Ok(()));
    assert_eq!(end, Ok(()));
    assert_eq!(
        sent,
        vec![
            pair("Title: Crash", "Body: Steps to reproduce"),
            pair("Title: Leak", "Body: Watch memory")
        ]
    );
}

#[test]
fn publication_from_template_stops_at_refusal() {
    let client = GithubClient::new(None, None);
    let template = IssueTemplate::new("{title} --- {body}");
    let data = vec![pair("a", "1"), pair("b", "2"), pair("c", "3")];
    let step = client.create_issues_from_template(template, data);
    let (sent, end) = publish(step, &|_| Err(PublishError::Rejected));
    assert_eq!(sent, vec![pair("a", "1")]);
    assert_eq!(end, Err(PublishError::Rejected));
}

#[test]
fn pipeline_failures_are_told_apart() {
    let all = [
        PipelineError::Unavailable,
        PipelineError::Provision(britney::error::ProvisionError::BuildFailed),
        PipelineError::Generation(GenerationError::TransportFailure),
        PipelineError::Publish(PublishError::Rejected),
    ];
    for (i, a) in all.iter().enumerate() {
        for (j, b) in all.iter().enumerate() {
            assert_eq!(a == b, i == j);
        }
    }
}
