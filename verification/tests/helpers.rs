use britney::batch::{Batch, BatchStep};
use britney::error::{PipelineError, PublishError};
use britney::github_client::{PublishStep, Publishing};
use britney::issue::Issue;
use britney::text::{chars_of, find_from, matches_at, trim_bounds};

fn issue(title: &str) -> Issue {
    Issue { title: title.to_string(), body: String::new() }
}

#[test]
fn matches_at_compares_in_place() {
    let hay = chars_of("abcabc");
    let needle = chars_of("bc");
    assert!(!matches_at(&hay, &needle, 0));
    assert!(matches_at(&hay, &needle, 1));
    assert!(matches_at(&hay, &needle, 4));
    assert!(!matches_at(&hay, &needle, 5));
    assert!(!matches_at(&hay, &needle, 6));
    assert!(!matches_at(&hay, &needle, usize::MAX));
    let empty = chars_of("");
    assert!(matches_at(&hay, &empty, 0));
    assert!(matches_at(&hay, &empty, 6));
    assert!(!matches_at(&hay, &empty, 7));
    assert!(!matches_at(&empty, &needle, 0));
}

#[test]
fn find_from_starts_where_told() {
    let hay = chars_of("abcabc");
    let needle = chars_of("bc");
    assert_eq!(find_from(&hay, &needle, 0), Some(1));
    assert_eq!(find_from(&hay, &needle, 1), Some(1));
    assert_eq!(find_from(&hay, &needle, 2), Some(4));
    assert_eq!(find_from(&hay, &needle, 4), Some(4));
    assert_eq!(find_from(&hay, &needle, 5), None);
    assert_eq!(find_from(&hay, &needle, 100), None);
    assert_eq!(find_from(&hay, &chars_of(""), 6), Some(6));
    assert_eq!(find_from(&hay, &chars_of(""), 7), None);
    assert_eq!(find_from(&hay, &chars_of("abcabcd"), 0), None);
}

#[test]
fn trim_bounds_stay_inside_the_range() {
    let text = chars_of("x  a b  y");
    assert_eq!(trim_bounds(&text, 1, 8), (3, 6));
    assert_eq!(trim_bounds(&text, 0, 9), (0, 9));
    assert_eq!(trim_bounds(&text, 1, 3), (3, 3));
    assert_eq!(trim_bounds(&text, 4, 4), (4, 4));
    assert_eq!(trim_bounds(&text, 3, 4), (3, 4));
}

#[test]
fn batch_proceeds_from_any_point() {
    let batch = Batch {
        paths: vec!["a".to_string(), "b".to_string(), "c".to_string()],
        issues: vec![issue("one")],
    };
    match batch.proceed() {
        BatchStep::Generate { path, batch } => {
            assert_eq!(path, "b");
            match batch.record(Ok(issue("two"))) {
                BatchStep::Generate { path, batch } => {
                    assert_eq!(path, "c");
                    assert_eq!(batch.issues.len(), 2);
                    match batch.record(Ok(issue("three"))) {
                        BatchStep::Done(Ok(issues)) => {
                            let titles: Vec<&str> =
                                issues.iter().map(|i| i.title.as_str()).collect();
                            assert_eq!(titles, vec!["one", "two", "three"]);
                        }
                        other => panic!("{:?}", other),
                    }
                }
                other => panic!("{:?}", other),
            }
        }
        other => panic!("{:?}", other),
    }
}

#[test]
fn batch_with_all_done_ends() {
    let batch = Batch { paths: vec!["a".to_string()], issues: vec![issue("one")] };
    match batch.proceed() {
        BatchStep::Done(Ok(issues)) => assert_eq!(issues.len(), 1),
        other => panic!("{:?}", other),
    }
    let batch = Batch { paths: vec!["a".to_string()], issues: Vec::new() };
    match batch.record(Err(PipelineError::Unavailable)) {
        BatchStep::Done(Err(e)) => assert_eq!(e, PipelineError::Unavailable),
        other => panic!("{:?}", other),
    }
}

#[test]
fn publication_proceeds_from_any_point() {
    let publishing = Publishing { issues: vec![issue("one"), issue("two")], done: 1 };
    match publishing.proceed() {
        PublishStep::Create { issue, rest } => {
            assert_eq!(issue.title, "two");
            assert_eq!(rest.done, 1);
            assert!(matches!(rest.record(Ok(())), PublishStep::Done(Ok(()))));
        }
        other => panic!("{:?}", other),
    }
    let publishing = Publishing { issues: vec![issue("one")], done: 1 };
    assert!(matches!(publishing.proceed(), PublishStep::Done(Ok(()))));
    let publishing = Publishing { issues: vec![issue("one")], done: 5 };
    assert!(matches!(publishing.record(Ok(())), PublishStep::Done(Ok(()))));
    let publishing = Publishing { issues: vec![issue("one"), issue("two")], done: 0 };
    match publishing.record(Err(PublishError::Rejected)) {
        PublishStep::Done(Err(e)) => assert_eq!(e, PublishError::Rejected),
        other => panic!("{:?}", other),
    }
}
