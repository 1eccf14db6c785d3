use britney::britney::{Britney, DEFAULT_MODELFILE_PATH, DEFAULT_TEMPLATE_PATH};
use britney::github_client::GithubClient;
use britney::issue_template::IssueTemplate;
use britney::prompt::{ChatMessage, MessageRole, MODEL_NAME};

fn writer(template: &str) -> Britney {
    Britney::new(GithubClient::new(None, None), None, None, IssueTemplate::new(template))
}

#[test]
fn behavior_wraps_the_template() {
    let b = writer("t --- b");
    let expected = "You are Britney, a Github Issues generator. \n            You create some professional and complete GitHub Issue, 100% based on the following template:\n\n                TEMPLATE\n\n            Adjust the template as needed for each issue. \n            Your answer is only the issue asked.\n            Don't provide the title in markdown format, only the body.\n            ";
    assert_eq!(b.behavior("TEMPLATE".to_string()), expected);
}

#[test]
fn behavior_of_empty_template_is_the_wrapper() {
    let b = writer("");
    let content = b.behavior(String::new());
    assert!(content.starts_with("You are Britney, a Github Issues generator. \n"));
    assert!(content.contains("template:\n\n                \n\n            Adjust"));
    assert!(content.ends_with("only the body.\n            "));
}

#[test]
fn request_for_a_file_has_three_messages_in_order() {
    let b = writer("## Title\n---\n## Body");
    let request = b.generate_issue_from_file("src/main.rs", "fn main() {}\n");
    assert_eq!(request.model_name, "Britney");
    assert_eq!(request.messages.len(), 3);
    assert_eq!(request.messages[0].role, MessageRole::System);
    assert_eq!(request.messages[0].content, b.behavior("## Title\n---\n## Body".to_string()));
    assert_eq!(request.messages[1].role, MessageRole::System);
    assert_eq!(request.messages[1].content, "src/main.rs: fn main() {}\n");
    assert_eq!(request.messages[2].role, MessageRole::User);
    assert_eq!(
        request.messages[2].content,
        "Produce 1 professional Github Issue based on the code provided."
    );
}

#[test]
fn request_is_the_same_for_the_same_inputs() {
    let b = writer("t --- b");
    let one = b.generate_issue_from_file("a.rs", "code");
    let two = b.generate_issue_from_file("a.rs", "code");
    assert_eq!(one.model_name, two.model_name);
    assert_eq!(one.messages.len(), two.messages.len());
    for i in 0..one.messages.len() {
        assert_eq!(one.messages[i].role, two.messages[i].role);
        assert_eq!(one.messages[i].content, two.messages[i].content);
    }
}

#[test]
fn request_carries_the_artifact_whole() {
    let b = writer("t");
    let code = "x".repeat(100_000);
    let request = b.generate_issue_from_file("big.txt", &code);
    assert_eq!(request.messages[1].content.len(), "big.txt: ".len() + 100_000);
}

#[test]
fn add_message_appends_one_message() {
    let b = writer("t");
    let mut messages = vec![ChatMessage { role: MessageRole::User, content: "first".to_string() }];
    b.add_message(&mut messages, "second".to_string(), MessageRole::Assistant);
    b.add_message(&mut messages, "third".to_string(), MessageRole::System);
    assert_eq!(messages.len(), 3);
    assert_eq!(messages[0].content, "first");
    assert_eq!(messages[1].role, MessageRole::Assistant);
    assert_eq!(messages[1].content, "second");
    assert_eq!(messages[2].role, MessageRole::System);
    assert_eq!(messages[2].content, "third");
    let copy = messages[1].clone();
    assert_eq!(copy.role, MessageRole::Assistant);
    assert_eq!(copy.content, "second");
}

#[test]
fn system_directive_quotes_its_content() {
    let b = writer("t");
    assert_eq!(b.system("You are Britney."), "SYSTEM \"You are Britney.\n\"");
    assert_eq!(b.system(""), "SYSTEM \"\n\"");
}

#[test]
fn question_puts_the_code_before_the_question() {
    let b = writer("t");
    let request = b.answer("What does it do?", "fn main() {}", "pub fn f() {}");
    assert_eq!(request.model_name, MODEL_NAME);
    assert_eq!(request.messages.len(), 2);
    assert_eq!(request.messages[0].role, MessageRole::User);
    assert_eq!(request.messages[0].content, "```rust\nfn main() {}\npub fn f() {}\n```");
    assert_eq!(request.messages[1].role, MessageRole::User);
    assert_eq!(request.messages[1].content, "What does it do?");
}

#[test]
fn writer_takes_defaults() {
    let b = Britney::new(GithubClient::new(None, None), None, None, IssueTemplate::new("t"));
    assert_eq!(b.client.owner, "test");
    assert_eq!(b.client.repo, "test");
    assert_eq!(b.desired_model, None);
    assert_eq!(b.modelfile_path, "./Modelfile");
    assert_eq!(b.it.raw, "t");
    assert_eq!(DEFAULT_MODELFILE_PATH, "./Modelfile");
    assert_eq!(DEFAULT_TEMPLATE_PATH, "issue_templates/default.md");
}

#[test]
fn writer_keeps_what_the_operator_chose() {
    let client = GithubClient::new(Some("octo".to_string()), Some("cat".to_string()));
    let b = Britney::new(
        client,
        Some("llama3".to_string()),
        Some("/tmp/Modelfile".to_string()),
        IssueTemplate::new("a --- b"),
    );
    assert_eq!(b.client.owner, "octo");
    assert_eq!(b.client.repo, "cat");
    assert_eq!(b.desired_model, Some("llama3".to_string()));
    assert_eq!(b.modelfile_path, "/tmp/Modelfile");
    assert_eq!(b.it.title_template, "a");
}

#[test]
fn client_defaults_apply_one_by_one() {
    let client = GithubClient::new(Some("octo".to_string()), None);
    assert_eq!(client.owner, "octo");
    assert_eq!(client.repo, "test");
    let client = GithubClient::new(None, Some("cat".to_string()));
    assert_eq!(client.owner, "test");
    assert_eq!(client.repo, "cat");
}
