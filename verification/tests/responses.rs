use britney::britney::Britney;
use britney::github_client::GithubClient;
use britney::issue_template::IssueTemplate;
use britney::response::FOOTER;

fn writer() -> Britney {
    Britney::new(GithubClient::new(None, None), None, None, IssueTemplate::new("t --- b"))
}

fn reference(response: &str) -> (String, String) {
    let mut title = String::new();
    let mut body = String::new();
    let mut is_title = true;
    for line in response.lines() {
        if line.is_empty() {
            continue;
        }
        if is_title {
            title = line.to_string();
            is_title = false;
        } else {
            body += line;
            body += "\n";
        }
    }
    body += FOOTER;
    (title, body)
}

#[test]
fn footer_is_two_newlines_and_the_sentence() {
    assert_eq!(
        FOOTER,
        "\n\n**This issue was generated by Britney, a Github Issues generator.  Check it out [here](https://www.github.com/tm26a21p/britney)**"
    );
    assert_eq!(writer().body_footer(), FOOTER);
}

#[test]
fn parse_takes_first_filled_line_as_title() {
    let issue = writer().parse_response("\n\nAdd retry logic\n\nfor network calls\nand more\n".to_string());
    assert_eq!(issue.title, "Add retry logic");
    assert_eq!(issue.body, format!("for network calls\nand more\n{}", FOOTER));
}

#[test]
fn parse_of_empty_response_is_footer_alone() {
    let issue = writer().parse_response(String::new());
    assert_eq!(issue.title, "");
    assert_eq!(issue.body, FOOTER);
}

#[test]
fn parse_of_blank_lines_is_footer_alone() {
    for response in ["\n", "\n\n\n", "\r\n\r\n", "\n\r\n\n"] {
        let issue = writer().parse_response(response.to_string());
        assert_eq!(issue.title, "", "{:?}", response);
        assert_eq!(issue.body, FOOTER, "{:?}", response);
    }
}

#[test]
fn parse_of_title_alone_has_footer_body() {
    let issue = writer().parse_response("Only a title".to_string());
    assert_eq!(issue.title, "Only a title");
    assert_eq!(issue.body, FOOTER);
}

#[test]
fn parse_keeps_a_markdown_heading_as_title() {
    let issue = writer().parse_response("# Heading\ntext".to_string());
    assert_eq!(issue.title, "# Heading");
    assert_eq!(issue.body, format!("text\n{}", FOOTER));
}

#[test]
fn parse_keeps_lines_of_spaces() {
    let issue = writer().parse_response("  \nsecond".to_string());
    assert_eq!(issue.title, "  ");
    assert_eq!(issue.body, format!("second\n{}", FOOTER));
}

#[test]
fn parse_drops_carriage_returns_of_line_endings() {
    let issue = writer().parse_response("Title\r\n\r\nbody one\r\nbody two".to_string());
    assert_eq!(issue.title, "Title");
    assert_eq!(issue.body, format!("body one\nbody two\n{}", FOOTER));
}

#[test]
fn parse_body_always_ends_with_footer() {
    let responses = vec![
        "",
        "a",
        "a\nb",
        "\n\na\n\n\nb\nc\n",
        "**bold**\n- item\n- item",
        "日本語\nテキスト",
        "ends with footer already\n\n**This issue",
    ];
    for response in responses {
        let issue = writer().parse_response(response.to_string());
        assert!(issue.body.ends_with(FOOTER), "{:?}", response);
    }
}

#[test]
fn parse_agrees_with_line_by_line_reading() {
    let responses = vec![
        "",
        "\n",
        "title",
        "title\n",
        "title\nbody",
        "\r\ntitle\r\n\r\nbody\r\n",
        "a\rb\nc\r",
        " \n\t\nx",
        "one\ntwo\nthree\nfour\n\n\n",
    ];
    for response in responses {
        let issue = writer().parse_response(response.to_string());
        let (title, body) = reference(response);
        assert_eq!(issue.title, title, "{:?}", response);
        assert_eq!(issue.body, body, "{:?}", response);
    }
}
