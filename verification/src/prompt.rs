//! The prompt builder: from the template and one artifact to the ordered
//! messages of a chat request.

use vstd::prelude::*;
use vstd::string::*;
use crate::britney::Britney;

verus! {

broadcast use vstd::string::group_string_axioms;

/// The name of the derived model, and what a model's name must contain to
/// count as that model.
pub const MODEL_NAME: &'static str = "Britney";

/// What stands before the template in the system content.
pub const BEHAVIOR_OPENING: &'static str =
    "You are Britney, a Github Issues generator. \n            You create some professional and complete GitHub Issue, 100% based on the following template:\n\n                ";

/// What stands after the template in the system content.
pub const BEHAVIOR_CLOSING: &'static str =
    "\n\n            Adjust the template as needed for each issue. \n            Your answer is only the issue asked.\n            Don't provide the title in markdown format, only the body.\n            ";

/// What parts an artifact's path from its content.
pub const ARTIFACT_JOINT: &'static str = ": ";

/// What the user turn asks for.
pub const DIRECTIVE: &'static str =
    "Produce 1 professional Github Issue based on the code provided.";

/// What opens a system directive of a model definition.
pub const SYSTEM_OPENING: &'static str = "SYSTEM \"";

/// What closes a system directive of a model definition.
pub const SYSTEM_CLOSING: &'static str = "\n\"";

/// What opens the code block of a question about code.
pub const CODE_OPENING: &'static str = "```rust\n";

/// What parts the two sources inside the code block.
pub const CODE_JOINT: &'static str = "\n";

/// What closes the code block.
pub const CODE_CLOSING: &'static str = "\n```";

/// Who speaks in a chat message.
#[derive(Debug, Clone, Copy, PartialEq, Eq, Structural)]
pub enum MessageRole {
    User,
    Assistant,
    System,
}

/// A chat message as a role and a text.
pub struct ChatMessageView {
    pub role: MessageRole,
    pub content: Seq<char>,
}

/// One turn of a chat.
#[derive(Debug)]
pub struct ChatMessage {
    pub role: MessageRole,
    pub content: String,
}

impl View for ChatMessage {
    type V = ChatMessageView;

    open spec fn view(&self) -> ChatMessageView {
        ChatMessageView { role: self.role, content: self.content@ }
    }
}

impl DeepView for ChatMessage {
    type V = ChatMessageView;

    open spec fn deep_view(&self) -> ChatMessageView {
        self@
    }
}

impl Clone for ChatMessage {
    fn clone(&self) -> (copy: ChatMessage)
        ensures
            copy@ == self@,
    {
        ChatMessage { role: self.role, content: self.content.clone() }
    }
}

/// A chat request as a model name and its messages.
pub struct ChatRequestView {
    pub model_name: Seq<char>,
    pub messages: Seq<ChatMessageView>,
}

/// What is sent to the runtime for one generation.
#[derive(Debug)]
pub struct ChatRequest {
    pub model_name: String,
    pub messages: Vec<ChatMessage>,
}

impl View for ChatRequest {
    type V = ChatRequestView;

    open spec fn view(&self) -> ChatRequestView {
        ChatRequestView { model_name: self.model_name@, messages: self.messages.deep_view() }
    }
}

/// The system content for a template: the template between the fixed
/// opening and closing instructions.
pub open spec fn behavior_text(template: Seq<char>) -> Seq<char> {
    BEHAVIOR_OPENING@ + template + BEHAVIOR_CLOSING@
}

/// The message that carries an artifact: its path, the joint, its content.
pub open spec fn artifact_text(path: Seq<char>, code: Seq<char>) -> Seq<char> {
    path + ARTIFACT_JOINT@ + code
}

/// The messages for one artifact, in the order in which they are sent.
pub open spec fn prompt(template: Seq<char>, path: Seq<char>, code: Seq<char>) -> Seq<
    ChatMessageView,
> {
    seq![
        ChatMessageView { role: MessageRole::System, content: behavior_text(template) },
        ChatMessageView { role: MessageRole::System, content: artifact_text(path, code) },
        ChatMessageView { role: MessageRole::User, content: DIRECTIVE@ },
    ]
}

/// The system directive that carries `content`.
pub open spec fn system_directive(content: Seq<char>) -> Seq<char> {
    SYSTEM_OPENING@ + content + SYSTEM_CLOSING@
}

/// The code block that holds two sources, one after the other.
pub open spec fn code_block(first: Seq<char>, second: Seq<char>) -> Seq<char> {
    CODE_OPENING@ + first + CODE_JOINT@ + second + CODE_CLOSING@
}

/// The messages of a question about two sources: the code block, then the
/// question, both as user turns.
pub open spec fn question(first: Seq<char>, second: Seq<char>, q: Seq<char>) -> Seq<
    ChatMessageView,
> {
    seq![
        ChatMessageView { role: MessageRole::User, content: code_block(first, second) },
        ChatMessageView { role: MessageRole::User, content: q },
    ]
}

impl Britney {
    /// The system directive of a model definition that carries `d`.
    pub fn system(&self, d: &str) -> (directive: String)
        ensures
            directive@ == system_directive(d@),
    {
        let mut directive = SYSTEM_OPENING.to_owned();
        directive.append(d);
        directive.append(SYSTEM_CLOSING);
        directive
    }

    /// The chat request that puts the question `q` about two sources to
    /// the derived model. Its answer is meant to be shown as it comes.
    pub fn answer(&self, q: &str, first: &str, second: &str) -> (request: ChatRequest)
        ensures
            request@.model_name == MODEL_NAME@,
            request@.messages == question(first@, second@, q@),
    {
        let mut messages: Vec<ChatMessage> = Vec::new();
        assert(messages.deep_view() =~= Seq::<ChatMessageView>::empty());
        let mut content = CODE_OPENING.to_owned();
        content.append(first);
        content.append(CODE_JOINT);
        content.append(second);
        content.append(CODE_CLOSING);
        self.add_message(&mut messages, content, MessageRole::User);
        self.add_message(&mut messages, q.to_owned(), MessageRole::User);
        assert(messages.deep_view() =~= question(first@, second@, q@));
        ChatRequest { model_name: MODEL_NAME.to_owned(), messages }
    }

    /// The system content that makes the model write issues after
    /// `template`.
    pub fn behavior(&self, template: String) -> (content: String)
        ensures
            content@ == behavior_text(template@),
    {
        let mut content = BEHAVIOR_OPENING.to_owned();
        content.append(template.as_str());
        content.append(BEHAVIOR_CLOSING);
        content
    }

    /// Appends a message of `role` with `content` to `messages`.
    pub fn add_message(&self, messages: &mut Vec<ChatMessage>, content: String, role: MessageRole)
        ensures
            final(messages).deep_view() == old(messages).deep_view().push(
                (ChatMessageView { role, content: content@ }),
            ),
    {
        let message = ChatMessage { role, content };
        messages.push(message);
        assert(messages.deep_view() =~= old(messages).deep_view().push(message@));
    }

    /// The chat request for the artifact at `path` whose content is `code`:
    /// the system content built on the template's raw text, then the
    /// artifact, whole and unchanged, then the directive, for the derived
    /// model.
    pub fn generate_issue_from_file(&self, path: &str, code: &str) -> (request: ChatRequest)
        ensures
            request@.model_name == MODEL_NAME@,
            request@.messages == prompt(self@.it.raw, path@, code@),
    {
        let mut messages: Vec<ChatMessage> = Vec::new();
        assert(messages.deep_view() =~= Seq::<ChatMessageView>::empty());
        let content = self.behavior(self.it.raw.clone());
        self.add_message(&mut messages, content, MessageRole::System);
        let mut content = path.to_owned();
        content.append(ARTIFACT_JOINT);
        content.append(code);
        self.add_message(&mut messages, content, MessageRole::System);
        self.add_message(&mut messages, DIRECTIVE.to_owned(), MessageRole::User);
        assert(messages.deep_view() =~= prompt(self@.it.raw, path@, code@));
        ChatRequest { model_name: MODEL_NAME.to_owned(), messages }
    }
}

} // verus!
