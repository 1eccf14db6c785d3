//! Issue templates: a title pattern and a body pattern in one text, parted
//! by a separator, and the substitution that fills their slots.

use vstd::prelude::*;
use vstd::string::*;
use crate::issue::Issue;
use crate::text::{chars_of, find_from, index_of, replace, replace_all, trim, trim_bounds};

verus! {

broadcast use vstd::string::group_string_axioms;

/// What parts the title pattern from the body pattern.
pub const SEPARATOR: &'static str = "---";

/// The slot of a title pattern.
pub const TITLE_SLOT: &'static str = "{title}";

/// The slot of a body pattern.
pub const BODY_SLOT: &'static str = "{body}";

/// The title pattern of a template text: what stands before the first
/// separator, trimmed; empty where there is no separator.
pub open spec fn title_section(content: Seq<char>) -> Seq<char> {
    match index_of(content, SEPARATOR@) {
        Some(i) => trim(content.subrange(0, i)),
        None => Seq::empty(),
    }
}

/// The body pattern of a template text: what stands after the first
/// separator, trimmed; empty where there is no separator.
pub open spec fn body_section(content: Seq<char>) -> Seq<char> {
    match index_of(content, SEPARATOR@) {
        Some(i) => trim(content.subrange(i + SEPARATOR@.len(), content.len() as int)),
        None => Seq::empty(),
    }
}

/// A template as three texts.
pub struct IssueTemplateView {
    pub raw: Seq<char>,
    pub title_template: Seq<char>,
    pub body_template: Seq<char>,
}

/// A template text and its two sections.
#[derive(Debug)]
pub struct IssueTemplate {
    pub raw: String,
    pub title_template: String,
    pub body_template: String,
}

impl View for IssueTemplate {
    type V = IssueTemplateView;

    open spec fn view(&self) -> IssueTemplateView {
        IssueTemplateView {
            raw: self.raw@,
            title_template: self.title_template@,
            body_template: self.body_template@,
        }
    }
}

impl Clone for IssueTemplate {
    fn clone(&self) -> (copy: IssueTemplate)
        ensures
            copy@ == self@,
    {
        IssueTemplate {
            raw: self.raw.clone(),
            title_template: self.title_template.clone(),
            body_template: self.body_template.clone(),
        }
    }
}

impl IssueTemplate {
    /// The two sections are those of the raw text.
    pub open spec fn well_formed(&self) -> bool {
        &&& self.title_template@ == title_section(self.raw@)
        &&& self.body_template@ == body_section(self.raw@)
    }

    /// The template that `content` holds. A text without a separator gives
    /// two empty sections and keeps its raw text.
    pub fn new(content: &str) -> (template: IssueTemplate)
        ensures
            template@.raw == content@,
            template@.title_template == title_section(content@),
            template@.body_template == body_section(content@),
            template.well_formed(),
    {
        let text = chars_of(content);
        let separator = chars_of(SEPARATOR);
        let end: usize = text.len();
        match find_from(&text, &separator, 0) {
            Some(at) => {
                let (title_from, title_to) = trim_bounds(&text, 0, at);
                let (body_from, body_to) = trim_bounds(&text, at + separator.len(), end);
                IssueTemplate {
                    raw: content.to_owned(),
                    title_template: content.substring_char(title_from, title_to).to_owned(),
                    body_template: content.substring_char(body_from, body_to).to_owned(),
                }
            },
            None => IssueTemplate {
                raw: content.to_owned(),
                title_template: String::new(),
                body_template: String::new(),
            },
        }
    }

    /// The issue that the template gives for `title_data` and `body_data`:
    /// every title slot of the title pattern holds `title_data`, every body
    /// slot of the body pattern holds `body_data`.
    pub fn generate_issue(&self, title_data: &str, body_data: &str) -> (issue: Issue)
        ensures
            issue@.title == replace_all(self@.title_template, TITLE_SLOT@, title_data@),
            issue@.body == replace_all(self@.body_template, BODY_SLOT@, body_data@),
    {
        Issue {
            title: replace(self.title_template.as_str(), TITLE_SLOT, title_data),
            body: replace(self.body_template.as_str(), BODY_SLOT, body_data),
        }
    }
}

} // verus!
