//! The issue writer itself: what the operator configured and the template
//! that every request is built on. Its methods are spread over the modules
//! of the stages they belong to.

use vstd::prelude::*;
use vstd::string::*;
use crate::github_client::{GithubClient, GithubClientView};
use crate::issue_template::{IssueTemplate, IssueTemplateView};

verus! {

broadcast use vstd::string::group_string_axioms;

/// Where the model definition is written when the operator names no place.
pub const DEFAULT_MODELFILE_PATH: &'static str = "./Modelfile";

/// Where the template is read when the operator names no place.
pub const DEFAULT_TEMPLATE_PATH: &'static str = "issue_templates/default.md";

/// The issue writer as plain texts.
pub struct BritneyView {
    pub client: GithubClientView,
    pub desired_model: Option<Seq<char>>,
    pub modelfile_path: Seq<char>,
    pub it: IssueTemplateView,
}

/// The issue writer: the tracker it publishes to, the base model the
/// operator asked for, the place of the model definition, and the template.
#[derive(Debug)]
pub struct Britney {
    pub client: GithubClient,
    pub desired_model: Option<String>,
    pub modelfile_path: String,
    pub it: IssueTemplate,
}

/// The text of an optional string.
pub open spec fn text_of(s: Option<String>) -> Option<Seq<char>> {
    match s {
        Some(s) => Some(s@),
        None => None,
    }
}

impl View for Britney {
    type V = BritneyView;

    open spec fn view(&self) -> BritneyView {
        BritneyView {
            client: self.client@,
            desired_model: text_of(self.desired_model),
            modelfile_path: self.modelfile_path@,
            it: self.it@,
        }
    }
}

impl Britney {
    /// An issue writer for `client` and `template`. `desired_model` is the
    /// base model to derive from, if the operator chose one;
    /// `modelfile_path` is where the model definition goes, by default
    /// `DEFAULT_MODELFILE_PATH`.
    pub fn new(
        client: GithubClient,
        desired_model: Option<String>,
        modelfile_path: Option<String>,
        template: IssueTemplate,
    ) -> (britney: Britney)
        ensures
            britney@.client == client@,
            britney@.desired_model == text_of(desired_model),
            britney@.modelfile_path == match modelfile_path {
                Some(path) => path@,
                None => DEFAULT_MODELFILE_PATH@,
            },
            britney@.it == template@,
    {
        let modelfile_path = match modelfile_path {
            Some(path) => path,
            None => DEFAULT_MODELFILE_PATH.to_owned(),
        };
        Britney { client, desired_model, modelfile_path, it: template }
    }
}

} // verus!
