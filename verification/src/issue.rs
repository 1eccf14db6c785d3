//! The issue record: what the pipeline produces and the tracker receives.

use vstd::prelude::*;

verus! {

/// An issue as two texts.
pub struct IssueView {
    pub title: Seq<char>,
    pub body: Seq<char>,
}

/// An issue ready for publication.
#[derive(Debug)]
pub struct Issue {
    pub title: String,
    pub body: String,
}

impl View for Issue {
    type V = IssueView;

    open spec fn view(&self) -> IssueView {
        IssueView { title: self.title@, body: self.body@ }
    }
}

impl DeepView for Issue {
    type V = IssueView;

    open spec fn deep_view(&self) -> IssueView {
        self@
    }
}

impl Clone for Issue {
    fn clone(&self) -> (copy: Issue)
        ensures
            copy@ == self@,
    {
        Issue { title: self.title.clone(), body: self.body.clone() }
    }
}

/// The title of an issue that nothing has filled in yet.
pub const PLACEHOLDER_TITLE: &'static str = "New Issue";

impl Issue {
    /// An issue with the placeholder title and an empty body.
    pub fn new() -> (issue: Issue)
        ensures
            issue@.title == PLACEHOLDER_TITLE@,
            issue@.body == Seq::<char>::empty(),
    {
        Issue { title: PLACEHOLDER_TITLE.to_owned(), body: String::new() }
    }
}

} // verus!
