//! The tracker side: which repository the issues go to, and the order in
//! which a batch of them is published.

use vstd::prelude::*;
use vstd::string::*;
use crate::britney::Britney;
use crate::error::PublishError;
use crate::issue::{Issue, IssueView};
use crate::issue_template::{IssueTemplate, BODY_SLOT, TITLE_SLOT};
use crate::text::replace_all;

verus! {

broadcast use vstd::string::group_string_axioms;

/// The owner and the repository taken when the operator names none.
pub const DEFAULT_TARGET: &'static str = "test";

/// A repository as two texts.
pub struct GithubClientView {
    pub owner: Seq<char>,
    pub repo: Seq<char>,
}

/// The repository that issues are published to.
#[derive(Debug)]
pub struct GithubClient {
    pub owner: String,
    pub repo: String,
}

impl View for GithubClient {
    type V = GithubClientView;

    open spec fn view(&self) -> GithubClientView {
        GithubClientView { owner: self.owner@, repo: self.repo@ }
    }
}

impl GithubClient {
    /// The repository `owner`/`repo`; each is `DEFAULT_TARGET` where the
    /// operator gave none.
    pub fn new(owner: Option<String>, repo: Option<String>) -> (client: GithubClient)
        ensures
            client@.owner == match owner {
                Some(owner) => owner@,
                None => DEFAULT_TARGET@,
            },
            client@.repo == match repo {
                Some(repo) => repo@,
                None => DEFAULT_TARGET@,
            },
    {
        let owner = match owner {
            Some(owner) => owner,
            None => DEFAULT_TARGET.to_owned(),
        };
        let repo = match repo {
            Some(repo) => repo,
            None => DEFAULT_TARGET.to_owned(),
        };
        GithubClient { owner, repo }
    }
}

/// A publication in progress as texts.
pub struct PublishingView {
    pub issues: Seq<IssueView>,
    pub done: nat,
}

/// A publication in progress: the issues, and how many of them the tracker
/// has taken. The issue in turn is the one after those.
#[derive(Debug)]
pub struct Publishing {
    pub issues: Vec<Issue>,
    pub done: usize,
}

impl View for Publishing {
    type V = PublishingView;

    open spec fn view(&self) -> PublishingView {
        PublishingView { issues: self.issues.deep_view(), done: self.done as nat }
    }
}

/// What the caller is to do next.
#[derive(Debug)]
pub enum PublishStep {
    /// Create this issue in the tracker and record what came of it.
    Create { issue: Issue, rest: Publishing },
    /// Stop: the publication has ended so.
    Done(Result<(), PublishError>),
}

/// A step as texts.
pub enum PublishStepView {
    Create { issue: IssueView, rest: PublishingView },
    Done(Result<(), PublishError>),
}

impl View for PublishStep {
    type V = PublishStepView;

    open spec fn view(&self) -> PublishStepView {
        match self {
            PublishStep::Create { issue, rest } => PublishStepView::Create {
                issue: issue@,
                rest: rest@,
            },
            PublishStep::Done(outcome) => PublishStepView::Done(*outcome),
        }
    }
}

/// The step that a publication is at: the issue in turn, or the end.
pub open spec fn publish_next(publishing: PublishingView) -> PublishStepView {
    if publishing.done < publishing.issues.len() {
        PublishStepView::Create {
            issue: publishing.issues[publishing.done as int],
            rest: publishing,
        }
    } else {
        PublishStepView::Done(Ok(()))
    }
}

/// The first step of the publication of `issues`.
pub open spec fn publish_begin(issues: Seq<IssueView>) -> PublishStepView {
    publish_next(PublishingView { issues, done: 0 })
}

/// The step after the tracker answered for the issue in turn: after a
/// success the next issue is in turn; a failure ends the publication, and
/// the issues that remain are not sent.
pub open spec fn published(publishing: PublishingView, outcome: Result<(), PublishError>)
    -> PublishStepView {
    match outcome {
        Ok(_) => if publishing.done < publishing.issues.len() {
            publish_next(
                PublishingView { issues: publishing.issues, done: publishing.done + 1 },
            )
        } else {
            PublishStepView::Done(Ok(()))
        },
        Err(e) => PublishStepView::Done(Err(e)),
    }
}

/// Where a publication stands after the tracker gave `outcomes`, one after
/// another. Outcomes after the end are not taken.
pub open spec fn after_answers(step: PublishStepView, outcomes: Seq<Result<(), PublishError>>)
    -> PublishStepView
    decreases outcomes.len(),
{
    if outcomes.len() == 0 {
        step
    } else {
        match step {
            PublishStepView::Create { issue, rest } => after_answers(
                published(rest, outcomes.first()),
                outcomes.drop_first(),
            ),
            PublishStepView::Done(_) => step,
        }
    }
}

/// The issues that a template gives for `data`, a pair of title data and
/// body data for each.
pub open spec fn templated(
    title_template: Seq<char>,
    body_template: Seq<char>,
    data: Seq<(Seq<char>, Seq<char>)>,
) -> Seq<IssueView> {
    Seq::new(
        data.len(),
        |i: int|
            IssueView {
                title: replace_all(title_template, TITLE_SLOT@, data[i].0),
                body: replace_all(body_template, BODY_SLOT@, data[i].1),
            },
    )
}

/// The texts of pairs of strings.
pub open spec fn pair_views(data: Seq<(String, String)>) -> Seq<(Seq<char>, Seq<char>)> {
    data.map_values(|pair: (String, String)| (pair.0@, pair.1@))
}

/// While the tracker takes the issues, they are sent one by one in their
/// order: after `n` successes the issue at `n` is in turn, and after as
/// many successes as there are issues the publication has ended well.
pub proof fn lemma_published_in_order(
    publishing: PublishingView,
    outcomes: Seq<Result<(), PublishError>>,
)
    requires
        publishing.done + outcomes.len() <= publishing.issues.len(),
        forall|i: int| 0 <= i < outcomes.len() ==> (#[trigger] outcomes[i]) is Ok,
    ensures
        after_answers(publish_next(publishing), outcomes) == publish_next(
            PublishingView {
                issues: publishing.issues,
                done: publishing.done + outcomes.len(),
            },
        ),
    decreases outcomes.len(),
{
    if outcomes.len() == 0 {
    } else {
        let rest = outcomes.drop_first();
        let next = PublishingView { issues: publishing.issues, done: publishing.done + 1 };
        assert(outcomes.first() is Ok);
        assert forall|i: int| 0 <= i < rest.len() implies (#[trigger] rest[i]) is Ok by {
            assert(rest[i] == outcomes[i + 1]);
        }
        lemma_published_in_order(next, rest);
    }
}

/// The first refusal ends the publication with that failure: no later
/// issue is sent, whatever the tracker would have answered.
pub proof fn lemma_publish_fails_fast(
    issues: Seq<IssueView>,
    outcomes: Seq<Result<(), PublishError>>,
    k: int,
)
    requires
        0 <= k < outcomes.len(),
        k < issues.len(),
        forall|i: int| 0 <= i < k ==> (#[trigger] outcomes[i]) is Ok,
        outcomes[k] is Err,
    ensures
        after_answers(publish_begin(issues), outcomes) == PublishStepView::Done(
            Err(outcomes[k]->Err_0),
        ),
{
    lemma_publish_fails_from(PublishingView { issues, done: 0 }, outcomes, k);
}

/// The same from any point of a publication.
proof fn lemma_publish_fails_from(
    publishing: PublishingView,
    outcomes: Seq<Result<(), PublishError>>,
    k: int,
)
    requires
        0 <= k < outcomes.len(),
        publishing.done + k < publishing.issues.len(),
        forall|i: int| 0 <= i < k ==> (#[trigger] outcomes[i]) is Ok,
        outcomes[k] is Err,
    ensures
        after_answers(publish_next(publishing), outcomes) == PublishStepView::Done(
            Err(outcomes[k]->Err_0),
        ),
    decreases k,
{
    let rest = outcomes.drop_first();
    if k == 0 {
        let ended = PublishStepView::Done(Err(outcomes[0]->Err_0));
        assert(published(publishing, outcomes.first()) == ended);
        if rest.len() > 0 {
            assert(after_answers(ended, rest) == ended);
        }
    } else {
        assert(outcomes.first() is Ok);
        let next = PublishingView { issues: publishing.issues, done: publishing.done + 1 };
        assert forall|i: int| 0 <= i < k - 1 implies (#[trigger] rest[i]) is Ok by {
            assert(rest[i] == outcomes[i + 1]);
        }
        assert(rest[k - 1] == outcomes[k]);
        lemma_publish_fails_from(next, rest, k - 1);
    }
}

impl Publishing {
    /// The step that the publication is at.
    pub fn proceed(self) -> (step: PublishStep)
        ensures
            step@ == publish_next(self@),
    {
        if self.done < self.issues.len() {
            let issue = self.issues[self.done].clone();
            PublishStep::Create { issue, rest: self }
        } else {
            PublishStep::Done(Ok(()))
        }
    }

    /// Records what the tracker answered for the issue in turn and gives
    /// the next step.
    pub fn record(self, outcome: Result<(), PublishError>) -> (step: PublishStep)
        ensures
            step@ == published(self@, outcome),
    {
        match outcome {
            Ok(_) => {
                if self.done < self.issues.len() {
                    let next = Publishing { issues: self.issues, done: self.done + 1 };
                    next.proceed()
                } else {
                    PublishStep::Done(Ok(()))
                }
            },
            Err(e) => PublishStep::Done(Err(e)),
        }
    }
}

impl GithubClient {
    /// The first step of publishing one issue.
    pub fn create_issue(&self, issue: Issue) -> (step: PublishStep)
        ensures
            step@ == publish_begin(seq![issue@]),
    {
        let mut issues: Vec<Issue> = Vec::new();
        issues.push(issue);
        assert(issues.deep_view() =~= seq![issue@]);
        self.create_issues(issues)
    }

    /// The first step of publishing `issues`, one after another in their
    /// order.
    pub fn create_issues(&self, issues: Vec<Issue>) -> (step: PublishStep)
        ensures
            step@ == publish_begin(issues.deep_view()),
    {
        let publishing = Publishing { issues, done: 0 };
        publishing.proceed()
    }

    /// The first step of publishing the issues that `template` gives for
    /// `ai_data`, a pair of title data and body data for each issue.
    pub fn create_issues_from_template(
        &self,
        template: IssueTemplate,
        ai_data: Vec<(String, String)>,
    ) -> (step: PublishStep)
        ensures
            step@ == publish_begin(
                templated(
                    template@.title_template,
                    template@.body_template,
                    pair_views(ai_data@),
                ),
            ),
    {
        let mut issues: Vec<Issue> = Vec::new();
        let mut i: usize = 0;
        let ghost all = templated(
            template@.title_template,
            template@.body_template,
            pair_views(ai_data@),
        );
        assert(issues.deep_view() =~= all.take(0));
        while i < ai_data.len()
            invariant
                i <= ai_data@.len(),
                all == templated(
                    template@.title_template,
                    template@.body_template,
                    pair_views(ai_data@),
                ),
                issues.deep_view() == all.take(i as int),
            decreases ai_data@.len() - i,
        {
            let ghost held = issues.deep_view();
            let issue = template.generate_issue(ai_data[i].0.as_str(), ai_data[i].1.as_str());
            issues.push(issue);
            assert(issues.deep_view() =~= held.push(issue@));
            assert(all.take(i + 1) =~= all.take(i as int).push(all[i as int]));
            i = i + 1;
        }
        assert(all.take(ai_data@.len() as int) =~= all);
        self.create_issues(issues)
    }
}

impl Britney {
    /// The first step of publishing one issue to the tracker.
    pub fn post_issue(&self, issue: Issue) -> (step: PublishStep)
        ensures
            step@ == publish_begin(seq![issue@]),
    {
        self.client.create_issue(issue)
    }

    /// The first step of publishing `issues` to the tracker.
    pub fn post_issues(&self, issues: Vec<Issue>) -> (step: PublishStep)
        ensures
            step@ == publish_begin(issues.deep_view()),
    {
        self.client.create_issues(issues)
    }
}

} // verus!
