//! The batch coordinator: the artifacts of one directory, taken strictly
//! one after another in the order of the listing. The first failure ends
//! the batch and nothing of it is kept.

use vstd::prelude::*;
use vstd::string::*;
use crate::britney::Britney;
use crate::error::PipelineError;
use crate::issue::{Issue, IssueView};
use crate::text::views;

verus! {

broadcast use vstd::string::group_string_axioms;

/// An entry of a directory listing.
#[derive(Debug)]
pub struct DirEntry {
    pub path: String,
    pub is_file: bool,
}

/// An entry with its path as a text.
pub struct DirEntryView {
    pub path: Seq<char>,
    pub is_file: bool,
}

impl View for DirEntry {
    type V = DirEntryView;

    open spec fn view(&self) -> DirEntryView {
        DirEntryView { path: self.path@, is_file: self.is_file }
    }
}

impl DeepView for DirEntry {
    type V = DirEntryView;

    open spec fn deep_view(&self) -> DirEntryView {
        self@
    }
}

/// The artifacts among `entries`: the paths of the files, in the order of
/// the listing. What is no file is passed over.
pub open spec fn artifacts(entries: Seq<DirEntryView>) -> Seq<Seq<char>>
    decreases entries.len(),
{
    if entries.len() == 0 {
        Seq::empty()
    } else if entries.last().is_file {
        artifacts(entries.drop_last()).push(entries.last().path)
    } else {
        artifacts(entries.drop_last())
    }
}

/// What one artifact came to, with the issue as texts.
pub open spec fn outcome_view(outcome: Result<Issue, PipelineError>) -> Result<
    IssueView,
    PipelineError,
> {
    match outcome {
        Ok(issue) => Ok(issue@),
        Err(e) => Err(e),
    }
}

/// A batch in progress as texts.
pub struct BatchView {
    pub paths: Seq<Seq<char>>,
    pub issues: Seq<IssueView>,
}

/// A batch in progress: the artifacts, and the issues of those that are
/// done. The artifact in turn is the one after them.
#[derive(Debug)]
pub struct Batch {
    pub paths: Vec<String>,
    pub issues: Vec<Issue>,
}

impl View for Batch {
    type V = BatchView;

    open spec fn view(&self) -> BatchView {
        BatchView { paths: views(self.paths@), issues: self.issues.deep_view() }
    }
}

/// What the caller is to do next.
#[derive(Debug)]
pub enum BatchStep {
    /// Generate the issue of this artifact and record what it came to.
    Generate { path: String, batch: Batch },
    /// Stop: the batch has ended so.
    Done(Result<Vec<Issue>, PipelineError>),
}

/// A step as texts.
pub enum BatchStepView {
    Generate { path: Seq<char>, batch: BatchView },
    Done(Result<Seq<IssueView>, PipelineError>),
}

impl View for BatchStep {
    type V = BatchStepView;

    open spec fn view(&self) -> BatchStepView {
        match self {
            BatchStep::Generate { path, batch } => BatchStepView::Generate {
                path: path@,
                batch: batch@,
            },
            BatchStep::Done(Ok(issues)) => BatchStepView::Done(Ok(issues.deep_view())),
            BatchStep::Done(Err(e)) => BatchStepView::Done(Err(*e)),
        }
    }
}

/// The step that a batch is at: the artifact in turn, or the end with all
/// the issues.
pub open spec fn proceed(batch: BatchView) -> BatchStepView {
    if batch.issues.len() < batch.paths.len() {
        BatchStepView::Generate { path: batch.paths[batch.issues.len() as int], batch }
    } else {
        BatchStepView::Done(Ok(batch.issues))
    }
}

/// The first step of a batch over `paths`.
pub open spec fn begin(paths: Seq<Seq<char>>) -> BatchStepView {
    proceed(BatchView { paths, issues: Seq::empty() })
}

/// The step after the artifact in turn came to `outcome`: an issue is kept
/// and the batch goes on; a failure ends the batch without any issue.
pub open spec fn recorded(batch: BatchView, outcome: Result<IssueView, PipelineError>)
    -> BatchStepView {
    match outcome {
        Ok(issue) => proceed(BatchView { paths: batch.paths, issues: batch.issues.push(issue) }),
        Err(e) => BatchStepView::Done(Err(e)),
    }
}

/// Where a batch stands after its artifacts came to `outcomes`, one after
/// another. Outcomes after the end are not taken.
pub open spec fn after_outcomes(
    step: BatchStepView,
    outcomes: Seq<Result<IssueView, PipelineError>>,
) -> BatchStepView
    decreases outcomes.len(),
{
    if outcomes.len() == 0 {
        step
    } else {
        match step {
            BatchStepView::Generate { path, batch } => after_outcomes(
                recorded(batch, outcomes.first()),
                outcomes.drop_first(),
            ),
            BatchStepView::Done(_) => step,
        }
    }
}

/// The issues of outcomes that are all successes.
pub open spec fn issues_of(outcomes: Seq<Result<IssueView, PipelineError>>) -> Seq<IssueView> {
    Seq::new(outcomes.len(), |i: int| outcomes[i]->Ok_0)
}

/// A batch with some issues done, whose next artifacts succeed, stands at
/// the issues done before and the new ones, in order.
proof fn lemma_successes_from(batch: BatchView, outcomes: Seq<Result<IssueView, PipelineError>>)
    requires
        batch.issues.len() + outcomes.len() <= batch.paths.len(),
        forall|i: int| 0 <= i < outcomes.len() ==> (#[trigger] outcomes[i]) is Ok,
    ensures
        after_outcomes(proceed(batch), outcomes) == proceed(
            BatchView { paths: batch.paths, issues: batch.issues + issues_of(outcomes) },
        ),
    decreases outcomes.len(),
{
    if outcomes.len() == 0 {
        assert(batch.issues + issues_of(outcomes) =~= batch.issues);
    } else {
        let first = outcomes.first();
        assert(first is Ok);
        let next = BatchView { paths: batch.paths, issues: batch.issues.push(first->Ok_0) };
        let rest = outcomes.drop_first();
        assert forall|i: int| 0 <= i < rest.len() implies (#[trigger] rest[i]) is Ok by {
            assert(rest[i] == outcomes[i + 1]);
        }
        lemma_successes_from(next, rest);
        assert(next.issues + issues_of(rest) =~= batch.issues + issues_of(outcomes));
    }
}

/// A batch whose artifacts succeed up to one that fails ends with that
/// failure.
proof fn lemma_first_failure_from(
    batch: BatchView,
    outcomes: Seq<Result<IssueView, PipelineError>>,
    k: int,
)
    requires
        0 <= k < outcomes.len(),
        batch.issues.len() + k < batch.paths.len(),
        forall|i: int| 0 <= i < k ==> (#[trigger] outcomes[i]) is Ok,
        outcomes[k] is Err,
    ensures
        after_outcomes(proceed(batch), outcomes) == BatchStepView::Done(
            Err(outcomes[k]->Err_0),
        ),
    decreases k,
{
    let rest = outcomes.drop_first();
    if k == 0 {
        let ended = BatchStepView::Done(Err::<Seq<IssueView>, PipelineError>(outcomes[0]->Err_0));
        assert(recorded(batch, outcomes.first()) == ended);
        if rest.len() > 0 {
            assert(after_outcomes(ended, rest) == ended);
        }
    } else {
        let first = outcomes.first();
        assert(first is Ok);
        let next = BatchView { paths: batch.paths, issues: batch.issues.push(first->Ok_0) };
        assert forall|i: int| 0 <= i < k - 1 implies (#[trigger] rest[i]) is Ok by {
            assert(rest[i] == outcomes[i + 1]);
        }
        assert(rest[k - 1] == outcomes[k]);
        lemma_first_failure_from(next, rest, k - 1);
    }
}

/// While the artifacts succeed they are taken in the order of the listing:
/// after `n` successes the artifact at `n` is in turn, and the issues so
/// far are those of the successes, in order.
pub proof fn lemma_batch_in_order(
    paths: Seq<Seq<char>>,
    outcomes: Seq<Result<IssueView, PipelineError>>,
)
    requires
        outcomes.len() < paths.len(),
        forall|i: int| 0 <= i < outcomes.len() ==> (#[trigger] outcomes[i]) is Ok,
    ensures
        after_outcomes(begin(paths), outcomes) == (BatchStepView::Generate {
            path: paths[outcomes.len() as int],
            batch: BatchView { paths, issues: issues_of(outcomes) },
        }),
{
    let batch = BatchView { paths, issues: Seq::empty() };
    lemma_successes_from(batch, outcomes);
    assert(batch.issues + issues_of(outcomes) =~= issues_of(outcomes));
}

/// A batch of artifacts that all succeed gives one issue for each
/// artifact, in the order of the listing.
pub proof fn lemma_batch_of_successes(
    paths: Seq<Seq<char>>,
    outcomes: Seq<Result<IssueView, PipelineError>>,
)
    requires
        outcomes.len() == paths.len(),
        forall|i: int| 0 <= i < outcomes.len() ==> (#[trigger] outcomes[i]) is Ok,
    ensures
        after_outcomes(begin(paths), outcomes) == BatchStepView::Done(Ok(issues_of(outcomes))),
        issues_of(outcomes).len() == paths.len(),
        forall|i: int|
            0 <= i < paths.len() ==> Ok::<IssueView, PipelineError>(
                #[trigger] issues_of(outcomes)[i],
            ) == outcomes[i],
{
    let batch = BatchView { paths, issues: Seq::empty() };
    lemma_successes_from(batch, outcomes);
    assert(batch.issues + issues_of(outcomes) =~= issues_of(outcomes));
}

/// A batch in which the artifact at `k` is the first to fail ends with
/// that failure and without any issue, whatever the others would come to.
pub proof fn lemma_batch_fails_fast(
    paths: Seq<Seq<char>>,
    outcomes: Seq<Result<IssueView, PipelineError>>,
    k: int,
)
    requires
        0 <= k < outcomes.len(),
        k < paths.len(),
        forall|i: int| 0 <= i < k ==> (#[trigger] outcomes[i]) is Ok,
        outcomes[k] is Err,
    ensures
        after_outcomes(begin(paths), outcomes) == BatchStepView::Done(
            Err(outcomes[k]->Err_0),
        ),
{
    lemma_first_failure_from(BatchView { paths, issues: Seq::empty() }, outcomes, k);
}

impl Batch {
    /// The step that the batch is at.
    pub fn proceed(self) -> (step: BatchStep)
        ensures
            step@ == proceed(self@),
    {
        let done: usize = self.issues.len();
        if done < self.paths.len() {
            let path = self.paths[done].clone();
            BatchStep::Generate { path, batch: self }
        } else {
            BatchStep::Done(Ok(self.issues))
        }
    }

    /// Records what the artifact in turn came to and gives the next step.
    pub fn record(self, outcome: Result<Issue, PipelineError>) -> (step: BatchStep)
        ensures
            step@ == recorded(self@, outcome_view(outcome)),
    {
        match outcome {
            Ok(issue) => {
                let mut batch = self;
                batch.issues.push(issue);
                assert(batch.issues.deep_view() =~= self.issues.deep_view().push(issue@));
                batch.proceed()
            },
            Err(e) => BatchStep::Done(Err(e)),
        }
    }
}

impl Britney {
    /// The first step of the batch over the directory that lists
    /// `entries`: its files are the artifacts, in the order of the listing.
    pub fn generate_issues_from_folder(&self, entries: Vec<DirEntry>) -> (step: BatchStep)
        ensures
            step@ == begin(artifacts(entries.deep_view())),
    {
        let mut paths: Vec<String> = Vec::new();
        let mut i: usize = 0;
        assert(entries.deep_view().take(0) =~= Seq::<DirEntryView>::empty());
        assert(views(paths@) =~= Seq::<Seq<char>>::empty());
        while i < entries.len()
            invariant
                i <= entries@.len(),
                views(paths@) == artifacts(entries.deep_view().take(i as int)),
            decreases entries@.len() - i,
        {
            let ghost before = entries.deep_view().take(i as int);
            let ghost longer = entries.deep_view().take(i + 1);
            assert(longer.drop_last() =~= before);
            assert(longer.last() == entries@[i as int]@);
            if entries[i].is_file {
                let ghost held = paths@;
                let path = entries[i].path.clone();
                paths.push(path);
                assert(views(paths@) =~= views(held).push(path@));
            }
            i = i + 1;
        }
        assert(entries.deep_view().take(entries@.len() as int) =~= entries.deep_view());
        let issues: Vec<Issue> = Vec::new();
        assert(issues.deep_view() =~= Seq::<IssueView>::empty());
        let batch = Batch { paths, issues };
        batch.proceed()
    }
}

} // verus!
