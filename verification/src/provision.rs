//! The model provisioner: it makes sure that the derived model exists in
//! the runtime, deriving it from a base model when it does not. The
//! provisioner decides; its caller lists, reads, writes and builds, and
//! reports back what happened.

use vstd::prelude::*;
use vstd::string::*;
use crate::britney::{Britney, BritneyView};
use crate::error::ProvisionError;
use crate::prompt::{behavior_text, MODEL_NAME};
use crate::text::{contains, has, replace, replace_all};

verus! {

broadcast use vstd::string::group_string_axioms;

/// The system line of a base model's definition that gives way to the
/// system content.
pub const DEFAULT_SYSTEM_LINE: &'static str = "You are Dolphin, a helpful AI assistant.";

/// What ends a line of progress.
pub const LINE_END: &'static str = "\n";

/// A model that the runtime lists.
#[derive(Debug)]
pub struct ModelDescriptor {
    pub name: String,
}

impl Clone for ModelDescriptor {
    fn clone(&self) -> (copy: ModelDescriptor)
        ensures
            copy.name@ == self.name@,
    {
        ModelDescriptor { name: self.name.clone() }
    }
}

/// The names of `models`, in the order of the listing.
pub open spec fn names(models: Seq<ModelDescriptor>) -> Seq<Seq<char>> {
    models.map_values(|model: ModelDescriptor| model.name@)
}

/// One of `listing` is the derived model: its name contains the model name.
pub open spec fn alive_among(listing: Seq<Seq<char>>) -> bool {
    exists|i: int| 0 <= i < listing.len() && contains(#[trigger] listing[i], MODEL_NAME@)
}

/// The base model: the one the operator asked for, else the first listed.
pub open spec fn base_among(desired: Option<Seq<char>>, listing: Seq<Seq<char>>) -> Seq<char> {
    match desired {
        Some(name) => name,
        None => listing.first(),
    }
}

/// The definition of the derived model: the base model's definition with
/// its system line replaced by `content`, if it has that line.
pub open spec fn derived_definition(definition: Seq<char>, content: Seq<char>) -> Option<
    Seq<char>,
> {
    if contains(definition, DEFAULT_SYSTEM_LINE@) {
        Some(replace_all(definition, DEFAULT_SYSTEM_LINE@, content))
    } else {
        None
    }
}

/// What the provisioner waits for.
#[derive(Debug, Clone, Copy, PartialEq, Eq, Structural)]
pub enum Provision {
    /// Nothing was asked yet.
    Idle,
    /// The listing of the runtime's models.
    Listing,
    /// The definition of the base model.
    Introspecting,
    /// The writing of the derived definition.
    Persisting,
    /// The events of the build.
    Building,
    /// Nothing: provisioning has ended.
    Finished,
}

/// What the caller reports.
#[derive(Debug)]
pub enum ProvisionEvent {
    /// Provisioning is to begin.
    Started,
    /// The runtime listed these models.
    Listed(Vec<ModelDescriptor>),
    /// The runtime did not answer.
    Unreachable,
    /// The base model has this definition.
    Introspected(String),
    /// The definition could not be read.
    NotIntrospected,
    /// The derived definition is written.
    Persisted,
    /// The derived definition could not be written.
    NotPersisted,
    /// The build reports progress.
    Progress(String),
    /// The build stream ended.
    Built,
    /// The build stream broke off.
    NotBuilt,
}

/// An event with its texts.
pub enum ProvisionEventView {
    Started,
    Listed(Seq<Seq<char>>),
    Unreachable,
    Introspected(Seq<char>),
    NotIntrospected,
    Persisted,
    NotPersisted,
    Progress(Seq<char>),
    Built,
    NotBuilt,
}

impl View for ProvisionEvent {
    type V = ProvisionEventView;

    open spec fn view(&self) -> ProvisionEventView {
        match self {
            ProvisionEvent::Started => ProvisionEventView::Started,
            ProvisionEvent::Listed(models) => ProvisionEventView::Listed(names(models@)),
            ProvisionEvent::Unreachable => ProvisionEventView::Unreachable,
            ProvisionEvent::Introspected(text) => ProvisionEventView::Introspected(text@),
            ProvisionEvent::NotIntrospected => ProvisionEventView::NotIntrospected,
            ProvisionEvent::Persisted => ProvisionEventView::Persisted,
            ProvisionEvent::NotPersisted => ProvisionEventView::NotPersisted,
            ProvisionEvent::Progress(text) => ProvisionEventView::Progress(text@),
            ProvisionEvent::Built => ProvisionEventView::Built,
            ProvisionEvent::NotBuilt => ProvisionEventView::NotBuilt,
        }
    }
}

/// What the caller is to do next.
#[derive(Debug)]
pub enum ProvisionAction {
    /// List the runtime's models.
    ListModels,
    /// Read the definition of this base model.
    Introspect(String),
    /// Write this definition to this path.
    Persist { path: String, definition: String },
    /// Build the model of this name from the definition at this path, and
    /// report the events of the build.
    Build { name: String, path: String },
    /// Show this line, then report the next event of the build.
    Report(String),
    /// Stop: provisioning has ended so.
    Finish(Result<(), ProvisionError>),
    /// Nothing: the event was not waited for.
    Wait,
}

/// An action with its texts.
pub enum ProvisionActionView {
    ListModels,
    Introspect(Seq<char>),
    Persist { path: Seq<char>, definition: Seq<char> },
    Build { name: Seq<char>, path: Seq<char> },
    Report(Seq<char>),
    Finish(Result<(), ProvisionError>),
    Wait,
}

impl View for ProvisionAction {
    type V = ProvisionActionView;

    open spec fn view(&self) -> ProvisionActionView {
        match self {
            ProvisionAction::ListModels => ProvisionActionView::ListModels,
            ProvisionAction::Introspect(base) => ProvisionActionView::Introspect(base@),
            ProvisionAction::Persist { path, definition } => ProvisionActionView::Persist {
                path: path@,
                definition: definition@,
            },
            ProvisionAction::Build { name, path } => ProvisionActionView::Build {
                name: name@,
                path: path@,
            },
            ProvisionAction::Report(line) => ProvisionActionView::Report(line@),
            ProvisionAction::Finish(outcome) => ProvisionActionView::Finish(*outcome),
            ProvisionAction::Wait => ProvisionActionView::Wait,
        }
    }
}

/// The end of provisioning with `outcome`.
pub open spec fn finished(outcome: Result<(), ProvisionError>) -> (Provision, ProvisionActionView) {
    (Provision::Finished, ProvisionActionView::Finish(outcome))
}

/// What follows a listing.
pub open spec fn after_listing(cfg: BritneyView, listing: Seq<Seq<char>>) -> (
    Provision,
    ProvisionActionView,
) {
    if listing.len() == 0 {
        finished(Err(ProvisionError::NoModelsAvailable))
    } else if alive_among(listing) {
        finished(Ok(()))
    } else {
        (
            Provision::Introspecting,
            ProvisionActionView::Introspect(base_among(cfg.desired_model, listing)),
        )
    }
}

/// What follows the definition of the base model.
pub open spec fn after_definition(cfg: BritneyView, definition: Seq<char>) -> (
    Provision,
    ProvisionActionView,
) {
    match derived_definition(definition, behavior_text(cfg.it.raw)) {
        Some(derived) => (
            Provision::Persisting,
            ProvisionActionView::Persist { path: cfg.modelfile_path, definition: derived },
        ),
        None => finished(Err(ProvisionError::SubstitutionFailed)),
    }
}

/// The request to build the derived model.
pub open spec fn build_request(cfg: BritneyView) -> ProvisionActionView {
    ProvisionActionView::Build { name: MODEL_NAME@, path: cfg.modelfile_path }
}

/// One step of provisioning: the state after `event` and what the caller
/// is to do. An event that the state does not wait for changes nothing.
pub open spec fn check_step(cfg: BritneyView, state: Provision, event: ProvisionEventView) -> (
    Provision,
    ProvisionActionView,
) {
    match (state, event) {
        (Provision::Idle, ProvisionEventView::Started) => (
            Provision::Listing,
            ProvisionActionView::ListModels,
        ),
        (Provision::Listing, ProvisionEventView::Listed(listing)) => after_listing(cfg, listing),
        (Provision::Listing, ProvisionEventView::Unreachable) => finished(
            Err(ProvisionError::RuntimeUnreachable),
        ),
        (Provision::Introspecting, ProvisionEventView::Introspected(definition)) => {
            after_definition(cfg, definition)
        },
        (Provision::Introspecting, ProvisionEventView::NotIntrospected) => finished(
            Err(ProvisionError::IntrospectionFailed),
        ),
        (Provision::Persisting, ProvisionEventView::Persisted) => (
            Provision::Building,
            build_request(cfg),
        ),
        (Provision::Persisting, ProvisionEventView::NotPersisted) => finished(
            Err(ProvisionError::PersistFailed),
        ),
        (Provision::Building, ProvisionEventView::Progress(message)) => (
            Provision::Building,
            ProvisionActionView::Report(message + LINE_END@),
        ),
        (Provision::Building, ProvisionEventView::Built) => finished(Ok(())),
        (Provision::Building, ProvisionEventView::NotBuilt) => finished(
            Err(ProvisionError::BuildFailed),
        ),
        _ => (state, ProvisionActionView::Wait),
    }
}

/// The actions that `events` bring about, one for each, from `state` on.
pub open spec fn actions_of(cfg: BritneyView, state: Provision, events: Seq<ProvisionEventView>)
    -> Seq<ProvisionActionView>
    decreases events.len(),
{
    if events.len() == 0 {
        Seq::empty()
    } else {
        let (next, action) = check_step(cfg, state, events.first());
        seq![action] + actions_of(cfg, next, events.drop_first())
    }
}

/// The action touches the runtime's models or the definition file.
pub open spec fn provisions(action: ProvisionActionView) -> bool {
    action is Introspect || action is Persist || action is Build
}

/// Once provisioning has ended, nothing more is asked of the caller.
pub proof fn lemma_finished_is_final(cfg: BritneyView, events: Seq<ProvisionEventView>)
    ensures
        actions_of(cfg, Provision::Finished, events).len() == events.len(),
        forall|i: int|
            0 <= i < events.len() ==> #[trigger] actions_of(cfg, Provision::Finished, events)[i]
                == ProvisionActionView::Wait,
    decreases events.len(),
{
    if events.len() > 0 {
        lemma_finished_is_final(cfg, events.drop_first());
    }
}

/// A runtime without any model ends provisioning at once: the failure is
/// reported, and no definition is read or written and nothing is built,
/// whatever is reported afterwards.
pub proof fn lemma_no_models_nothing_written(cfg: BritneyView, later: Seq<ProvisionEventView>)
    ensures
        check_step(cfg, Provision::Listing, ProvisionEventView::Listed(Seq::empty())) == finished(
            Err(ProvisionError::NoModelsAvailable),
        ),
        forall|i: int|
            0 <= i < later.len() + 1 ==> !provisions(
                #[trigger] actions_of(
                    cfg,
                    Provision::Listing,
                    seq![ProvisionEventView::Listed(Seq::empty())] + later,
                )[i],
            ),
{
    let events = seq![ProvisionEventView::Listed(Seq::<Seq<char>>::empty())] + later;
    assert(events.drop_first() =~= later);
    lemma_finished_is_final(cfg, later);
}

/// Where the derived model is listed, provisioning ends in success at once
/// and never reads a definition, writes one or builds.
pub proof fn lemma_alive_builds_nothing(
    cfg: BritneyView,
    listing: Seq<Seq<char>>,
    later: Seq<ProvisionEventView>,
)
    requires
        alive_among(listing),
    ensures
        check_step(cfg, Provision::Listing, ProvisionEventView::Listed(listing)) == finished(
            Ok(()),
        ),
        forall|i: int|
            0 <= i < later.len() + 1 ==> !provisions(
                #[trigger] actions_of(
                    cfg,
                    Provision::Listing,
                    seq![ProvisionEventView::Listed(listing)] + later,
                )[i],
            ),
{
    let events = seq![ProvisionEventView::Listed(listing)] + later;
    assert(events.drop_first() =~= later);
    lemma_finished_is_final(cfg, later);
}

/// The model name contains itself.
pub proof fn lemma_model_name_is_alive()
    ensures
        contains(MODEL_NAME@, MODEL_NAME@),
{
    assert(MODEL_NAME@.subrange(0, MODEL_NAME@.len() as int) =~= MODEL_NAME@);
}

/// What the runtime lists after a run of the provisioner that ended in
/// success on `listing`, when nothing else changed its models: the same
/// models, and the derived model if the run had to build it.
pub open spec fn listing_after_success(listing: Seq<Seq<char>>) -> Seq<Seq<char>> {
    if alive_among(listing) {
        listing
    } else {
        listing.push(MODEL_NAME@)
    }
}

/// Provisioning is idempotent: after a run that ended in success, with no
/// other change to the runtime's models, the next run ends in success at
/// once and builds nothing.
pub proof fn lemma_check_is_idempotent(
    cfg: BritneyView,
    listing: Seq<Seq<char>>,
    later: Seq<ProvisionEventView>,
)
    ensures
        alive_among(listing_after_success(listing)),
        check_step(
            cfg,
            Provision::Listing,
            ProvisionEventView::Listed(listing_after_success(listing)),
        ) == finished(Ok(())),
        forall|i: int|
            0 <= i < later.len() + 1 ==> !provisions(
                #[trigger] actions_of(
                    cfg,
                    Provision::Listing,
                    seq![ProvisionEventView::Listed(listing_after_success(listing))] + later,
                )[i],
            ),
{
    let next = listing_after_success(listing);
    if !alive_among(listing) {
        lemma_model_name_is_alive();
        assert(next[listing.len() as int] == MODEL_NAME@);
    }
    lemma_alive_builds_nothing(cfg, next, later);
}

impl Britney {
    /// Whether one of `models` is the derived model.
    pub fn alive(&self, models: &Vec<ModelDescriptor>) -> (found: bool)
        ensures
            found == alive_among(names(models@)),
    {
        let mut i: usize = 0;
        while i < models.len()
            invariant
                i <= models@.len(),
                forall|j: int| 0 <= j < i ==> !contains(#[trigger] names(models@)[j], MODEL_NAME@),
            decreases models@.len() - i,
        {
            if has(models[i].name.as_str(), MODEL_NAME) {
                assert(contains(names(models@)[i as int], MODEL_NAME@));
                return true;
            }
            i = i + 1;
        }
        false
    }

    /// The base model to derive from: the one the operator asked for, else
    /// the first of `models`.
    pub fn model_choice(&self, models: &Vec<ModelDescriptor>) -> (choice: String)
        requires
            models@.len() > 0,
        ensures
            choice@ == base_among(self@.desired_model, names(models@)),
    {
        match &self.desired_model {
            Some(name) => name.clone(),
            None => models[0].name.clone(),
        }
    }

    /// The definition of the derived model, from the definition of the
    /// base model: its system line gives way to the system content built
    /// on the template. A definition without that line is refused.
    pub fn create_modelfile(&self, definition: &str) -> (derived: Result<String, ProvisionError>)
        ensures
            match derived_definition(definition@, behavior_text(self@.it.raw)) {
                Some(text) => derived matches Ok(d) && d@ == text,
                None => derived == Err::<String, ProvisionError>(
                    ProvisionError::SubstitutionFailed,
                ),
            },
    {
        if has(definition, DEFAULT_SYSTEM_LINE) {
            let content = self.behavior(self.it.raw.clone());
            Ok(replace(definition, DEFAULT_SYSTEM_LINE, content.as_str()))
        } else {
            Err(ProvisionError::SubstitutionFailed)
        }
    }

    /// The request to build the derived model from the definition file.
    pub fn spawn(&self) -> (action: ProvisionAction)
        ensures
            action@ == build_request(self@),
    {
        ProvisionAction::Build { name: MODEL_NAME.to_owned(), path: self.modelfile_path.clone() }
    }

    /// One step of provisioning: takes what the caller reports in `state`
    /// and gives the next state and what the caller is to do.
    pub fn check(&self, state: Provision, event: ProvisionEvent) -> (next: (
        Provision,
        ProvisionAction,
    ))
        ensures
            next.0 == check_step(self@, state, event@).0,
            next.1@ == check_step(self@, state, event@).1,
    {
        match state {
            Provision::Idle => match event {
                ProvisionEvent::Started => (Provision::Listing, ProvisionAction::ListModels),
                _ => (state, ProvisionAction::Wait),
            },
            Provision::Listing => match event {
                ProvisionEvent::Listed(models) => {
                    if models.len() == 0 {
                        (
                            Provision::Finished,
                            ProvisionAction::Finish(Err(ProvisionError::NoModelsAvailable)),
                        )
                    } else if self.alive(&models) {
                        (Provision::Finished, ProvisionAction::Finish(Ok(())))
                    } else {
                        let base = self.model_choice(&models);
                        (Provision::Introspecting, ProvisionAction::Introspect(base))
                    }
                },
                ProvisionEvent::Unreachable => (
                    Provision::Finished,
                    ProvisionAction::Finish(Err(ProvisionError::RuntimeUnreachable)),
                ),
                _ => (state, ProvisionAction::Wait),
            },
            Provision::Introspecting => match event {
                ProvisionEvent::Introspected(definition) => {
                    match self.create_modelfile(definition.as_str()) {
                        Ok(derived) => (
                            Provision::Persisting,
                            ProvisionAction::Persist {
                                path: self.modelfile_path.clone(),
                                definition: derived,
                            },
                        ),
                        Err(e) => (Provision::Finished, ProvisionAction::Finish(Err(e))),
                    }
                },
                ProvisionEvent::NotIntrospected => (
                    Provision::Finished,
                    ProvisionAction::Finish(Err(ProvisionError::IntrospectionFailed)),
                ),
                _ => (state, ProvisionAction::Wait),
            },
            Provision::Persisting => match event {
                ProvisionEvent::Persisted => (Provision::Building, self.spawn()),
                ProvisionEvent::NotPersisted => (
                    Provision::Finished,
                    ProvisionAction::Finish(Err(ProvisionError::PersistFailed)),
                ),
                _ => (state, ProvisionAction::Wait),
            },
            Provision::Building => match event {
                ProvisionEvent::Progress(message) => {
                    let mut line = message;
                    line.append(LINE_END);
                    (Provision::Building, ProvisionAction::Report(line))
                },
                ProvisionEvent::Built => (Provision::Finished, ProvisionAction::Finish(Ok(()))),
                ProvisionEvent::NotBuilt => (
                    Provision::Finished,
                    ProvisionAction::Finish(Err(ProvisionError::BuildFailed)),
                ),
                _ => (state, ProvisionAction::Wait),
            },
            Provision::Finished => (state, ProvisionAction::Wait),
        }
    }
}

} // verus!
