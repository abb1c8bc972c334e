//! The check of one deployment as a machine: it names the file it needs,
//! is handed what the fetch gave, and ends in a verdict or a transport
//! error. The caller fetches; nothing here waits.

use crate::check::{
    check_content, check_plan, content_fault, manifest_steps, FileKind, Step, StepView,
};
use crate::cid::Cid;
use crate::manifest::{Manifest, ManifestView};
use crate::validity::{
    CheckError, CheckErrorView, Invalid, InvalidView, IpfsError, IpfsErrorView, Valid, ValidView,
};
use vstd::prelude::*;

verus! {

/// What became of the deployment's manifest: it was fetched and parsed,
/// fetched and refused by the parser, or not fetched.
#[derive(Debug, Clone, PartialEq, Eq)]
pub enum ManifestEvent {
    Parsed(Manifest),
    Unparsable(String),
    Unfetched(IpfsError),
}

/// The mathematical value of a [`ManifestEvent`].
pub enum ManifestEventView {
    Parsed(ManifestView),
    Unparsable(Seq<char>),
    Unfetched(IpfsErrorView),
}

impl DeepView for ManifestEvent {
    type V = ManifestEventView;

    open spec fn deep_view(&self) -> ManifestEventView {
        match self {
            ManifestEvent::Parsed(manifest) => ManifestEventView::Parsed(manifest.deep_view()),
            ManifestEvent::Unparsable(cause) => ManifestEventView::Unparsable(cause@),
            ManifestEvent::Unfetched(e) => ManifestEventView::Unfetched(e@),
        }
    }
}

/// What the caller is to do next.
#[derive(Debug, Clone, PartialEq, Eq)]
pub enum Action {
    /// Fetch this file and hand the outcome to [`Validator::step`].
    Fetch(Cid),
    /// The validation is done, with this verdict.
    Finish(Valid),
    /// A transport error stopped the validation; the cycle ends with it.
    Abort(String),
}

/// The mathematical value of an [`Action`].
pub enum ActionView {
    Fetch(Seq<u8>),
    Finish(ValidView),
    Abort(Seq<char>),
}

impl DeepView for Action {
    type V = ActionView;

    open spec fn deep_view(&self) -> ActionView {
        match self {
            Action::Fetch(cid) => ActionView::Fetch(cid@),
            Action::Finish(verdict) => ActionView::Finish(verdict@),
            Action::Abort(cause) => ActionView::Abort(cause@),
        }
    }
}

/// The outcome of a fetch, as a mathematical value.
pub open spec fn fetched_view(fetched: Result<Vec<u8>, IpfsError>) -> Result<
    Seq<u8>,
    IpfsErrorView,
> {
    match fetched {
        Ok(file) => Ok(file@),
        Err(e) => Err(e@),
    }
}

/// What ends the check at a file: the fetch failed, or the file is not
/// what its kind asks for.
pub open spec fn file_fault(kind: FileKind, fetched: Result<Seq<u8>, IpfsErrorView>) -> Option<
    CheckErrorView,
> {
    match fetched {
        Err(e) => Some(e.classify()),
        Ok(file) => match content_fault(kind, file) {
            Some(reason) => Some(CheckErrorView::Invalid(reason)),
            None => None,
        },
    }
}

/// The step that stands for an early end.
pub open spec fn halt(e: CheckErrorView) -> StepView {
    match e {
        CheckErrorView::Invalid(reason) => StepView::Fail(reason),
        CheckErrorView::Other(cause) => StepView::Abort(cause),
    }
}

/// The steps with which the check begins, given what became of the
/// manifest.
pub open spec fn first_steps(
    manifest: ManifestEventView,
    supported_networks: Seq<Seq<char>>,
    supported_ds_kinds: Seq<Seq<char>>,
) -> Seq<StepView> {
    match manifest {
        ManifestEventView::Parsed(m) => manifest_steps(m, supported_networks, supported_ds_kinds),
        ManifestEventView::Unparsable(cause) => seq![
            StepView::Fail(InvalidView::ManifestParseError(cause)),
        ],
        ManifestEventView::Unfetched(e) => seq![halt(e.classify())],
    }
}

/// What the steps still to do ask of the caller.
pub open spec fn next_action(pending: Seq<StepView>) -> ActionView {
    if pending.len() == 0 {
        ActionView::Finish(ValidView::Yes)
    } else {
        match pending[0] {
            StepView::Fetch(cid, _) => ActionView::Fetch(cid),
            StepView::Fail(reason) => ActionView::Finish(ValidView::No(reason)),
            StepView::Abort(cause) => ActionView::Abort(cause),
        }
    }
}

/// The steps still to do once the awaited file has come. A file that
/// passes leaves the rest; one that does not leaves the end alone. Where no
/// file is awaited nothing changes.
pub open spec fn after_file(pending: Seq<StepView>, fetched: Result<Seq<u8>, IpfsErrorView>) -> Seq<
    StepView,
> {
    if pending.len() > 0 {
        match pending[0] {
            StepView::Fetch(_, kind) => match file_fault(kind, fetched) {
                Some(e) => seq![halt(e)],
                None => pending.skip(1),
            },
            _ => pending,
        }
    } else {
        pending
    }
}

/// Checks what a fetch gave against the kind of file that was asked for.
pub fn check_file(kind: FileKind, fetched: Result<Vec<u8>, IpfsError>) -> (r: Result<
    (),
    CheckError,
>)
    ensures
        match r {
            Ok(_) => file_fault(kind, fetched_view(fetched)) is None,
            Err(e) => file_fault(kind, fetched_view(fetched)) == Some(e@),
        },
{
    match fetched {
        Err(e) => Err(CheckError::from(e)),
        Ok(file) => match check_content(kind, file) {
            Ok(_) => Ok(()),
            Err(reason) => Err(CheckError::from(reason)),
        },
    }
}

/// The check of one deployment in progress.
#[derive(Debug)]
pub struct Validator {
    steps: Vec<Step>,
    next: usize,
}

impl View for Validator {
    type V = Seq<StepView>;

    /// The steps still to do, the next one first.
    closed spec fn view(&self) -> Seq<StepView> {
        if self.next <= self.steps.len() {
            self.steps.deep_view().skip(self.next as int)
        } else {
            seq![]
        }
    }
}

impl Validator {
    /// Begins the validation with what became of the deployment's manifest.
    pub fn start(
        manifest: ManifestEvent,
        supported_networks: &Vec<String>,
        supported_ds_kinds: &Vec<String>,
    ) -> (r: Validator)
        ensures
            r@ == first_steps(
                manifest.deep_view(),
                supported_networks.deep_view(),
                supported_ds_kinds.deep_view(),
            ),
    {
        let steps = match manifest {
            ManifestEvent::Parsed(m) => check_plan(&m, supported_networks, supported_ds_kinds),
            ManifestEvent::Unparsable(cause) => vec![Step::Fail(Invalid::ManifestParseError(cause))],
            ManifestEvent::Unfetched(e) => vec![halt_step(CheckError::from(e))],
        };
        Validator { steps, next: 0 }
    }

    /// What the caller is to do next.
    pub fn action(&self) -> (r: Action)
        ensures
            r.deep_view() == next_action(self@),
    {
        if self.next < self.steps.len() {
            match &self.steps[self.next] {
                Step::Fetch(cid, _) => Action::Fetch(cid.clone()),
                Step::Fail(reason) => Action::Finish(Valid::No(reason.clone())),
                Step::Abort(cause) => Action::Abort(cause.clone()),
            }
        } else {
            Action::Finish(Valid::Yes)
        }
    }

    /// Takes the outcome of the fetch that [`Validator::action`] asked for.
    pub fn step(self, fetched: Result<Vec<u8>, IpfsError>) -> (r: Validator)
        ensures
            r@ == after_file(self@, fetched_view(fetched)),
    {
        if self.next >= self.steps.len() {
            return self;
        }
        let awaited = match &self.steps[self.next] {
            Step::Fetch(_, kind) => Some(*kind),
            _ => None,
        };
        match awaited {
            None => self,
            Some(kind) => match check_file(kind, fetched) {
                Ok(_) => Validator { steps: self.steps, next: self.next + 1 },
                Err(e) => Validator { steps: vec![halt_step(e)], next: 0 },
            },
        }
    }
}

/// The step that stands for an early end.
fn halt_step(e: CheckError) -> (r: Step)
    ensures
        r.deep_view() == halt(e@),
{
    match e {
        CheckError::Invalid(reason) => Step::Fail(reason),
        CheckError::Other(cause) => Step::Abort(cause),
    }
}

/// What ends the validation at a step, given what the file store holds:
/// nothing where the step's file is there and in order.
pub open spec fn step_fault(
    step: StepView,
    files: spec_fn(Seq<u8>) -> Result<Seq<u8>, IpfsErrorView>,
) -> Option<CheckErrorView> {
    match step {
        StepView::Fetch(cid, kind) => file_fault(kind, files(cid)),
        StepView::Fail(reason) => Some(CheckErrorView::Invalid(reason)),
        StepView::Abort(cause) => Some(CheckErrorView::Other(cause)),
    }
}

/// The outcome of the steps against a file store: what ends the first
/// step that does not pass, or success where all pass.
pub open spec fn verdict(
    steps: Seq<StepView>,
    files: spec_fn(Seq<u8>) -> Result<Seq<u8>, IpfsErrorView>,
) -> Result<(), CheckErrorView>
    decreases steps.len(),
{
    if steps.len() == 0 {
        Ok(())
    } else {
        match step_fault(steps[0], files) {
            Some(e) => Err(e),
            None => verdict(steps.skip(1), files),
        }
    }
}

/// The action that reports an outcome.
pub open spec fn report(outcome: Result<(), CheckErrorView>) -> ActionView {
    match outcome {
        Ok(_) => ActionView::Finish(ValidView::Yes),
        Err(CheckErrorView::Invalid(reason)) => ActionView::Finish(ValidView::No(reason)),
        Err(CheckErrorView::Other(cause)) => ActionView::Abort(cause),
    }
}

/// One if a file is awaited, else zero.
pub open spec fn awaiting(pending: Seq<StepView>) -> nat {
    if pending.len() > 0 && pending[0] is Fetch {
        1
    } else {
        0
    }
}

/// The action on which the machine comes to rest when every file it asks
/// for is answered from the file store.
pub open spec fn comes_to_rest(
    pending: Seq<StepView>,
    files: spec_fn(Seq<u8>) -> Result<Seq<u8>, IpfsErrorView>,
) -> ActionView
    decreases pending.len(), awaiting(pending),
{
    match next_action(pending) {
        ActionView::Fetch(cid) => comes_to_rest(after_file(pending, files(cid)), files),
        done => done,
    }
}

/// Driven against a file store, the machine ends in the report of the
/// steps' outcome: the verdict of invalidity or the transport error of the
/// first step that does not pass, and a verdict of validity where all pass.
pub proof fn lemma_run_reports_verdict(
    pending: Seq<StepView>,
    files: spec_fn(Seq<u8>) -> Result<Seq<u8>, IpfsErrorView>,
)
    ensures
        comes_to_rest(pending, files) == report(verdict(pending, files)),
    decreases pending.len(), awaiting(pending),
{
    if pending.len() > 0 {
        match pending[0] {
            StepView::Fetch(cid, _) => {
                lemma_run_reports_verdict(after_file(pending, files(cid)), files);
            },
            _ => {},
        }
    }
}

/// The outcome is that of the first step that does not pass.
pub proof fn lemma_verdict_is_first_fault(
    steps: Seq<StepView>,
    files: spec_fn(Seq<u8>) -> Result<Seq<u8>, IpfsErrorView>,
    i: int,
)
    requires
        0 <= i < steps.len(),
        step_fault(steps[i], files) is Some,
        forall|j: int| 0 <= j < i ==> step_fault(#[trigger] steps[j], files) is None,
    ensures
        verdict(steps, files) == Err::<(), CheckErrorView>(step_fault(steps[i], files)->0),
    decreases i,
{
    if i > 0 {
        lemma_verdict_is_first_fault(steps.skip(1), files, i - 1);
    }
}

/// The deployment is valid exactly where every step passes.
pub proof fn lemma_valid_iff_all_pass(
    steps: Seq<StepView>,
    files: spec_fn(Seq<u8>) -> Result<Seq<u8>, IpfsErrorView>,
)
    ensures
        verdict(steps, files) is Ok <==> forall|j: int|
            0 <= j < steps.len() ==> step_fault(#[trigger] steps[j], files) is None,
    decreases steps.len(),
{
    if steps.len() > 0 {
        lemma_valid_iff_all_pass(steps.skip(1), files);
        if verdict(steps, files) is Ok {
            assert forall|j: int| 0 <= j < steps.len() implies step_fault(
                #[trigger] steps[j],
                files,
            ) is None by {
                if j > 0 {
                    assert(steps[j] == steps.skip(1)[j - 1]);
                }
            }
        }
    }
}

} // verus!
