//! The bridge session: the per-job state machine that the surrounding
//! application drives with the lines read from the worker's output stream.
//!
//! The application performs the outside work — spawning the process,
//! reading lines, emitting notifications, killing the worker — and hands
//! each line (with the current cancellation flag) to [`Session::step`],
//! then performs the returned action.  Every decision lives here and is
//! verified: what each line does to the accumulator, what is dispatched to
//! the event sink and in what order, and how the job concludes.

use vstd::prelude::*;
use crate::codec::{Decoded, DecodedModel, decode_line, diag_message, sp_decode, sp_diag};
use crate::events::{
    BridgeEvent, EventModel, JobOutcome, OutcomeModel, SyncResult, SyncResultModel, copy_results,
    results_model,
};
use vstd::string::StringSliceAdditionalSpecFns;

verus! {

/// Mathematical state of one session: the accumulated results and the
/// whole history of events dispatched to the event sink, in order.
pub struct SessionModel {
    pub results: Seq<SyncResultModel>,
    pub dispatched: Seq<EventModel>,
}

/// One running job: the result accumulator, plus the ghost history of
/// dispatched events that the ordering contracts speak about.
pub struct Session {
    results: Vec<SyncResult>,
    dispatched: Ghost<Seq<EventModel>>,
}

impl View for Session {
    type V = SessionModel;

    closed spec fn view(&self) -> SessionModel {
        SessionModel { results: results_model(self.results@), dispatched: self.dispatched@ }
    }
}

/// What the application must do after handing one line to the session.
pub enum StepAction {
    /// Cancellation was requested: kill the worker at once and conclude
    /// the job as canceled; the line is not processed.
    CancelNow,
    /// A blank line: nothing to do.
    Ignore,
    /// A malformed line: forward this diagnostic to the log channel.
    Diagnostic(Vec<u8>),
    /// A well-formed event: forward it to the event sink.
    Dispatch(BridgeEvent),
}

/// Mathematical view of a [`StepAction`].
pub enum ActionModel {
    CancelNow,
    Ignore,
    Diagnostic(Seq<u8>),
    Dispatch(EventModel),
}

impl View for StepAction {
    type V = ActionModel;

    open spec fn view(&self) -> ActionModel {
        match self {
            StepAction::CancelNow => ActionModel::CancelNow,
            StepAction::Ignore => ActionModel::Ignore,
            StepAction::Diagnostic(m) => ActionModel::Diagnostic(m@),
            StepAction::Dispatch(e) => ActionModel::Dispatch(e@),
        }
    }
}

/// State after one (uncancelled) line: blank and malformed lines change
/// nothing; a `ResultItem` is appended to the accumulator; a `Done`
/// replaces the accumulator wholesale; every event is appended to the
/// dispatch history.
pub open spec fn sp_step(s: SessionModel, line: Seq<u8>) -> SessionModel {
    match sp_decode(line) {
        DecodedModel::Blank => s,
        DecodedModel::Malformed => s,
        DecodedModel::Event(e) => SessionModel {
            dispatched: s.dispatched.push(e),
            results: match e {
                EventModel::ResultItem { result } => s.results.push(result),
                EventModel::Done { results } => results,
                _ => s.results,
            },
        },
    }
}

/// The action owed for one line under the given cancellation flag.
pub open spec fn sp_step_action(line: Seq<u8>, cancel: bool) -> ActionModel {
    if cancel {
        ActionModel::CancelNow
    } else {
        match sp_decode(line) {
            DecodedModel::Blank => ActionModel::Ignore,
            DecodedModel::Malformed => ActionModel::Diagnostic(sp_diag(line)),
            DecodedModel::Event(e) => ActionModel::Dispatch(e),
        }
    }
}

/// State after a whole sequence of (uncancelled) lines, first line first.
pub open spec fn sp_run(s: SessionModel, lines: Seq<Seq<u8>>) -> SessionModel
    decreases lines.len(),
{
    if lines.len() == 0 {
        s
    } else {
        sp_run(sp_step(s, lines[0]), lines.drop_first())
    }
}

/// The decodable events among a sequence of lines, in line order.
pub open spec fn sp_events_of(lines: Seq<Seq<u8>>) -> Seq<EventModel>
    decreases lines.len(),
{
    if lines.len() == 0 {
        Seq::empty()
    } else {
        (match sp_decode(lines[0]) {
            DecodedModel::Event(e) => seq![e],
            _ => Seq::empty(),
        }) + sp_events_of(lines.drop_first())
    }
}

/// The results carried by `ResultItem` events, in event order.
pub open spec fn sp_results_of(evs: Seq<EventModel>) -> Seq<SyncResultModel>
    decreases evs.len(),
{
    if evs.len() == 0 {
        Seq::empty()
    } else {
        (match evs[0] {
            EventModel::ResultItem { result } => seq![result],
            _ => Seq::empty(),
        }) + sp_results_of(evs.drop_first())
    }
}

/// Whether no event of `evs` is a `Done`.
pub open spec fn sp_no_done(evs: Seq<EventModel>) -> bool {
    forall|i: int| 0 <= i < evs.len() ==> !(#[trigger] evs[i] is Done)
}

impl Session {
    /// A fresh session with an empty accumulator and an empty dispatch
    /// history.
    pub fn new() -> (s: Session)
        ensures
            s@.results == Seq::<SyncResultModel>::empty(),
            s@.dispatched == Seq::<EventModel>::empty(),
    {
        let s = Session { results: Vec::new(), dispatched: Ghost(Seq::empty()) };
        proof {
            assert(results_model(s.results@) =~= Seq::<SyncResultModel>::empty());
        }
        s
    }

    /// Process one line read from the worker's output stream.
    ///
    /// The cancellation flag is sampled before the line is processed: when
    /// it is set the line has no effect and the application must kill the
    /// worker and conclude the job as canceled.  Otherwise the returned
    /// action is exactly what the decoded line owes the application, and
    /// the session state advances by exactly one spec-level step.
    pub fn step(&mut self, cancel_requested: bool, line: &Vec<u8>) -> (a: StepAction)
        ensures
            a@ == sp_step_action(line@, cancel_requested),
            cancel_requested ==> final(self)@ == old(self)@,
            !cancel_requested ==> final(self)@ == sp_step(old(self)@, line@),
    {
        if cancel_requested {
            return StepAction::CancelNow;
        }
        let d = decode_line(line);
        match d {
            Decoded::Blank => StepAction::Ignore,
            Decoded::Malformed => StepAction::Diagnostic(diag_message(line)),
            Decoded::Event(e) => {
                proof {
                    self.dispatched@ = self.dispatched@.push(e@);
                }
                match &e {
                    BridgeEvent::ResultItem { result } => {
                        let ghost before = self.results@;
                        let dup = result.duplicate();
                        self.results.push(dup);
                        proof {
                            assert(results_model(self.results@) =~= results_model(before).push(
                                result@,
                            ));
                        }
                    },
                    BridgeEvent::Done { results } => {
                        self.results = copy_results(results);
                    },
                    _ => {},
                }
                StepAction::Dispatch(e)
            },
        }
    }

    /// Conclude a job whose output stream reached end-of-file: a zero exit
    /// reports the accumulated results, a nonzero exit reports one generic
    /// job-level failure (the worker's own stderr lines, already forwarded,
    /// are the detail).
    pub fn finish(self, exit_ok: bool) -> (o: JobOutcome)
        ensures
            exit_ok ==> o@ == OutcomeModel::Succeeded(self@.results),
            !exit_ok ==> o@ == OutcomeModel::Failed("Sync process failed".spec_bytes()),
    {
        if exit_ok {
            JobOutcome::Succeeded(self.results)
        } else {
            JobOutcome::Failed(crate::codec::lit_vec("Sync process failed"))
        }
    }

    /// Conclude a job that was cancelled mid-flight: a distinct outcome,
    /// never conflated with failure, and carrying no results.
    pub fn into_canceled(self) -> (o: JobOutcome)
        ensures
            o@ == OutcomeModel::Canceled,
    {
        JobOutcome::Canceled
    }
}

/// Model of a list of step actions, action by action.
pub open spec fn actions_model(acts: Seq<StepAction>) -> Seq<ActionModel> {
    Seq::new(acts.len(), |i: int| acts[i]@)
}

impl Session {
    /// Drive the session over a whole batch of lines with no cancellation
    /// request, returning the owed actions in line order.  The state ends
    /// exactly at the spec-level run, so the batch laws below apply to
    /// this call directly.
    #[verifier::rlimit(60)]
    pub fn process_lines(&mut self, lines: &Vec<Vec<u8>>) -> (acts: Vec<StepAction>)
        ensures
            final(self)@ == sp_run(old(self)@, crate::events::bytes_model(lines@)),
            actions_model(acts@) == Seq::new(
                lines@.len() as nat,
                |i: int| sp_step_action(lines@[i]@, false),
            ),
    {
        let ghost lm = crate::events::bytes_model(lines@);
        let ghost s0 = self@;
        let mut acts: Vec<StepAction> = Vec::new();
        let mut i: usize = 0;
        while i < lines.len()
            invariant
                i <= lines.len(),
                lm == crate::events::bytes_model(lines@),
                lm.len() == lines@.len(),
                self@ == sp_run(s0, lm.subrange(0, i as int)),
                acts@.len() == i,
                forall|k: int| 0 <= k < i ==> (#[trigger] acts@[k])@ == sp_step_action(
                    lines@[k]@,
                    false,
                ),
            decreases lines.len() - i,
        {
            let a = self.step(false, &lines[i]);
            acts.push(a);
            proof {
                assert(lm.subrange(0, i as int).push(lm[i as int]) =~= lm.subrange(
                    0,
                    i + 1 as int,
                ));
                lemma_run_snoc(s0, lm.subrange(0, i as int), lm[i as int]);
            }
            i = i + 1;
        }
        proof {
            assert(lm.subrange(0, lines@.len() as int) =~= lm);
            assert(actions_model(acts@) =~= Seq::new(
                lines@.len() as nat,
                |k: int| sp_step_action(lines@[k]@, false),
            ));
        }
        acts
    }
}

/// A job concludes in exactly one of the three outcomes: a result list,
/// a tagged failure, or cancellation — never more than one, never none.
pub proof fn lemma_outcome_exclusive(o: OutcomeModel)
    ensures
        (o is Succeeded || o is Failed || o is Canceled),
        o is Succeeded ==> !(o is Failed) && !(o is Canceled),
        o is Failed ==> !(o is Succeeded) && !(o is Canceled),
        o is Canceled ==> !(o is Succeeded) && !(o is Failed),
{
}

/// Running a session over `lines` dispatches exactly the decodable events
/// among them, appended to the history in line order: malformed and blank
/// lines are skipped but never reorder the rest.
pub proof fn lemma_dispatch_order(s: SessionModel, lines: Seq<Seq<u8>>)
    ensures
        sp_run(s, lines).dispatched == s.dispatched + sp_events_of(lines),
    decreases lines.len(),
{
    if lines.len() == 0 {
        assert(s.dispatched + sp_events_of(lines) =~= s.dispatched);
    } else {
        let s1 = sp_step(s, lines[0]);
        lemma_dispatch_order(s1, lines.drop_first());
        assert(s1.dispatched + sp_events_of(lines.drop_first()) =~= s.dispatched + sp_events_of(
            lines,
        ));
    }
}

/// Appending one more line to a run is one more step.
pub proof fn lemma_run_snoc(s: SessionModel, lines: Seq<Seq<u8>>, last: Seq<u8>)
    ensures
        sp_run(s, lines.push(last)) == sp_step(sp_run(s, lines), last),
    decreases lines.len(),
{
    let ext = lines.push(last);
    if lines.len() == 0 {
        assert(ext[0] == last);
        assert(ext.drop_first() =~= lines);
        assert(sp_run(s, ext) == sp_run(sp_step(s, last), lines));
        assert(sp_run(sp_step(s, last), lines) == sp_step(s, last));
        assert(sp_run(s, lines) == s);
    } else {
        assert(ext[0] == lines[0]);
        assert(ext.drop_first() =~= lines.drop_first().push(last));
        let s1 = sp_step(s, lines[0]);
        assert(sp_run(s, ext) == sp_run(s1, ext.drop_first()));
        lemma_run_snoc(s1, lines.drop_first(), last);
        assert(sp_run(s1, lines.drop_first().push(last)) == sp_step(
            sp_run(s1, lines.drop_first()),
            last,
        ));
        assert(sp_run(s, lines) == sp_run(s1, lines.drop_first()));
    }
}

/// When a `Done` line arrives, the accumulator becomes exactly the list it
/// carries, whatever `ResultItem` events came before: the override is
/// authoritative.
pub proof fn lemma_done_overrides(
    s: SessionModel,
    lines: Seq<Seq<u8>>,
    dline: Seq<u8>,
    rs: Seq<SyncResultModel>,
)
    requires
        sp_decode(dline) == DecodedModel::Event(EventModel::Done { results: rs }),
    ensures
        sp_run(s, lines.push(dline)).results == rs,
{
    lemma_run_snoc(s, lines, dline);
}

/// When no line of a run decodes to a `Done` event, the final accumulator
/// is the ordered accumulation of every `ResultItem` event received.
pub proof fn lemma_no_done_accumulates(s: SessionModel, lines: Seq<Seq<u8>>)
    requires
        sp_no_done(sp_events_of(lines)),
    ensures
        sp_run(s, lines).results == s.results + sp_results_of(sp_events_of(lines)),
    decreases lines.len(),
{
    if lines.len() == 0 {
        assert(s.results + sp_results_of(sp_events_of(lines)) =~= s.results);
    } else {
        let evs = sp_events_of(lines);
        let s1 = sp_step(s, lines[0]);
        assert forall|i: int| 0 <= i < sp_events_of(lines.drop_first()).len() implies !(
        #[trigger] sp_events_of(lines.drop_first())[i] is Done) by {
            match sp_decode(lines[0]) {
                DecodedModel::Event(e) => {
                    assert(evs[i + 1] == sp_events_of(lines.drop_first())[i]);
                },
                _ => {
                    assert(evs[i] == sp_events_of(lines.drop_first())[i]);
                },
            }
        }
        lemma_no_done_accumulates(s1, lines.drop_first());
        match sp_decode(lines[0]) {
            DecodedModel::Event(e) => {
                assert(evs[0] == e);
                assert(!(e is Done));
                assert(sp_events_of(lines).drop_first() =~= sp_events_of(lines.drop_first()));
                match e {
                    EventModel::ResultItem { result } => {
                        assert(s1.results =~= s.results.push(result));
                        assert(s.results.push(result) + sp_results_of(
                            sp_events_of(lines.drop_first()),
                        ) =~= s.results + sp_results_of(evs));
                    },
                    _ => {
                        assert(sp_results_of(evs) =~= sp_results_of(
                            sp_events_of(lines.drop_first()),
                        ));
                    },
                }
            },
            _ => {
                assert(sp_events_of(lines) =~= sp_events_of(lines.drop_first()));
            },
        }
    }
}

} // verus!
