use vstd::prelude::*;
use crate::error::OcrError;
use crate::extract::{
    ExtractedData, OcrProcessor, OcrSource, FieldsView, fields_of, fields_with_crops, opt_text,
    CONFIDENCE_MAX,
};
use crate::text::chars_of;

verus! {

/// The engine a caller asks for.
#[derive(PartialEq, Eq, Structural, Clone, Copy, Debug)]
pub enum EngineChoice {
    /// The local engine alone.
    Local,
    /// The cloud engine alone.
    Cloud,
    /// The local engine, and the cloud engine when the local result falls short.
    Hybrid,
}

/// The confidence given to cloud results, in percent: the service reports none.
pub const CLOUD_CONFIDENCE: u32 = 90;

/// A local result is kept only above this confidence, in percent.
pub const LOCAL_CONFIDENCE_MIN: u32 = 70;

/// The local engine's mean confidence, reported on 0..=100, held to that range.
pub open spec fn confidence_of(raw: i32) -> nat {
    if raw < 0 {
        0
    } else if raw > 100 {
        100
    } else {
        raw as nat
    }
}

pub fn normalize_confidence(raw: i32) -> (r: u32)
    ensures
        r == confidence_of(raw),
        r <= CONFIDENCE_MAX,
{
    if raw < 0 {
        0
    } else if raw > 100 {
        100
    } else {
        raw as u32
    }
}

/// The decision rule: a local result stands when its confidence is above the minimum
/// and both the total and the merchant were found.
pub open spec fn accepts_local(confidence: nat, fields: FieldsView) -> bool {
    confidence > LOCAL_CONFIDENCE_MIN && fields.0 is Some && fields.2 is Some
}

/// What the local engine read from one image: the text of the whole processed image, of
/// its bottom and top crops where recognized, and the engine's mean confidence on 0..=100.
pub struct LocalReading {
    pub full_text: String,
    pub bottom_text: Option<String>,
    pub top_text: Option<String>,
    pub mean_confidence: i32,
}

impl LocalReading {
    pub open spec fn fields(&self) -> FieldsView {
        fields_with_crops(self.full_text@, opt_text(self.bottom_text), opt_text(self.top_text))
    }

    pub open spec fn accepted(&self) -> bool {
        accepts_local(confidence_of(self.mean_confidence), self.fields())
    }
}

/// The result of processing one image.
pub struct OcrResult {
    pub text: String,
    pub extracted_data: ExtractedData,
    pub confidence: u32,
    pub processing_time_ms: u64,
    pub engine_used: OcrSource,
}

impl OcrResult {
    /// The confidence lies in 0..=100 percent and agrees with the extracted data.
    pub open spec fn wf(&self) -> bool {
        &&& self.confidence <= CONFIDENCE_MAX
        &&& self.extracted_data.wf()
        &&& self.extracted_data.confidence == self.confidence
        &&& self.extracted_data.source == self.engine_used
    }

    /// The same result with the time it took.
    pub fn with_processing_time(self, ms: u64) -> (r: OcrResult)
        ensures
            r.processing_time_ms == ms,
            r.text == self.text,
            r.extracted_data == self.extracted_data,
            r.confidence == self.confidence,
            r.engine_used == self.engine_used,
    {
        OcrResult { processing_time_ms: ms, ..self }
    }
}

/// Where the processing of one image stands.
#[derive(PartialEq, Eq, Structural, Clone, Copy, Debug)]
pub enum Phase {
    /// Nothing has been run.
    Init,
    /// The local engine was asked to read the image.
    AwaitingLocal,
    /// The cloud engine was asked to read the image.
    AwaitingCloud,
    /// The result is final.
    Resolved,
}

/// What the caller is to do next.
pub enum Action {
    /// Preprocess the image and run the local engine on it and on its crops.
    RunLocal,
    /// Send the unprocessed image to the cloud engine.
    RunCloud,
    /// Processing is over, with this result.
    Finish(Result<OcrResult, OcrError>),
}

/// The kinds of what happens to the orchestrator.
pub enum EventKind {
    Start,
    LocalDone { failed: bool, accepted: bool },
    CloudDone,
}

/// The kinds of what the orchestrator asks for; `Idle` answers an event it did not expect.
#[derive(PartialEq, Eq, Structural, Clone, Copy, Debug)]
pub enum ActionKind {
    RunLocal,
    RunCloud,
    Finish,
    Idle,
}

/// The orchestrator's state: phase, engine, whether the cloud is configured, cloud calls made.
pub type MachineView = (Phase, EngineChoice, bool, nat);

pub open spec fn kind_of(a: &Action) -> ActionKind {
    match a {
        Action::RunLocal => ActionKind::RunLocal,
        Action::RunCloud => ActionKind::RunCloud,
        Action::Finish(_) => ActionKind::Finish,
    }
}

/// One transition of the orchestrator.
pub open spec fn step(s: MachineView, ev: EventKind) -> (MachineView, ActionKind) {
    let (phase, engine, configured, calls) = s;
    match ev {
        EventKind::Start => if phase != Phase::Init {
            (s, ActionKind::Idle)
        } else if engine == EngineChoice::Cloud {
            if configured {
                ((Phase::AwaitingCloud, engine, configured, calls + 1), ActionKind::RunCloud)
            } else {
                ((Phase::Resolved, engine, configured, calls), ActionKind::Finish)
            }
        } else {
            ((Phase::AwaitingLocal, engine, configured, calls), ActionKind::RunLocal)
        },
        EventKind::LocalDone { failed, accepted } => if phase != Phase::AwaitingLocal {
            (s, ActionKind::Idle)
        } else if failed || engine != EngineChoice::Hybrid || accepted || !configured {
            ((Phase::Resolved, engine, configured, calls), ActionKind::Finish)
        } else {
            ((Phase::AwaitingCloud, engine, configured, calls + 1), ActionKind::RunCloud)
        },
        EventKind::CloudDone => if phase != Phase::AwaitingCloud {
            (s, ActionKind::Idle)
        } else {
            ((Phase::Resolved, engine, configured, calls), ActionKind::Finish)
        },
    }
}

/// The state after a sequence of events.
pub open spec fn run(s: MachineView, evs: Seq<EventKind>) -> MachineView
    decreases evs.len(),
{
    if evs.len() == 0 {
        s
    } else {
        run(step(s, evs[0]).0, evs.drop_first())
    }
}

pub open spec fn initial(engine: EngineChoice, configured: bool) -> MachineView {
    (Phase::Init, engine, configured, 0)
}

/// A state reached from the start: no cloud call before the cloud was asked, at most one after.
pub open spec fn reachable_shape(s: MachineView) -> bool {
    &&& s.3 <= 1
    &&& (s.0 == Phase::Init || s.0 == Phase::AwaitingLocal) ==> s.3 == 0
    &&& s.0 == Phase::AwaitingCloud ==> s.3 == 1
}

proof fn lemma_step_shape(s: MachineView, ev: EventKind)
    requires
        reachable_shape(s),
    ensures
        reachable_shape(step(s, ev).0),
        step(s, ev).0.1 == s.1,
        step(s, ev).0.2 == s.2,
        s.0 == Phase::Resolved ==> step(s, ev).0 == s,
{
}

proof fn lemma_run_shape(s: MachineView, evs: Seq<EventKind>)
    requires
        reachable_shape(s),
    ensures
        reachable_shape(run(s, evs)),
        s.0 == Phase::Resolved ==> run(s, evs) == s,
        s.0 == Phase::AwaitingCloud ==> run(s, evs).3 == s.3,
    decreases evs.len(),
{
    if evs.len() > 0 {
        lemma_step_shape(s, evs[0]);
        lemma_run_shape(step(s, evs[0]).0, evs.drop_first());
    }
}

/// Whatever happens, the cloud engine is called at most once for an image.
pub proof fn lemma_cloud_called_at_most_once(engine: EngineChoice, configured: bool, evs: Seq<EventKind>)
    ensures
        run(initial(engine, configured), evs).3 <= 1,
{
    lemma_run_shape(initial(engine, configured), evs);
}

/// In hybrid mode, a local reading that the decision rule accepts (confidence above the
/// minimum, total and merchant found) ends processing: the cloud engine is never called,
/// whatever follows.
pub proof fn lemma_accepted_local_never_calls_cloud(
    rd: LocalReading,
    configured: bool,
    rest: Seq<EventKind>,
)
    requires
        confidence_of(rd.mean_confidence) > LOCAL_CONFIDENCE_MIN,
        rd.fields().0 is Some,
        rd.fields().2 is Some,
    ensures
        run(
            initial(EngineChoice::Hybrid, configured),
            seq![EventKind::Start, EventKind::LocalDone { failed: false, accepted: rd.accepted() }] + rest,
        ).3 == 0,
{
    let evs = seq![EventKind::Start, EventKind::LocalDone { failed: false, accepted: rd.accepted() }] + rest;
    let s1 = step(initial(EngineChoice::Hybrid, configured), evs[0]).0;
    let s2 = step(s1, evs[1]).0;
    assert(evs.drop_first().drop_first() =~= rest);
    assert(evs.drop_first()[0] == evs[1]);
    assert(run(initial(EngineChoice::Hybrid, configured), evs) == run(s1, evs.drop_first()));
    assert(run(s1, evs.drop_first()) == run(s2, rest));
    lemma_run_shape(s2, rest);
}

/// In hybrid mode with the cloud configured, a local reading whose confidence is at or
/// below the minimum makes exactly one cloud call, whatever follows.
pub proof fn lemma_weak_local_calls_cloud_once(rd: LocalReading, rest: Seq<EventKind>)
    requires
        confidence_of(rd.mean_confidence) <= LOCAL_CONFIDENCE_MIN,
    ensures
        run(
            initial(EngineChoice::Hybrid, true),
            seq![EventKind::Start, EventKind::LocalDone { failed: false, accepted: rd.accepted() }] + rest,
        ).3 == 1,
{
    let evs = seq![EventKind::Start, EventKind::LocalDone { failed: false, accepted: rd.accepted() }] + rest;
    let s1 = step(initial(EngineChoice::Hybrid, true), evs[0]).0;
    let s2 = step(s1, evs[1]).0;
    assert(evs.drop_first().drop_first() =~= rest);
    assert(evs.drop_first()[0] == evs[1]);
    assert(run(initial(EngineChoice::Hybrid, true), evs) == run(s1, evs.drop_first()));
    assert(run(s1, evs.drop_first()) == run(s2, rest));
    lemma_run_shape(s2, rest);
}

/// Sequences the engines for one image: the local engine first, then, in hybrid mode,
/// the cloud engine only when the local result falls short. Exactly one engine's
/// result is returned; they are never merged.
pub struct HybridOrchestrator {
    pub engine: EngineChoice,
    pub cloud_configured: bool,
    pub phase: Phase,
    pub cloud_calls: u32,
}

impl HybridOrchestrator {
    pub open spec fn view_machine(&self) -> MachineView {
        (self.phase, self.engine, self.cloud_configured, self.cloud_calls as nat)
    }

    pub open spec fn wf(&self) -> bool {
        reachable_shape(self.view_machine())
    }

    pub fn new(engine: EngineChoice, cloud_configured: bool) -> (r: Self)
        ensures
            r.view_machine() == initial(engine, cloud_configured),
            r.wf(),
    {
        HybridOrchestrator { engine, cloud_configured, phase: Phase::Init, cloud_calls: 0 }
    }

    /// The first action.
    pub fn start(&mut self) -> (r: Action)
        requires
            old(self).wf(),
            old(self).phase == Phase::Init,
        ensures
            final(self).wf(),
            (final(self).view_machine(), kind_of(&r)) == step(old(self).view_machine(), EventKind::Start),
            r is Finish ==> r == Action::Finish(Err(OcrError::CloudAuthMissing)),
    {
        if self.engine == EngineChoice::Cloud {
            if self.cloud_configured {
                self.phase = Phase::AwaitingCloud;
                self.cloud_calls = self.cloud_calls + 1;
                Action::RunCloud
            } else {
                self.phase = Phase::Resolved;
                Action::Finish(Err(OcrError::CloudAuthMissing))
            }
        } else {
            self.phase = Phase::AwaitingLocal;
            Action::RunLocal
        }
    }

    /// The next action once the local engine has read the image, or failed to.
    pub fn on_local(&mut self, reading: Result<LocalReading, OcrError>) -> (r: Action)
        requires
            old(self).wf(),
            old(self).phase == Phase::AwaitingLocal,
        ensures
            final(self).wf(),
            (final(self).view_machine(), kind_of(&r)) == step(
                old(self).view_machine(),
                EventKind::LocalDone {
                    failed: reading is Err,
                    accepted: match reading {
                        Ok(rd) => rd.accepted(),
                        Err(_) => false,
                    },
                },
            ),
            reading matches Ok(rd) && (old(self).engine != EngineChoice::Hybrid || rd.accepted())
                ==> r matches Action::Finish(Ok(_)),
            reading matches Ok(rd) && old(self).engine == EngineChoice::Hybrid && !rd.accepted()
                && !old(self).cloud_configured ==> r == Action::Finish(Err(OcrError::CloudAuthMissing)),
            match reading {
                Err(e) => r == Action::Finish(Err(e)),
                Ok(rd) => match r {
                    Action::Finish(Ok(res)) => {
                        &&& res.wf()
                        &&& res.text@ == rd.full_text@
                        &&& res.extracted_data.fields() == rd.fields()
                        &&& res.confidence == confidence_of(rd.mean_confidence)
                        &&& res.engine_used == OcrSource::Local
                        &&& res.processing_time_ms == 0
                    },
                    Action::Finish(Err(e)) => e == OcrError::CloudAuthMissing,
                    _ => true,
                },
            },
    {
        match reading {
            Err(e) => {
                self.phase = Phase::Resolved;
                Action::Finish(Err(e))
            },
            Ok(rd) => {
                let confidence = normalize_confidence(rd.mean_confidence);
                let processor = OcrProcessor::with_crop_texts(rd.bottom_text, rd.top_text);
                let data = processor.process_local_text(rd.full_text.as_str(), confidence);
                let accepted = confidence > LOCAL_CONFIDENCE_MIN && data.total.is_some()
                    && data.merchant.is_some();
                if self.engine != EngineChoice::Hybrid || accepted {
                    self.phase = Phase::Resolved;
                    Action::Finish(
                        Ok(
                            OcrResult {
                                text: rd.full_text,
                                extracted_data: data,
                                confidence,
                                processing_time_ms: 0,
                                engine_used: OcrSource::Local,
                            },
                        ),
                    )
                } else if !self.cloud_configured {
                    self.phase = Phase::Resolved;
                    Action::Finish(Err(OcrError::CloudAuthMissing))
                } else {
                    self.phase = Phase::AwaitingCloud;
                    self.cloud_calls = self.cloud_calls + 1;
                    Action::RunCloud
                }
            },
        }
    }

    /// The final action once the cloud engine has answered, or failed to.
    pub fn on_cloud(&mut self, text: Result<String, OcrError>) -> (r: Action)
        requires
            old(self).wf(),
            old(self).phase == Phase::AwaitingCloud,
        ensures
            final(self).wf(),
            (final(self).view_machine(), kind_of(&r)) == step(old(self).view_machine(), EventKind::CloudDone),
            match text {
                Err(e) => r == Action::Finish(Err(e)),
                Ok(t) => match r {
                    Action::Finish(Ok(res)) => {
                        &&& res.wf()
                        &&& res.text@ == t@
                        &&& res.extracted_data.fields() == fields_of(t@)
                        &&& res.confidence == CLOUD_CONFIDENCE
                        &&& res.engine_used == OcrSource::Cloud
                        &&& res.processing_time_ms == 0
                    },
                    _ => false,
                },
            },
    {
        self.phase = Phase::Resolved;
        match text {
            Err(e) => Action::Finish(Err(e)),
            Ok(t) => {
                let processor = OcrProcessor::new();
                let data = processor.process_google_vision(t.as_str(), CLOUD_CONFIDENCE);
                Action::Finish(
                    Ok(
                        OcrResult {
                            text: t,
                            extracted_data: data,
                            confidence: CLOUD_CONFIDENCE,
                            processing_time_ms: 0,
                            engine_used: OcrSource::Cloud,
                        },
                    ),
                )
            },
        }
    }
}

/// Whether `s` spells the word `w` exactly.
fn spells(s: &str, w: &Vec<char>) -> (r: bool)
    ensures
        r == (s@ == w@),
{
    let c = chars_of(s);
    if c.len() != w.len() {
        return false;
    }
    let mut i: usize = 0;
    while i < c.len()
        invariant
            c@ == s@,
            c@.len() == w@.len(),
            i <= c@.len(),
            forall|j: int| 0 <= j < i ==> c@[j] == w@[j],
        decreases c@.len() - i,
    {
        if c[i] != w[i] {
            return false;
        }
        i = i + 1;
    }
    assert(c@ =~= w@);
    true
}

/// The engine a selector names: `local` or `tesseract`, `cloud` or `google`; any other
/// value, or none, asks for the hybrid.
pub open spec fn engine_named(s: Option<Seq<char>>) -> EngineChoice {
    match s {
        Some(w) => if w == seq!['l', 'o', 'c', 'a', 'l'] || w == seq![
            't',
            'e',
            's',
            's',
            'e',
            'r',
            'a',
            'c',
            't',
        ] {
            EngineChoice::Local
        } else if w == seq!['c', 'l', 'o', 'u', 'd'] || w == seq!['g', 'o', 'o', 'g', 'l', 'e'] {
            EngineChoice::Cloud
        } else {
            EngineChoice::Hybrid
        },
        None => EngineChoice::Hybrid,
    }
}

/// The engine selector of a request.
pub struct OcrEngineQuery {
    pub engine: Option<String>,
}

impl OcrEngineQuery {
    pub fn engine_choice(&self) -> (r: EngineChoice)
        ensures
            r == engine_named(opt_text(self.engine)),
    {
        match &self.engine {
            None => EngineChoice::Hybrid,
            Some(s) => {
                let s = s.as_str();
                if spells(s, &vec!['l', 'o', 'c', 'a', 'l']) || spells(
                    s,
                    &vec!['t', 'e', 's', 's', 'e', 'r', 'a', 'c', 't'],
                ) {
                    EngineChoice::Local
                } else if spells(s, &vec!['c', 'l', 'o', 'u', 'd']) || spells(
                    s,
                    &vec!['g', 'o', 'o', 'g', 'l', 'e'],
                ) {
                    EngineChoice::Cloud
                } else {
                    EngineChoice::Hybrid
                }
            },
        }
    }
}

} // verus!
