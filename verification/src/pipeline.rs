//! The course of one request through the pipeline: licence, image, model,
//! inference, answer.
//!
//! The pipeline is a state machine. It is handed what happened (an event) and
//! says what is to be done next (an action); the caller does it and comes
//! back with the outcome. Nothing here waits, fetches or computes a model's
//! answer.

use vstd::prelude::*;
use crate::geometry::PreprocessConfig;
use crate::json::view_of;
use crate::output::parse_vision_output;
use crate::preprocess::{preprocess_image, preprocessed, PreprocessError, PreprocessedImage};
use crate::prompt::{prepare_vision_prompt, prompt_text};
use crate::schema::{VisionRequest, VisionResponse};
use crate::models::{registry_name, replaced};
use crate::vision_license::{
    decision, holds_verdict, next_month, next_reset, next_today, verdict_on, AccessDecision,
    LicenseValidation, Timestamp, VisionLicenseError, VisionLicenseManager,
};

verus! {

/// Seconds after which an inference is given up.
pub const INFERENCE_TIMEOUT_SECS: u64 = 10;

/// Most tokens that a model may answer with.
pub const MAX_OUTPUT_TOKENS: u32 = 1024;

/// How the pipeline is run.
#[derive(Debug, PartialEq, Eq)]
pub struct PipelineConfig {
    /// Development mode: no licence is asked for and no usage is counted.
    pub dev_mode: bool,
    /// The model to use in place of the one that a request names.
    pub model_override: Option<String>,
}

/// Why a request failed.
#[derive(Debug, PartialEq, Eq)]
pub enum PipelineError {
    License(VisionLicenseError),
    /// The usage counters are at the end of their range.
    UsageCounterFull,
    /// The request names no image.
    MissingImage,
    /// The inline image is not base64; with the decoder's words.
    InvalidBase64(String),
    /// The image could not be fetched; with the reason.
    FetchFailed(String),
    Preprocess(PreprocessError),
    /// The model, which is named, is not installed.
    ModelNotInstalled(String),
    /// The model is not in the registry, under the name given.
    ModelNotRegistered(String),
    /// The model could not be loaded; with the reason.
    ModelLoadFailed(String),
    /// The model failed; with the reason.
    InferenceFailed(String),
    /// The model did not answer in time.
    Timeout,
    /// The event is not one that the pipeline was waiting for.
    OutOfTurn,
}

/// What the caller found when it looked for the model.
#[derive(Debug, PartialEq, Eq)]
pub enum ModelStatus {
    Ready,
    NotInstalled,
    NotRegistered,
    LoadFailed(String),
}

/// How an inference ended.
#[derive(Debug, PartialEq, Eq)]
pub enum GenerationOutcome {
    Text(String),
    Failed(String),
    TimedOut,
}

/// What happened.
#[derive(Debug, PartialEq)]
pub enum Event {
    /// The request arrived.
    Start,
    /// The caller came back after `Continue`.
    Proceed,
    /// The authority answered, or could not be asked; with the reason.
    Verdict(Result<LicenseValidation, String>),
    /// The image was fetched, or could not be; with the reason.
    Image(Result<Vec<u8>, String>),
    /// The model was looked for.
    Model(ModelStatus),
    /// The inference ended, so many milliseconds after the request arrived.
    Generation(GenerationOutcome, u64),
}

/// What is to be done next.
#[derive(Debug, PartialEq)]
pub enum Action {
    /// Nothing is to be done but to come back with `Proceed`. The caller
    /// has the chance to persist what the step has changed.
    Continue,
    /// Ask the authority about this key, and come back with `Verdict`.
    AskAuthority(String),
    /// Fetch the image at this URL, and come back with `Image`.
    FetchImage(String),
    /// Make the model ready, and come back with `Model`. The registry knows
    /// the model under `registry_name`.
    LoadModel { model: String, registry_name: String },
    /// Run the model on the image with the prompt, for at most
    /// `INFERENCE_TIMEOUT_SECS`, and come back with `Generation`.
    Generate { image: Vec<u8>, prompt: String },
    /// Answer the request.
    Respond(VisionResponse),
    /// Refuse the request.
    Fail(PipelineError),
}

/// Where a request stands.
#[derive(Clone, Copy, Debug, PartialEq, Eq)]
pub enum Stage {
    Created,
    AwaitingVerdict,
    /// The licence is settled; the request is still to be counted.
    Licensed,
    /// The request is counted; its image is still to be found.
    Admitted,
    AwaitingImage,
    AwaitingModel,
    AwaitingGeneration,
    Finished,
}

/// One request on its way.
#[derive(Debug, PartialEq)]
pub struct Pipeline {
    pub stage: Stage,
    pub request: VisionRequest,
    pub model_name: String,
    pub dev_mode: bool,
    /// The preprocessed image, from the moment there is one until it is
    /// handed to the model.
    pub image: Option<PreprocessedImage>,
    /// Width and height of the preprocessed image; zero until there is one.
    pub size: (u32, u32),
}

/// The bytes that a text in base64 stands for, as the standard engine of the
/// `base64` crate decodes it; `None` where it refuses the text.
pub uninterp spec fn base64_decoding(text: Seq<char>) -> Option<Seq<u8>>;

/// `Engine::decode` of `base64::engine::general_purpose::STANDARD`: the
/// decoded bytes, which are `base64_decoding` of the text, or the decoder's
/// error as text.
#[verifier::external_body]
fn decode_base64(text: &str) -> (r: Result<Vec<u8>, String>)
    ensures
        match r {
            Ok(bytes) => base64_decoding(text@) == Some(bytes@),
            Err(_) => base64_decoding(text@) is None,
        },
{
    match base64::Engine::decode(&base64::engine::general_purpose::STANDARD, text) {
        Ok(bytes) => Ok(bytes),
        Err(e) => Err(e.to_string()),
    }
}

/// Where a request that stood at `before` stands once `action` has been
/// asked for.
pub open spec fn stage_after(before: Stage, action: Action) -> Stage {
    match action {
        Action::Continue => if before == Stage::Licensed {
            Stage::Admitted
        } else {
            Stage::Licensed
        },
        Action::AskAuthority(_) => Stage::AwaitingVerdict,
        Action::FetchImage(_) => Stage::AwaitingImage,
        Action::LoadModel { .. } => Stage::AwaitingModel,
        Action::Generate { .. } => Stage::AwaitingGeneration,
        Action::Respond(_) => Stage::Finished,
        Action::Fail(_) => Stage::Finished,
    }
}

/// Whether `after` is `before` with one request counted at `now`.
pub open spec fn counted(
    before: VisionLicenseManager,
    after: VisionLicenseManager,
    now: Timestamp,
) -> bool {
    &&& after.usage.requests_today == next_today(before.usage, now)
    &&& after.usage.requests_this_month == next_month(before.usage, now)
    &&& after.usage.last_reset == next_reset(before.usage, now)
}

/// The licence gate at the arrival of a request. `stop` is what ends the
/// step, if anything does: the request passes where it is `None`.
///
/// In development mode the request passes. Otherwise the licence gate
/// decides: a request that it grants passes; one that it refuses fails; and
/// where it cannot tell, the authority is asked. Nothing is changed, and
/// nothing is counted yet.
pub open spec fn gate_passed(
    p: Pipeline,
    before: VisionLicenseManager,
    after: VisionLicenseManager,
    now: Timestamp,
    stop: Option<Action>,
) -> bool {
    &&& after == before
    &&& match decision(before, view_of(p.request.license), p.dev_mode, now) {
        AccessDecision::Granted => stop is None,
        AccessDecision::Denied(e) => stop == Some(Action::Fail(PipelineError::License(e))),
        AccessDecision::AskAuthority => {
            &&& stop matches Some(Action::AskAuthority(key))
            &&& Some(key@) == view_of(p.request.license)
        },
    }
}

/// The licence gate at the authority's answer. A failure to get an answer
/// fails the request and leaves the licence gate as it was. A verdict is
/// cached, whatever it says; then it decides. Nothing is counted yet.
pub open spec fn verdict_passed(
    p: Pipeline,
    before: VisionLicenseManager,
    after: VisionLicenseManager,
    answer: Result<LicenseValidation, String>,
    now: Timestamp,
    stop: Option<Action>,
) -> bool {
    match p.request.license {
        None => stop == Some(Action::Fail(PipelineError::OutOfTurn)) && after == before,
        Some(key) => match answer {
            Err(reason) => {
                &&& after == before
                &&& stop == Some(
                    Action::Fail(
                        PipelineError::License(VisionLicenseError::ValidationFailed(reason)),
                    ),
                )
            },
            Ok(validation) => {
                &&& holds_verdict(after.cache, key@, validation, now)
                &&& after.usage == before.usage
                &&& match verdict_on(validation, before.usage.requests_this_month) {
                    Err(e) => stop == Some(Action::Fail(PipelineError::License(e))),
                    Ok(_) => stop is None,
                }
            },
        },
    }
}

/// Where the image of a request comes from: the inline image where there is
/// one, decoded; else the URL, which has to be fetched; else nowhere.
pub open spec fn image_found(request: VisionRequest, r: Result<Vec<u8>, Action>) -> bool {
    match request.image_base64 {
        Some(text) => match base64_decoding(text@) {
            Some(bytes) => r matches Ok(found) && found@ == bytes,
            None => r matches Err(Action::Fail(PipelineError::InvalidBase64(_))),
        },
        None => match request.url {
            Some(url) => r matches Err(Action::FetchImage(asked)) && asked@ == url@,
            None => r == Err::<Vec<u8>, Action>(Action::Fail(PipelineError::MissingImage)),
        },
    }
}

/// The budgets that the pipeline preprocesses with.
pub open spec fn pipeline_budgets() -> PreprocessConfig {
    PreprocessConfig { max_long_edge: 640, max_pixels: 1_500_000, jpeg_quality: 80 }
}

/// What the bytes of an image lead to: the image is preprocessed with the
/// pipeline's budgets; where that succeeds it is kept and the model is asked
/// for, and where it fails the request fails with the reason.
pub open spec fn image_prepared(before: Pipeline, after: Pipeline, bytes: Seq<u8>, action: Action)
    -> bool {
    exists|r: Result<PreprocessedImage, PreprocessError>|
        {
            &&& #[trigger] preprocessed(bytes, pipeline_budgets(), r)
            &&& match r {
                Ok(img) => {
                    &&& after.image == Some(img)
                    &&& after.size == (img.width, img.height)
                    &&& action matches Action::LoadModel { model, registry_name }
                    &&& model@ == before.model_name@
                    &&& registry_name@ == replaced(before.model_name@, ':', '/')
                },
                Err(e) => after.image is None && action == Action::Fail(
                    PipelineError::Preprocess(e),
                ),
            }
        }
}

/// What the state of the model leads to: a model that is ready is given the
/// image and the prompt for it; any other state fails the request.
pub open spec fn model_answered(before: Pipeline, status: ModelStatus, action: Action) -> bool {
    match before.image {
        None => action == Action::Fail(PipelineError::OutOfTurn),
        Some(img) => match status {
            ModelStatus::Ready => {
                &&& action matches Action::Generate { image, prompt }
                &&& image@ == img.bytes@
                &&& prompt@ == prompt_text(
                    before.request.mode@,
                    before.size.0,
                    before.size.1,
                    before.model_name@,
                )
            },
            ModelStatus::NotInstalled => action matches Action::Fail(
                PipelineError::ModelNotInstalled(model),
            ) && model@ == before.model_name@,
            ModelStatus::NotRegistered => action matches Action::Fail(
                PipelineError::ModelNotRegistered(name),
            ) && name@ == replaced(before.model_name@, ':', '/'),
            ModelStatus::LoadFailed(reason) => action == Action::Fail(
                PipelineError::ModelLoadFailed(reason),
            ),
        },
    }
}

/// What the end of an inference leads to: the model's text is read into a
/// result, which always succeeds; a failure and a timeout fail the request,
/// each in its own way.
pub open spec fn generation_answered(
    before: Pipeline,
    outcome: GenerationOutcome,
    duration_ms: u64,
    action: Action,
) -> bool {
    match outcome {
        GenerationOutcome::Text(raw) => action matches Action::Respond(response)
            && crate::output::reads_output(
            response@,
            raw@,
            view_of(before.request.url),
            before.request.mode@,
            before.model_name@,
            duration_ms,
        ),
        GenerationOutcome::Failed(reason) => action == Action::Fail(
            PipelineError::InferenceFailed(reason),
        ),
        GenerationOutcome::TimedOut => action == Action::Fail(PipelineError::Timeout),
    }
}

/// How a step at the licence gate ends: with what stopped it, or else with
/// the word to continue. The image is not touched.
pub open spec fn goes_on(before: Pipeline, after: Pipeline, stop: Option<Action>, action: Action)
    -> bool {
    &&& after.image == before.image
    &&& after.size == before.size
    &&& match stop {
        Some(a) => action == a,
        None => action == Action::Continue,
    }
}

/// What a request with its licence settled leads to: its image is found
/// and, where it need not be fetched, prepared at once.
pub open spec fn image_sought(before: Pipeline, after: Pipeline, action: Action) -> bool {
    exists|found: Result<Vec<u8>, Action>|
        {
            &&& #[trigger] image_found(before.request, found)
            &&& match found {
                Err(a) => action == a && after.image == before.image && after.size == before.size,
                Ok(bytes) => image_prepared(before, after, bytes@, action),
            }
        }
}

/// Whether a step reads or changes the licence gate: the first step of a
/// request does, the step that takes the authority's answer, and the step
/// that counts the request. For every other step any gate may be handed in,
/// and it is left as it is.
pub open spec fn gate_needed(stage: Stage, event: Event) -> bool {
    match (stage, event) {
        (Stage::Created, Event::Start) => true,
        (Stage::AwaitingVerdict, Event::Verdict(_)) => true,
        (Stage::Licensed, Event::Proceed) => true,
        _ => false,
    }
}

/// The counting of a request whose licence is settled. In development mode
/// nothing is counted. Otherwise the request is counted, once, and the cache
/// stays; where the counters are at the end of their range the request fails
/// and nothing changes.
pub open spec fn request_counted(
    p: Pipeline,
    before: VisionLicenseManager,
    after: VisionLicenseManager,
    now: Timestamp,
    action: Action,
) -> bool {
    if p.dev_mode {
        after == before && action == Action::Continue
    } else if before.usage.countable(now) {
        after.cache == before.cache && counted(before, after, now) && action == Action::Continue
    } else {
        after == before && action == Action::Fail(PipelineError::UsageCounterFull)
    }
}

/// What an event leads to at a stage. An event that the stage does not
/// expect fails the request and changes nothing else.
pub open spec fn step_taken(
    before: Pipeline,
    after: Pipeline,
    gate_before: VisionLicenseManager,
    gate_after: VisionLicenseManager,
    event: Event,
    now: Timestamp,
    action: Action,
) -> bool {
    match (before.stage, event) {
        (Stage::Created, Event::Start) => exists|stop: Option<Action>|
            {
                &&& #[trigger] gate_passed(before, gate_before, gate_after, now, stop)
                &&& goes_on(before, after, stop, action)
            },
        (Stage::AwaitingVerdict, Event::Verdict(answer)) => exists|stop: Option<Action>|
            {
                &&& #[trigger] verdict_passed(before, gate_before, gate_after, answer, now, stop)
                &&& goes_on(before, after, stop, action)
            },
        (Stage::Licensed, Event::Proceed) => {
            &&& request_counted(before, gate_before, gate_after, now, action)
            &&& after.image == before.image
            &&& after.size == before.size
        },
        (Stage::Admitted, Event::Proceed) => {
            &&& gate_after == gate_before
            &&& image_sought(before, after, action)
        },
        (Stage::AwaitingImage, Event::Image(fetched)) => {
            &&& gate_after == gate_before
            &&& match fetched {
                Ok(bytes) => image_prepared(before, after, bytes@, action),
                Err(reason) => action == Action::Fail(PipelineError::FetchFailed(reason)),
            }
        },
        (Stage::AwaitingModel, Event::Model(status)) => {
            &&& gate_after == gate_before
            &&& model_answered(before, status, action)
        },
        (Stage::AwaitingGeneration, Event::Generation(outcome, duration_ms)) => {
            &&& gate_after == gate_before
            &&& generation_answered(before, outcome, duration_ms, action)
        },
        _ => gate_after == gate_before && action == Action::Fail(PipelineError::OutOfTurn),
    }
}

impl Pipeline {
    /// A request that has just arrived. The model is the one that the
    /// configuration names, or else `model_name`.
    pub fn new(request: VisionRequest, model_name: &str, config: &PipelineConfig) -> (p: Pipeline)
        ensures
            p.stage == Stage::Created,
            p.request == request,
            p.dev_mode == config.dev_mode,
            p.image is None,
            p.size == (0u32, 0u32),
            p.model_name@ == match config.model_override {
                Some(m) => m@,
                None => model_name@,
            },
    {
        let model_name = match &config.model_override {
            Some(m) => m.clone(),
            None => String::from_str(model_name),
        };
        Pipeline {
            stage: Stage::Created,
            request,
            model_name,
            dev_mode: config.dev_mode,
            image: None,
            size: (0, 0),
        }
    }

    fn count(gate: &mut VisionLicenseManager, now: Timestamp) -> (stop: Option<Action>)
        ensures
            final(gate).cache == old(gate).cache,
            if old(gate).usage.countable(now) {
                stop is None && counted(*old(gate), *final(gate), now)
            } else {
                stop == Some(Action::Fail(PipelineError::UsageCounterFull)) && *final(gate)
                    == *old(gate)
            },
    {
        if gate.usage.can_record(now) {
            gate.record_usage(now);
            None
        } else {
            Some(Action::Fail(PipelineError::UsageCounterFull))
        }
    }

    fn pass_gate(&self, gate: &mut VisionLicenseManager, now: Timestamp) -> (stop: Option<Action>)
        ensures
            gate_passed(*self, *old(gate), *final(gate), now, stop),
    {
        let key: Option<&str> = match &self.request.license {
            Some(k) => Some(k.as_str()),
            None => None,
        };
        match gate.check_vision_access(key, self.dev_mode, now) {
            AccessDecision::Granted => None,
            AccessDecision::Denied(e) => Some(Action::Fail(PipelineError::License(e))),
            AccessDecision::AskAuthority => match key {
                Some(k) => Some(Action::AskAuthority(String::from_str(k))),
                None => Some(Action::Fail(PipelineError::OutOfTurn)),
            },
        }
    }

    fn pass_verdict(
        &self,
        gate: &mut VisionLicenseManager,
        answer: Result<LicenseValidation, String>,
        now: Timestamp,
    ) -> (stop: Option<Action>)
        ensures
            verdict_passed(*self, *old(gate), *final(gate), answer, now, stop),
    {
        let key = match &self.request.license {
            Some(k) => k.as_str(),
            None => {
                return Some(Action::Fail(PipelineError::OutOfTurn));
            },
        };
        match gate.complete_validation(key, answer, now) {
            Err(e) => Some(Action::Fail(PipelineError::License(e))),
            Ok(()) => None,
        }
    }

    fn count_request(&self, gate: &mut VisionLicenseManager, now: Timestamp) -> (action: Action)
        ensures
            request_counted(*self, *old(gate), *final(gate), now, action),
    {
        if self.dev_mode {
            return Action::Continue;
        }
        match Self::count(gate, now) {
            Some(stop) => stop,
            None => Action::Continue,
        }
    }

    fn find_image(&self) -> (r: Result<Vec<u8>, Action>)
        ensures
            image_found(self.request, r),
    {
        match &self.request.image_base64 {
            Some(text) => match decode_base64(text.as_str()) {
                Ok(bytes) => Ok(bytes),
                Err(words) => Err(Action::Fail(PipelineError::InvalidBase64(words))),
            },
            None => match &self.request.url {
                Some(url) => Err(Action::FetchImage(url.clone())),
                None => Err(Action::Fail(PipelineError::MissingImage)),
            },
        }
    }

    fn prepare(&mut self, bytes: &Vec<u8>) -> (action: Action)
        ensures
            image_prepared(*old(self), *final(self), bytes@, action),
            final(self).stage == old(self).stage,
            final(self).request == old(self).request,
            final(self).model_name == old(self).model_name,
            final(self).dev_mode == old(self).dev_mode,
    {
        let cfg = PreprocessConfig { max_long_edge: 640, max_pixels: 1_500_000, jpeg_quality: 80 };
        let r = preprocess_image(bytes.as_slice(), &cfg);
        let ghost witness = r;
        let action = match r {
            Ok(img) => {
                self.size = (img.width, img.height);
                self.image = Some(img);
                Action::LoadModel {
                    model: self.model_name.clone(),
                    registry_name: registry_name(self.model_name.as_str()),
                }
            },
            Err(e) => {
                self.image = None;
                Action::Fail(PipelineError::Preprocess(e))
            },
        };
        assert(preprocessed(bytes@, pipeline_budgets(), witness));
        action
    }

    fn seek_image(&mut self) -> (action: Action)
        ensures
            image_sought(*old(self), *final(self), action),
            final(self).stage == old(self).stage,
            final(self).request == old(self).request,
            final(self).model_name == old(self).model_name,
            final(self).dev_mode == old(self).dev_mode,
    {
        let found = self.find_image();
        let ghost witness = found;
        let action = match found {
            Err(a) => a,
            Ok(bytes) => self.prepare(&bytes),
        };
        assert(image_found(old(self).request, witness));
        action
    }

    fn on_model(&mut self, status: ModelStatus) -> (action: Action)
        ensures
            model_answered(*old(self), status, action),
            final(self).stage == old(self).stage,
            final(self).request == old(self).request,
            final(self).model_name == old(self).model_name,
            final(self).dev_mode == old(self).dev_mode,
    {
        let img = match self.image.take() {
            Some(img) => img,
            None => {
                return Action::Fail(PipelineError::OutOfTurn);
            },
        };
        match status {
            ModelStatus::Ready => Action::Generate {
                image: img.bytes,
                prompt: prepare_vision_prompt(
                    self.request.mode.as_str(),
                    self.size.0,
                    self.size.1,
                    self.model_name.as_str(),
                ),
            },
            ModelStatus::NotInstalled => Action::Fail(
                PipelineError::ModelNotInstalled(self.model_name.clone()),
            ),
            ModelStatus::NotRegistered => Action::Fail(
                PipelineError::ModelNotRegistered(registry_name(self.model_name.as_str())),
            ),
            ModelStatus::LoadFailed(reason) => Action::Fail(PipelineError::ModelLoadFailed(reason)),
        }
    }

    fn on_generation(&self, outcome: GenerationOutcome, duration_ms: u64) -> (action: Action)
        ensures
            generation_answered(*self, outcome, duration_ms, action),
    {
        match outcome {
            GenerationOutcome::Text(raw) => Action::Respond(
                parse_vision_output(
                    raw.as_str(),
                    &self.request,
                    self.model_name.as_str(),
                    duration_ms,
                ),
            ),
            GenerationOutcome::Failed(reason) => Action::Fail(
                PipelineError::InferenceFailed(reason),
            ),
            GenerationOutcome::TimedOut => Action::Fail(PipelineError::Timeout),
        }
    }

    fn stage_for(before: Stage, action: &Action) -> (stage: Stage)
        ensures
            stage == stage_after(before, *action),
    {
        match action {
            Action::Continue => match before {
                Stage::Licensed => Stage::Admitted,
                _ => Stage::Licensed,
            },
            Action::AskAuthority(_) => Stage::AwaitingVerdict,
            Action::FetchImage(_) => Stage::AwaitingImage,
            Action::LoadModel { .. } => Stage::AwaitingModel,
            Action::Generate { .. } => Stage::AwaitingGeneration,
            Action::Respond(_) => Stage::Finished,
            Action::Fail(_) => Stage::Finished,
        }
    }

    /// Whether the step that `event` leads to reads or changes the licence
    /// gate.
    pub fn needs_gate(&self, event: &Event) -> (r: bool)
        ensures
            r == gate_needed(self.stage, *event),
    {
        match (self.stage, event) {
            (Stage::Created, Event::Start) => true,
            (Stage::AwaitingVerdict, Event::Verdict(_)) => true,
            (Stage::Licensed, Event::Proceed) => true,
            _ => false,
        }
    }

    /// Takes one step: told what happened, says what is to be done next.
    /// The request, the model and the mode of running never change; the
    /// stage becomes the one at which the action's outcome is awaited.
    pub fn advance(&mut self, gate: &mut VisionLicenseManager, event: Event, now: Timestamp) -> (action:
        Action)
        ensures
            step_taken(*old(self), *final(self), *old(gate), *final(gate), event, now, action),
            !gate_needed(old(self).stage, event) ==> *final(gate) == *old(gate),
            final(self).stage == stage_after(old(self).stage, action),
            final(self).request == old(self).request,
            final(self).model_name == old(self).model_name,
            final(self).dev_mode == old(self).dev_mode,
    {
        let before = self.stage;
        let action = match (self.stage, event) {
            (Stage::Created, Event::Start) => {
                let stop = self.pass_gate(gate, now);
                let ghost witness = stop;
                let action = match stop {
                    Some(a) => a,
                    None => Action::Continue,
                };
                assert(gate_passed(*old(self), *old(gate), *gate, now, witness));
                action
            },
            (Stage::AwaitingVerdict, Event::Verdict(answer)) => {
                let stop = self.pass_verdict(gate, answer, now);
                let ghost witness = stop;
                let action = match stop {
                    Some(a) => a,
                    None => Action::Continue,
                };
                assert(verdict_passed(*old(self), *old(gate), *gate, answer, now, witness));
                action
            },
            (Stage::Licensed, Event::Proceed) => self.count_request(gate, now),
            (Stage::Admitted, Event::Proceed) => self.seek_image(),
            (Stage::AwaitingImage, Event::Image(fetched)) => match fetched {
                Ok(bytes) => self.prepare(&bytes),
                Err(reason) => Action::Fail(PipelineError::FetchFailed(reason)),
            },
            (Stage::AwaitingModel, Event::Model(status)) => self.on_model(status),
            (Stage::AwaitingGeneration, Event::Generation(outcome, duration_ms)) => {
                self.on_generation(outcome, duration_ms)
            },
            _ => Action::Fail(PipelineError::OutOfTurn),
        };
        self.stage = Self::stage_for(before, &action);
        action
    }
}

/// A request that the licence gate refuses fails with the licence gate's reason
/// before any work is done on its image: no image is decoded, fetched or
/// preprocessed, and nothing is counted.
pub proof fn lemma_refusal_comes_first(
    before: Pipeline,
    after: Pipeline,
    gate_before: VisionLicenseManager,
    gate_after: VisionLicenseManager,
    now: Timestamp,
    action: Action,
    reason: VisionLicenseError,
)
    requires
        before.stage == Stage::Created,
        !before.dev_mode,
        decision(gate_before, view_of(before.request.license), false, now)
            == AccessDecision::Denied(reason),
        step_taken(before, after, gate_before, gate_after, Event::Start, now, action),
    ensures
        action == Action::Fail(PipelineError::License(reason)),
        after.image == before.image,
        gate_after == gate_before,
{
}

/// The counters change at one step only, the one that follows the settling
/// of the licence. The step that takes the authority's answer leaves them as
/// they are, so that a request whose verdict cannot be persisted fails
/// uncounted.
pub proof fn lemma_only_the_counting_step_counts(
    before: Pipeline,
    after: Pipeline,
    gate_before: VisionLicenseManager,
    gate_after: VisionLicenseManager,
    event: Event,
    now: Timestamp,
    action: Action,
)
    requires
        step_taken(before, after, gate_before, gate_after, event, now, action),
        !(before.stage == Stage::Licensed && event is Proceed),
    ensures
        gate_after.usage == gate_before.usage,
{
    if before.stage == Stage::Created && event is Start {
        let stop = choose|stop: Option<Action>|
            #[trigger] gate_passed(before, gate_before, gate_after, now, stop) && goes_on(
                before,
                after,
                stop,
                action,
            );
    } else if before.stage == Stage::AwaitingVerdict && event is Verdict {
        let answer = event->Verdict_0;
        let stop = choose|stop: Option<Action>|
            #[trigger] verdict_passed(before, gate_before, gate_after, answer, now, stop)
                && goes_on(before, after, stop, action);
    }
}

/// A request whose licence is settled is counted once, at the step that
/// follows, and goes on; the cache stays as it is.
pub proof fn lemma_settled_request_is_counted(
    before: Pipeline,
    after: Pipeline,
    gate_before: VisionLicenseManager,
    gate_after: VisionLicenseManager,
    now: Timestamp,
    action: Action,
)
    requires
        before.stage == Stage::Licensed,
        !before.dev_mode,
        gate_before.usage.countable(now),
        step_taken(before, after, gate_before, gate_after, Event::Proceed, now, action),
    ensures
        action == Action::Continue,
        counted(gate_before, gate_after, now),
        gate_after.cache == gate_before.cache,
{
}

/// In development mode the licence gate is neither asked nor changed: not
/// when the request arrives, and not at the step that counts.
pub proof fn lemma_dev_mode_bypasses_gate(
    before: Pipeline,
    after: Pipeline,
    gate_before: VisionLicenseManager,
    gate_after: VisionLicenseManager,
    event: Event,
    now: Timestamp,
    action: Action,
)
    requires
        before.dev_mode,
        (before.stage == Stage::Created && event is Start) || (before.stage == Stage::Licensed
            && event is Proceed),
        step_taken(before, after, gate_before, gate_after, event, now, action),
    ensures
        gate_after == gate_before,
        action == Action::Continue,
{
    if before.stage == Stage::Created {
        let stop = choose|stop: Option<Action>|
            #[trigger] gate_passed(before, gate_before, gate_after, now, stop) && goes_on(
                before,
                after,
                stop,
                action,
            );
        assert(stop is None);
    }
}

impl PipelineError {
    /// What the error says to a reader.
    pub open spec fn message_text(self) -> Seq<char> {
        match self {
            PipelineError::License(e) => e.message_text(),
            PipelineError::UsageCounterFull => "Usage counter cannot be advanced"@,
            PipelineError::MissingImage => "Either image_base64 or url must be provided"@,
            PipelineError::InvalidBase64(words) => "Failed to decode base64 image: "@ + words@,
            PipelineError::FetchFailed(words) => words@,
            PipelineError::Preprocess(e) => "Failed to preprocess image: "@ + e.message_text(),
            PipelineError::ModelNotInstalled(model) => "Vision model '"@ + model@
                + "' is not available in Ollama.\n\nTo download the default MiniCPM-V model, run:\n\tollama pull registry.ollama.ai/library/minicpm-v:latest\n\nOr specify a different model with --model flag or SHIMMY_VISION_MODEL environment variable.\n\nAvailable vision models you can try:\n\t\u{2022} minicpm-v:latest (recommended default)\n\t\u{2022} llava:latest\n\t\u{2022} llava-phi3:latest\n\t\u{2022} moondream:latest\n\t\u{2022} llama3.2-vision:latest"@,
            PipelineError::ModelNotRegistered(name) => "Vision model '"@ + name@
                + "' not found in registry. This may be a configuration issue."@,
            PipelineError::ModelLoadFailed(words) => "Failed to load vision model: "@ + words@,
            PipelineError::InferenceFailed(words) => "Vision inference failed: "@ + words@,
            PipelineError::Timeout => "Vision inference timed out after 10 seconds"@,
            PipelineError::OutOfTurn => "Unexpected event"@,
        }
    }

    /// What the error says to a reader.
    pub fn message(&self) -> (s: String)
        ensures
            s@ == self.message_text(),
    {
        match self {
            PipelineError::License(e) => e.message(),
            PipelineError::UsageCounterFull => String::from_str("Usage counter cannot be advanced"),
            PipelineError::MissingImage => String::from_str(
                "Either image_base64 or url must be provided",
            ),
            PipelineError::InvalidBase64(words) => {
                let mut s = String::from_str("Failed to decode base64 image: ");
                s.append(words.as_str());
                s
            },
            PipelineError::FetchFailed(words) => words.clone(),
            PipelineError::Preprocess(e) => {
                let mut s = String::from_str("Failed to preprocess image: ");
                s.append(e.message().as_str());
                s
            },
            PipelineError::ModelNotInstalled(model) => {
                let mut s = String::from_str("Vision model '");
                s.append(model.as_str());
                s.append(
                    "' is not available in Ollama.\n\nTo download the default MiniCPM-V model, run:\n\tollama pull registry.ollama.ai/library/minicpm-v:latest\n\nOr specify a different model with --model flag or SHIMMY_VISION_MODEL environment variable.\n\nAvailable vision models you can try:\n\t\u{2022} minicpm-v:latest (recommended default)\n\t\u{2022} llava:latest\n\t\u{2022} llava-phi3:latest\n\t\u{2022} moondream:latest\n\t\u{2022} llama3.2-vision:latest",
                );
                s
            },
            PipelineError::ModelNotRegistered(name) => {
                let mut s = String::from_str("Vision model '");
                s.append(name.as_str());
                s.append("' not found in registry. This may be a configuration issue.");
                s
            },
            PipelineError::ModelLoadFailed(words) => {
                let mut s = String::from_str("Failed to load vision model: ");
                s.append(words.as_str());
                s
            },
            PipelineError::InferenceFailed(words) => {
                let mut s = String::from_str("Vision inference failed: ");
                s.append(words.as_str());
                s
            },
            PipelineError::Timeout => String::from_str(
                "Vision inference timed out after 10 seconds",
            ),
            PipelineError::OutOfTurn => String::from_str("Unexpected event"),
        }
    }
}

/// The entry point for a whole request in one call. A request takes several
/// steps with work in between, so there is nothing that this can do: it
/// refuses whatever it is given.
pub fn handle_vision_request(_req: VisionRequest) -> (r: Result<VisionResponse, &'static str>)
    ensures
        r is Err,
        r->Err_0@ == "Vision processing not yet implemented"@,
{
    Err("Vision processing not yet implemented")
}

} // verus!
