//! Two-phase metadata upload orchestration.
//!
//! Character metadata is uploaded in two strictly ordered steps: first the
//! rendered image bytes, then the metadata JSON that embeds the image's
//! resulting URL. The network transport lives outside this crate; the
//! orchestrator is the decision function from state and upload outcome to
//! next state and next action. The metadata step must not begin until the
//! image step has succeeded, and an image failure ends the run with that
//! error and no further upload.

use vstd::prelude::*;
use vstd::string::StringExecFns;
use vstd::utf8::encode_utf8;

use crate::metadata::{build_metadata_json, metadata_json_bytes};
use crate::upload::UploadError;

verus! {

/// Where a two-phase run stands.
pub enum OrchestratorState {
    /// The image envelope is out; the character's fields wait for the URL.
    AwaitingImage { name: String, description: String, hp: u32, atk: u32, def: u32 },
    /// The metadata envelope is out.
    AwaitingMetadata,
    /// The run ended with the metadata URL.
    Done { url: String },
    /// The run ended with the first error encountered.
    Failed { error: UploadError },
}

/// The outcome of one upload, as the transport reports it back.
pub enum UploadOutcome {
    Succeeded { url: String },
    Failed { error: UploadError },
}

/// What the caller must do next.
pub enum OrchestratorAction {
    /// POST a data item over this payload with this `Content-Type` tag.
    Upload { payload: Vec<u8>, content_type: String },
    /// Nothing: the run is over.
    Stop,
}

/// The hue that parameterizes a character's rendered image: 60 degrees per
/// character index.
pub fn character_hue(index: usize) -> (r: u32)
    requires
        index * 60 <= u32::MAX,
    ensures
        r == index * 60,
{
    ((index as u64) * 60) as u32
}

/// Starts a run: with the rendered image bytes in hand, the first action is
/// to upload them as `image/png`, and the run waits for the image URL.
pub fn start_character_metadata(
    name: &str,
    description: &str,
    hp: u32,
    atk: u32,
    def: u32,
    image: Vec<u8>,
) -> (r: (OrchestratorState, OrchestratorAction))
    ensures
        (r.0 matches OrchestratorState::AwaitingImage {
            name: n,
            description: d,
            hp: h,
            atk: a,
            def: f,
        } && n@ == name@ && d@ == description@ && h == hp && a == atk && f == def),
        (r.1 matches OrchestratorAction::Upload { payload, content_type } && payload@ == image@
            && content_type@ == ("image/png")@),
{
    let state = OrchestratorState::AwaitingImage {
        name: String::from_str(name),
        description: String::from_str(description),
        hp,
        atk,
        def,
    };
    let action = OrchestratorAction::Upload {
        payload: image,
        content_type: String::from_str("image/png"),
    };
    (state, action)
}

/// One decision step.
///
/// An image URL moves the run to the metadata upload, whose payload embeds
/// that URL; a metadata URL ends the run with it. A failure at either step
/// ends the run with that error at once — in particular, when the image
/// upload fails, the run is over and no metadata upload is ever issued.
/// A finished run stays finished.
pub fn orchestrator_step(state: OrchestratorState, outcome: UploadOutcome) -> (r: (
    OrchestratorState,
    OrchestratorAction,
))
    ensures
        match state {
            OrchestratorState::AwaitingImage { name, description, hp, atk, def } => match outcome {
                UploadOutcome::Succeeded { url } => {
                    &&& r.0 is AwaitingMetadata
                    &&& (r.1 matches OrchestratorAction::Upload { payload, content_type }
                        && payload@ == metadata_json_bytes(encode_utf8(name@), encode_utf8(
                        description@,
                    ), encode_utf8(url@), hp as nat, atk as nat, def as nat) && content_type@ == (
                    "application/json")@)
                },
                UploadOutcome::Failed { error } => {
                    &&& (r.0 matches OrchestratorState::Failed { error: e } && e == error)
                    &&& r.1 is Stop
                },
            },
            OrchestratorState::AwaitingMetadata => match outcome {
                UploadOutcome::Succeeded { url } => {
                    &&& (r.0 matches OrchestratorState::Done { url: u } && u@ == url@)
                    &&& r.1 is Stop
                },
                UploadOutcome::Failed { error } => {
                    &&& (r.0 matches OrchestratorState::Failed { error: e } && e == error)
                    &&& r.1 is Stop
                },
            },
            OrchestratorState::Done { url } => {
                &&& (r.0 matches OrchestratorState::Done { url: u } && u@ == url@)
                &&& r.1 is Stop
            },
            OrchestratorState::Failed { error } => {
                &&& (r.0 matches OrchestratorState::Failed { error: e } && e == error)
                &&& r.1 is Stop
            },
        },
{
    match state {
        OrchestratorState::AwaitingImage { name, description, hp, atk, def } => match outcome {
            UploadOutcome::Succeeded { url } => {
                let payload = build_metadata_json(
                    name.as_str(),
                    description.as_str(),
                    url.as_str(),
                    hp,
                    atk,
                    def,
                );
                (
                    OrchestratorState::AwaitingMetadata,
                    OrchestratorAction::Upload {
                        payload,
                        content_type: String::from_str("application/json"),
                    },
                )
            },
            UploadOutcome::Failed { error } => (
                OrchestratorState::Failed { error },
                OrchestratorAction::Stop,
            ),
        },
        OrchestratorState::AwaitingMetadata => match outcome {
            UploadOutcome::Succeeded { url } => (
                OrchestratorState::Done { url },
                OrchestratorAction::Stop,
            ),
            UploadOutcome::Failed { error } => (
                OrchestratorState::Failed { error },
                OrchestratorAction::Stop,
            ),
        },
        OrchestratorState::Done { url } => (
            OrchestratorState::Done { url },
            OrchestratorAction::Stop,
        ),
        OrchestratorState::Failed { error } => (
            OrchestratorState::Failed { error },
            OrchestratorAction::Stop,
        ),
    }
}

} // verus!
