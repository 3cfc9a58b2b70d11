//! Message protocol between the interface and the generation backend.
//!
//! Version 1.0. Messages travel as MessagePack over ZeroMQ (request-reply
//! for requests and responses, publish-subscribe for progress updates);
//! encoding and transport belong to the binary. Floating-point fields are
//! carried as the IEEE-754 bits of their `f32` values.

use vstd::prelude::*;
use crate::text::{decimal, push_char, push_decimal, push_str};

verus! {

/// Request from the interface to the backend.
#[derive(Debug)]
pub enum Request {
    /// Generate a single sprite.
    Generate {
        id: String,
        prompt: String,
        model: String,
        lora: Option<String>,
        size: (u32, u32),
        steps: u32,
        /// CFG scale, as the bits of an `f32`.
        cfg_scale: u32,
    },
    /// Cancel a running job.
    Cancel { job_id: String },
    /// List available models.
    ListModels,
    /// Get backend status.
    Status,
    /// Health check.
    Ping,
}

/// Response from the backend.
#[derive(Debug, Clone, PartialEq)]
pub enum Response {
    /// Job accepted and queued (estimate as `f32` bits).
    JobAccepted { job_id: String, estimated_time_s: u32 },
    /// Job completed successfully (duration as `f32` bits).
    JobComplete { job_id: String, image_path: String, duration_s: u32 },
    /// Job failed.
    JobError { job_id: String, error: String },
    /// Job cancelled.
    JobCancelled { job_id: String },
    /// Available models.
    ModelList { models: Vec<ModelInfo> },
    /// Backend status.
    StatusInfo { version: String, queue_size: u32, active_jobs: u32, uptime_s: u64 },
    /// Answer to a ping.
    Pong,
    /// Generic error.
    Error { message: String },
}

/// Model information.
#[derive(Debug, Clone, PartialEq)]
pub struct ModelInfo {
    pub name: String,
    pub path: String,
    pub model_type: ModelType,
    pub size_mb: u64,
}

/// Kind of model file.
#[derive(Debug, Clone, Copy, PartialEq, Eq)]
pub enum ModelType {
    Checkpoint,
    Lora,
    Vae,
}

/// Progress update published by the backend.
#[derive(Debug, Clone, PartialEq)]
pub enum ProgressUpdate {
    /// Job started.
    JobStarted { job_id: String, timestamp: u64 },
    /// Generation progress (`percent` and `eta_s` as `f32` bits).
    Progress { job_id: String, stage: GenerationStage, step: u32, total_steps: u32, percent: u32, eta_s: u32 },
    /// Preview image available.
    Preview { job_id: String, image_path: String, step: u32 },
    /// Job finished (duration as `f32` bits).
    JobFinished { job_id: String, success: bool, duration_s: u32 },
    /// Job complete (duration as `f32` bits).
    JobComplete { job_id: String, image_path: String, duration_s: u32 },
}

/// Stage of a generation.
#[derive(Debug, Clone, Copy, PartialEq, Eq)]
pub enum GenerationStage {
    Initializing,
    LoadingModels,
    Encoding,
    Sampling,
    Decoding,
    PostProcessing,
}

/// Protocol version.
pub const PROTOCOL_VERSION: &'static str = "1.0.0";

/// Default request-reply port.
pub const DEFAULT_REQ_REP_PORT: u16 = 5555;

/// Default publish-subscribe port.
pub const DEFAULT_PUB_SUB_PORT: u16 = 5556;

/// Default request-reply address.
pub const DEFAULT_REQ_REP_ADDR: &'static str = "tcp://127.0.0.1:5555";

/// Default publish-subscribe address.
pub const DEFAULT_PUB_SUB_ADDR: &'static str = "tcp://127.0.0.1:5556";

/// Display name of a generation stage.
pub open spec fn stage_label(stage: GenerationStage) -> Seq<char> {
    match stage {
        GenerationStage::Initializing => "Initializing"@,
        GenerationStage::LoadingModels => "Loading Models"@,
        GenerationStage::Encoding => "Encoding Prompt"@,
        GenerationStage::Sampling => "Sampling"@,
        GenerationStage::Decoding => "Decoding Image"@,
        GenerationStage::PostProcessing => "Post-Processing"@,
    }
}

/// Stage text shown for a job: the stage's name, and for sampling also
/// "(Step s/t)".
pub open spec fn spec_format_stage(stage: GenerationStage, step: u32, total_steps: u32) -> Seq<char> {
    if stage == GenerationStage::Sampling {
        stage_label(stage) + " (Step "@ + decimal(step as nat) + "/"@ + decimal(total_steps as nat) + ")"@
    } else {
        stage_label(stage)
    }
}

/// Format a stage name for display with step information.
pub fn format_stage(stage: GenerationStage, step: u32, total_steps: u32) -> (r: String)
    ensures
        r@ == spec_format_stage(stage, step, total_steps),
{
    let label: &str = match stage {
        GenerationStage::Initializing => "Initializing",
        GenerationStage::LoadingModels => "Loading Models",
        GenerationStage::Encoding => "Encoding Prompt",
        GenerationStage::Sampling => "Sampling",
        GenerationStage::Decoding => "Decoding Image",
        GenerationStage::PostProcessing => "Post-Processing",
    };
    let mut r = String::from_str(label);
    match stage {
        GenerationStage::Sampling => {
            push_str(&mut r, " (Step ");
            push_decimal(&mut r, step as u128);
            push_char(&mut r, '/');
            push_decimal(&mut r, total_steps as u128);
            push_char(&mut r, ')');
            proof {
                reveal_strlit("/");
                reveal_strlit(")");
                assert(r@ =~= spec_format_stage(stage, step, total_steps));
            }
        }
        _ => {}
    }
    r
}

} // verus!
