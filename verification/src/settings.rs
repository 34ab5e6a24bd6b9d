//! Application settings and the defaults that stand in for absent ones.

use vstd::prelude::*;
use crate::text::same_text;

verus! {

/// Name of the model that ships with the application.
pub open spec fn embedded_model() -> Seq<char> {
    "ggml-tiny-q5_1.bin"@
}

/// Fewest threads a job is run with.
pub const MIN_THREADS: u32 = 1;

/// Most threads a job is run with.
pub const MAX_THREADS: u32 = 8;

/// Language handed to the transcription binary when the settings name none.
pub fn default_whisper_language() -> (s: String)
    ensures
        s@ == "auto"@,
{
    "auto".to_owned()
}

/// Locale of the user interface when the settings name none.
pub fn default_app_locale() -> (s: String)
    ensures
        s@ == "zh-CN"@,
{
    "zh-CN".to_owned()
}

/// Model used when the settings name none: the embedded one.
pub fn default_whisper_model() -> (s: String)
    ensures
        s@ == embedded_model(),
{
    "ggml-tiny-q5_1.bin".to_owned()
}

/// Optimization used when the settings name none.
pub fn default_whisper_optimization() -> (s: String)
    ensures
        s@ == "none"@,
{
    "none".to_owned()
}

/// Thread count used when the settings name none.
pub fn default_thread_count() -> (n: u32)
    ensures
        n == 4,
{
    4
}

/// What the user has configured.
#[derive(Clone, Debug)]
pub struct AppSettings {
    /// Directory that holds downloaded models.
    pub whisper_models_path: Option<String>,
    /// Locale of the user interface.
    pub app_locale: String,
    /// Language of the audio, or `auto`.
    pub whisper_language: String,
    /// File name of the model to use.
    pub whisper_model: String,
    /// Whether voice activity detection is on.
    pub enable_vad: bool,
    /// One of `none`, `vulkan`, `coreml`, `cuda`.
    pub whisper_optimization: String,
    /// Whether the GPU is left unused.
    pub disable_gpu: bool,
    /// Requested number of threads.
    pub thread_count: u32,
}

impl Default for AppSettings {
    fn default() -> (s: Self)
        ensures
            s.whisper_models_path is None,
            s.app_locale@ == "zh-CN"@,
            s.whisper_language@ == "auto"@,
            s.whisper_model@ == embedded_model(),
            !s.enable_vad,
            s.whisper_optimization@ == "none"@,
            !s.disable_gpu,
            s.thread_count == 4,
    {
        AppSettings {
            whisper_models_path: None,
            app_locale: default_app_locale(),
            whisper_language: default_whisper_language(),
            whisper_model: default_whisper_model(),
            enable_vad: false,
            whisper_optimization: default_whisper_optimization(),
            disable_gpu: false,
            thread_count: default_thread_count(),
        }
    }
}

impl AppSettings {
    /// Whether the settings select the model that ships with the application.
    pub fn uses_embedded_model(&self) -> (b: bool)
        ensures
            b == (self.whisper_model@ == embedded_model()),
    {
        same_text(self.whisper_model.as_str(), "ggml-tiny-q5_1.bin")
    }

    /// The optimization that the settings select.
    pub fn optimization(&self) -> (v: OptimizationVariant)
        ensures
            v == variant_named(self.whisper_optimization@),
    {
        OptimizationVariant::from_name(self.whisper_optimization.as_str())
    }

    /// The number of threads that a job is run with.
    pub fn threads(&self) -> (n: u32)
        ensures
            n == clamp_threads(self.thread_count),
    {
        effective_thread_count(self.thread_count)
    }
}

/// The build of the transcription binary that a job asks for.
#[derive(Clone, Copy, Debug, PartialEq, Eq)]
pub enum OptimizationVariant {
    /// No optimization: the base build.
    Baseline,
    Vulkan,
    CoreML,
    Cuda,
}

/// The variant that a configured name selects. A name that is none of
/// `coreml`, `vulkan` and `cuda` selects no optimization.
pub open spec fn variant_named(name: Seq<char>) -> OptimizationVariant {
    if name == "coreml"@ {
        OptimizationVariant::CoreML
    } else if name == "vulkan"@ {
        OptimizationVariant::Vulkan
    } else if name == "cuda"@ {
        OptimizationVariant::Cuda
    } else {
        OptimizationVariant::Baseline
    }
}

impl OptimizationVariant {
    /// Reads a variant from its configured name.
    pub fn from_name(name: &str) -> (v: Self)
        ensures
            v == variant_named(name@),
    {
        if same_text(name, "coreml") {
            OptimizationVariant::CoreML
        } else if same_text(name, "vulkan") {
            OptimizationVariant::Vulkan
        } else if same_text(name, "cuda") {
            OptimizationVariant::Cuda
        } else {
            OptimizationVariant::Baseline
        }
    }
}

/// A thread count brought into the range from `MIN_THREADS` to `MAX_THREADS`.
pub open spec fn clamp_threads(n: u32) -> u32 {
    if n < MIN_THREADS {
        MIN_THREADS
    } else if n > MAX_THREADS {
        MAX_THREADS
    } else {
        n
    }
}

/// The number of threads a job is run with when `requested` are asked for.
pub fn effective_thread_count(requested: u32) -> (n: u32)
    ensures
        n == clamp_threads(requested),
        MIN_THREADS <= n <= MAX_THREADS,
{
    if requested < MIN_THREADS {
        MIN_THREADS
    } else if requested > MAX_THREADS {
        MAX_THREADS
    } else {
        requested
    }
}

} // verus!
