//! Building the command that runs the transcription binary: which build of
//! it, which model, and the argument list.

use vstd::prelude::*;
use crate::decimal::{decimal_digits, push_decimal};
use crate::paths::{file_stem, join, parent, path_file_stem, path_join, path_parent};
use crate::settings::{
    clamp_threads, effective_thread_count, embedded_model, variant_named, AppSettings,
    OptimizationVariant,
};
use crate::text::chars_of;

verus! {

/// What keeps a job from starting.
#[derive(Clone, Debug, PartialEq, Eq)]
pub enum JobError {
    /// A path that the job needs is not configured.
    Configuration,
    /// The model is not where it should be.
    ResourceNotFound { path: String },
    /// The name of the model has no stem to derive file names from.
    InvalidModelName,
    /// The binary could not be started, for the reason given.
    ProcessSpawn { reason: String },
    /// A job is running already.
    AlreadyRunning,
}

/// One of the builds of the transcription binary.
#[derive(Clone, Copy, Debug, PartialEq, Eq)]
pub enum ExecutableId {
    Base,
    Vulkan,
    CoreML,
    Cuda,
}

/// The build that runs a job with the given optimization.
pub open spec fn executable_for(optimization: OptimizationVariant) -> ExecutableId {
    match optimization {
        OptimizationVariant::Baseline => ExecutableId::Base,
        OptimizationVariant::Vulkan => ExecutableId::Vulkan,
        OptimizationVariant::CoreML => ExecutableId::CoreML,
        OptimizationVariant::Cuda => ExecutableId::Cuda,
    }
}

/// Selects the build for a job.
///
/// The configured optimization alone decides. Whether compiled Core ML
/// models were found is known to the caller for its log; it overrides
/// nothing, so that no optimization means the base build even where such
/// models are present.
pub fn select_variant(optimization: OptimizationVariant, coreml_probe_result: bool) -> (id:
    ExecutableId)
    ensures
        id == executable_for(optimization),
{
    match optimization {
        OptimizationVariant::Baseline => ExecutableId::Base,
        OptimizationVariant::Vulkan => ExecutableId::Vulkan,
        OptimizationVariant::CoreML => ExecutableId::CoreML,
        OptimizationVariant::Cuda => ExecutableId::Cuda,
    }
}

impl ExecutableId {
    /// The name under which the build is installed.
    pub open spec fn name_text(self) -> Seq<char> {
        match self {
            ExecutableId::Base => "whisper-cli"@,
            ExecutableId::Vulkan => "whisper-cli-vulkan"@,
            ExecutableId::CoreML => "whisper-cli-coreml"@,
            ExecutableId::Cuda => "whisper-cli-cuda"@,
        }
    }

    /// The name under which the build is installed.
    pub fn name(self) -> (s: String)
        ensures
            s@ == self.name_text(),
    {
        match self {
            ExecutableId::Base => "whisper-cli".to_owned(),
            ExecutableId::Vulkan => "whisper-cli-vulkan".to_owned(),
            ExecutableId::CoreML => "whisper-cli-coreml".to_owned(),
            ExecutableId::Cuda => "whisper-cli-cuda".to_owned(),
        }
    }
}

/// Where a model comes from.
#[derive(Clone, Copy, Debug, PartialEq, Eq)]
pub enum ModelSource {
    /// Shipped with the application, among its resources.
    Embedded,
    /// Downloaded by the user into the models directory.
    External,
}

/// The model of a job: resolved once, when the job starts.
#[derive(Clone, Debug, PartialEq, Eq)]
pub struct ModelResolution {
    pub path: String,
    pub source: ModelSource,
}

/// Location of the embedded model among the resources of the application.
pub open spec fn embedded_model_resource() -> Seq<char> {
    "resources/ggml-tiny-q5_1.bin"@
}

/// Location of the voice activity detection model among the resources.
pub open spec fn vad_model_resource() -> Seq<char> {
    "resources/ggml-silero-v5.1.2.bin"@
}

/// Location of the embedded model among the resources of the application.
pub fn embedded_model_location() -> (s: String)
    ensures
        s@ == embedded_model_resource(),
{
    "resources/ggml-tiny-q5_1.bin".to_owned()
}

/// Location of the voice activity detection model among the resources.
pub fn vad_model_location() -> (s: String)
    ensures
        s@ == vad_model_resource(),
{
    "resources/ggml-silero-v5.1.2.bin".to_owned()
}

/// Where the settings say the model is.
///
/// The embedded model is named by its location among the resources, which
/// the host turns into a path. Any other model is the file of that name in
/// the models directory; without such a directory the settings are
/// incomplete.
pub fn locate_model(settings: &AppSettings) -> (r: Result<ModelResolution, JobError>)
    ensures
        settings.whisper_model@ == embedded_model() ==> (r matches Ok(m) && m.source
            == ModelSource::Embedded && m.path@ == embedded_model_resource()),
        settings.whisper_model@ != embedded_model() ==> match settings.whisper_models_path {
            Some(dir) => r matches Ok(m) && m.source == ModelSource::External && m.path@
                == path_join(dir@, settings.whisper_model@),
            None => r matches Err(e) && e is Configuration,
        },
{
    if settings.uses_embedded_model() {
        Ok(ModelResolution { path: embedded_model_location(), source: ModelSource::Embedded })
    } else {
        match &settings.whisper_models_path {
            Some(dir) => Ok(
                ModelResolution {
                    path: join(dir.as_str(), settings.whisper_model.as_str()),
                    source: ModelSource::External,
                },
            ),
            None => Err(JobError::Configuration),
        }
    }
}

/// Settles the model of a job once the host has looked for its file.
///
/// The model is resolved if its file exists, and not found otherwise.
pub fn resolve_model(path: String, source: ModelSource, exists: bool) -> (r: Result<
    ModelResolution,
    JobError,
>)
    ensures
        exists ==> (r matches Ok(m) && m.path == path && m.source == source),
        !exists ==> (r matches Err(e) && e == (JobError::ResourceNotFound { path })),
{
    if exists {
        Ok(ModelResolution { path, source })
    } else {
        Err(JobError::ResourceNotFound { path })
    }
}

/// The arguments that follow the name of the binary, in their fixed order:
/// model, input, subtitle output, language, progress reporting, then voice
/// activity detection with its model if it is on, then the switch that
/// turns the GPU off if it is to be off, then the number of threads.
pub open spec fn arguments(
    model_path: Seq<char>,
    audio_path: Seq<char>,
    language: Seq<char>,
    vad_model: Option<Seq<char>>,
    disable_gpu: bool,
    thread_count: u32,
) -> Seq<Seq<char>> {
    seq![
        "--model"@,
        model_path,
        "--file"@,
        audio_path,
        "--output-srt"@,
        "--language"@,
        language,
        "--print-progress"@,
    ] + match vad_model {
        Some(path) => seq!["--vad"@, "--vad-model"@, path],
        None => seq![],
    } + if disable_gpu {
        seq!["--no-gpu"@]
    } else {
        seq![]
    } + seq!["--threads"@, decimal_digits(clamp_threads(thread_count) as nat)]
}

/// Builds the argument list of a job.
///
/// `vad_model` is the path of the voice activity detection model if
/// detection is on. The thread count is brought into its range.
pub fn build_args(
    model_path: &str,
    audio_path: &str,
    language: &str,
    vad_model: Option<&str>,
    disable_gpu: bool,
    thread_count: u32,
) -> (args: Vec<String>)
    ensures
        args.deep_view() == arguments(
            model_path@,
            audio_path@,
            language@,
            match vad_model {
                Some(p) => Some(p@),
                None => None,
            },
            disable_gpu,
            thread_count,
        ),
{
    let mut args: Vec<String> = Vec::new();
    args.push("--model".to_owned());
    args.push(model_path.to_owned());
    args.push("--file".to_owned());
    args.push(audio_path.to_owned());
    args.push("--output-srt".to_owned());
    args.push("--language".to_owned());
    args.push(language.to_owned());
    args.push("--print-progress".to_owned());
    assert(args.deep_view() =~= seq![
        "--model"@,
        model_path@,
        "--file"@,
        audio_path@,
        "--output-srt"@,
        "--language"@,
        language@,
        "--print-progress"@,
    ]);
    let ghost head = args.deep_view();
    let ghost vad = match vad_model {
        Some(p) => seq!["--vad"@, "--vad-model"@, p@],
        None => seq![],
    };
    match vad_model {
        Some(p) => {
            args.push("--vad".to_owned());
            args.push("--vad-model".to_owned());
            args.push(p.to_owned());
        },
        None => {},
    }
    assert(args.deep_view() =~= head + vad);
    let ghost gpu = if disable_gpu {
        seq!["--no-gpu"@]
    } else {
        seq![]
    };
    if disable_gpu {
        args.push("--no-gpu".to_owned());
    }
    assert(args.deep_view() =~= head + vad + gpu);
    let mut threads = String::new();
    push_decimal(&mut threads, effective_thread_count(thread_count) as u64);
    assert(threads@ =~= decimal_digits(clamp_threads(thread_count) as nat));
    args.push("--threads".to_owned());
    args.push(threads);
    assert(args.deep_view() =~= head + vad + gpu + seq![
        "--threads"@,
        decimal_digits(clamp_threads(thread_count) as nat),
    ]);
    args
}

/// The name of the log of a run, from the stem of the file it is about.
pub open spec fn log_name_for(stem: Seq<char>) -> Seq<char> {
    stem + "_log.txt"@
}

/// The name of the log of a run, from the stem of the file it is about.
pub fn log_file_name(stem: &str) -> (name: String)
    ensures
        name@ == log_name_for(stem@),
{
    stem.to_owned().concat("_log.txt")
}

/// The stem that names what is made from a media file: that of the file,
/// or `audio` where the path has none.
pub open spec fn media_stem_of(path: Seq<char>) -> Seq<char> {
    match path_file_stem(path) {
        Some(stem) => stem,
        None => "audio"@,
    }
}

/// The stem that names what is made from a media file.
pub fn media_stem(path: &str) -> (stem: String)
    ensures
        stem@ == media_stem_of(path@),
{
    match file_stem(path) {
        Some(stem) => stem,
        None => "audio".to_owned(),
    }
}

/// Where the log of a run on `audio_path` is kept: beside the audio, or in
/// the current directory where the path names no directory.
pub open spec fn log_path_for(audio_path: Seq<char>) -> Seq<char> {
    path_join(
        match path_parent(audio_path) {
            Some(dir) => dir,
            None => "."@,
        },
        log_name_for(media_stem_of(audio_path)),
    )
}

/// Where the log of a run on `audio_path` is kept.
pub fn log_path(audio_path: &str) -> (path: String)
    ensures
        path@ == log_path_for(audio_path@),
{
    let dir = match parent(audio_path) {
        Some(dir) => dir,
        None => ".".to_owned(),
    };
    let stem = media_stem(audio_path);
    let name = log_file_name(stem.as_str());
    join(dir.as_str(), name.as_str())
}

/// What a job is to do. Nothing of it changes once the job has started.
#[derive(Clone, Debug, PartialEq, Eq)]
pub struct JobSpec {
    /// The audio to transcribe.
    pub audio_path: String,
    /// How long the audio lasts, in milliseconds, where that is known.
    pub total_ms: Option<u64>,
    /// The language of the audio, or `auto`.
    pub language: String,
    /// The model to transcribe with.
    pub model: ModelResolution,
    /// The build of the binary to run.
    pub optimization: OptimizationVariant,
    /// The model for voice activity detection, if detection is on.
    pub vad_model: Option<String>,
    /// Whether the GPU is to be left unused.
    pub disable_gpu: bool,
    /// The number of threads, from one to eight.
    pub thread_count: u32,
}

impl JobSpec {
    /// The thread count is within its range.
    pub open spec fn wf(self) -> bool {
        crate::settings::MIN_THREADS <= self.thread_count <= crate::settings::MAX_THREADS
    }

    /// The arguments of the job, as sequences of characters.
    pub open spec fn arguments(self) -> Seq<Seq<char>> {
        arguments(
            self.model.path@,
            self.audio_path@,
            self.language@,
            match self.vad_model {
                Some(p) => Some(p@),
                None => None,
            },
            self.disable_gpu,
            self.thread_count,
        )
    }

    /// The job that the settings ask for.
    ///
    /// `vad_model` is where the host found the model for voice activity
    /// detection. It is used only if the settings turn detection on; if
    /// they do and the host found none, the job cannot be run.
    pub fn new(
        settings: &AppSettings,
        audio_path: String,
        total_ms: Option<u64>,
        model: ModelResolution,
        vad_model: Option<String>,
    ) -> (r: Result<JobSpec, JobError>)
        ensures
            settings.enable_vad && vad_model is None ==> (r matches Err(e) && e matches JobError::ResourceNotFound {
                path,
            } && path@ == vad_model_resource()),
            !(settings.enable_vad && vad_model is None) ==> (r matches Ok(job) && {
                &&& job.wf()
                &&& job.audio_path == audio_path
                &&& job.total_ms == total_ms
                &&& job.language@ == settings.whisper_language@
                &&& job.model == model
                &&& job.optimization == variant_named(settings.whisper_optimization@)
                &&& job.vad_model == if settings.enable_vad {
                    vad_model
                } else {
                    None
                }
                &&& job.disable_gpu == settings.disable_gpu
                &&& job.thread_count == clamp_threads(settings.thread_count)
            }),
    {
        let vad_model = if settings.enable_vad {
            match vad_model {
                Some(path) => Some(path),
                None => {
                    return Err(JobError::ResourceNotFound { path: vad_model_location() });
                },
            }
        } else {
            None
        };
        Ok(
            JobSpec {
                audio_path,
                total_ms,
                language: settings.whisper_language.clone(),
                model,
                optimization: settings.optimization(),
                vad_model,
                disable_gpu: settings.disable_gpu,
                thread_count: settings.threads(),
            },
        )
    }

    /// The build of the binary that runs the job.
    pub fn executable(&self) -> (id: ExecutableId)
        ensures
            id == executable_for(self.optimization),
    {
        select_variant(self.optimization, false)
    }

    /// The argument list of the job.
    pub fn args(&self) -> (args: Vec<String>)
        ensures
            args.deep_view() == self.arguments(),
    {
        let vad: Option<&str> = match &self.vad_model {
            Some(p) => Some(p.as_str()),
            None => None,
        };
        build_args(
            self.model.path.as_str(),
            self.audio_path.as_str(),
            self.language.as_str(),
            vad,
            self.disable_gpu,
            self.thread_count,
        )
    }

    /// The command of the job on one line, for the log.
    pub fn command_line(&self) -> (line: String)
        ensures
            line@ == command_line(executable_for(self.optimization).name_text(), self.arguments()),
    {
        let args = self.args();
        let name = self.executable().name();
        format_cmd_with_args(name.as_str(), args.as_slice())
    }

    /// Where the log of the job is kept.
    pub fn log_path(&self) -> (path: String)
        ensures
            path@ == log_path_for(self.audio_path@),
    {
        log_path(self.audio_path.as_str())
    }
}

/// `text` with a backslash before each double quote.
pub open spec fn escape_quotes(text: Seq<char>) -> Seq<char>
    decreases text.len(),
{
    if text.len() == 0 {
        Seq::empty()
    } else if text.last() == '"' {
        escape_quotes(text.drop_last()) + seq!['\\', '"']
    } else {
        escape_quotes(text.drop_last()).push(text.last())
    }
}

/// An argument as it is shown in a command line: as it is, unless it holds
/// a space or a double quote; then between double quotes, its own double
/// quotes escaped.
pub open spec fn shown(arg: Seq<char>) -> Seq<char> {
    if arg.contains(' ') || arg.contains('"') {
        seq!['"'] + escape_quotes(arg) + seq!['"']
    } else {
        arg
    }
}

/// The command and its arguments as shown, with one space between them.
pub open spec fn command_line(cmd: Seq<char>, args: Seq<Seq<char>>) -> Seq<char>
    decreases args.len(),
{
    if args.len() == 0 {
        cmd
    } else {
        command_line(cmd, args.drop_last()) + seq![' '] + shown(args.last())
    }
}

/// Appends `arg` to `out` as it is shown in a command line.
fn push_shown(out: &mut String, arg: &str)
    ensures
        final(out)@ == old(out)@ + shown(arg@),
{
    let v = chars_of(arg);
    let mut special = false;
    let mut i: usize = 0;
    while i < v.len()
        invariant
            i <= v.len(),
            special == exists|j: int| 0 <= j < i && (v@[j] == ' ' || v@[j] == '"'),
        decreases v.len() - i,
    {
        if v[i] == ' ' || v[i] == '"' {
            special = true;
        }
        i += 1;
    }
    assert(special == (v@.contains(' ') || v@.contains('"')));
    if !special {
        out.append(arg);
        return ;
    }
    out.push('"');
    let mut k: usize = 0;
    assert(v@.take(0) =~= Seq::<char>::empty());
    while k < v.len()
        invariant
            k <= v.len(),
            out@ == old(out)@ + seq!['"'] + escape_quotes(v@.take(k as int)),
        decreases v.len() - k,
    {
        proof {
            assert(v@.take(k + 1).drop_last() =~= v@.take(k as int));
        }
        if v[k] == '"' {
            out.push('\\');
            out.push('"');
            assert(out@ =~= old(out)@ + seq!['"'] + (escape_quotes(v@.take(k as int)) + seq![
                '\\',
                '"',
            ]));
        } else {
            out.push(v[k]);
            assert(out@ =~= old(out)@ + seq!['"'] + escape_quotes(v@.take(k as int)).push(
                v@[k as int],
            ));
        }
        k += 1;
    }
    assert(v@.take(v.len() as int) =~= v@);
    out.push('"');
    assert(out@ =~= old(out)@ + (seq!['"'] + escape_quotes(v@) + seq!['"']));
}

/// Writes a command and its arguments on one line, for the log.
///
/// The command is written as it is. Each argument follows a space; one that
/// holds a space or a double quote is put between double quotes, with a
/// backslash before each double quote of its own.
pub fn format_cmd_with_args(cmd: &str, args: &[String]) -> (line: String)
    ensures
        line@ == command_line(cmd@, args.deep_view()),
{
    let mut line = cmd.to_owned();
    let ghost all = args.deep_view();
    let mut i: usize = 0;
    assert(all.take(0) =~= Seq::<Seq<char>>::empty());
    while i < args.len()
        invariant
            i <= args.len(),
            all == args.deep_view(),
            line@ == command_line(cmd@, all.take(i as int)),
        decreases args.len() - i,
    {
        proof {
            assert(all.take(i + 1).drop_last() =~= all.take(i as int));
            assert(all.take(i + 1).last() == args[i as int]@);
        }
        line.push(' ');
        push_shown(&mut line, args[i].as_str());
        assert(line@ =~= command_line(cmd@, all.take(i as int)) + seq![' '] + shown(
            args[i as int]@,
        ));
        i += 1;
    }
    assert(all.take(args.len() as int) =~= all);
    line
}

/// The stem of a model file: its name without the extension.
pub fn model_stem(model_name: &str) -> (stem: Option<String>)
    ensures
        match stem {
            Some(s) => path_file_stem(model_name@) == Some(s@),
            None => path_file_stem(model_name@) is None,
        },
{
    file_stem(model_name)
}

/// The names under which a compiled Core ML model of the given stem may
/// stand beside the model, in the order in which they are tried.
pub open spec fn coreml_names_for(stem: Seq<char>) -> Seq<Seq<char>> {
    seq![stem + ".compiled"@, stem + "-encoder.compiled"@, stem + "-decoder.compiled"@]
}

/// The directory names of a compiled Core ML model for a model file of the
/// given stem, in the order in which they are tried.
pub fn coreml_names(stem: &str) -> (names: Vec<String>)
    ensures
        names.deep_view() == coreml_names_for(stem@),
{
    let mut names: Vec<String> = Vec::new();
    names.push(stem.to_owned().concat(".compiled"));
    names.push(stem.to_owned().concat("-encoder.compiled"));
    names.push(stem.to_owned().concat("-decoder.compiled"));
    assert(names.deep_view() =~= coreml_names_for(stem@));
    names
}

/// The paths at which a compiled Core ML model of the given stem may stand:
/// each name of `coreml_names_for` in the models directory.
pub open spec fn coreml_paths_for(models_dir: Seq<char>, stem: Seq<char>) -> Seq<Seq<char>> {
    seq![
        path_join(models_dir, coreml_names_for(stem)[0]),
        path_join(models_dir, coreml_names_for(stem)[1]),
        path_join(models_dir, coreml_names_for(stem)[2]),
    ]
}

/// The paths to try for a compiled Core ML model, given the stem of the
/// model file: each name of [`coreml_names`] in the models directory.
pub fn coreml_paths(models_dir: &str, stem: &str) -> (paths: Vec<String>)
    ensures
        paths.deep_view() == coreml_paths_for(models_dir@, stem@),
{
    let names = coreml_names(stem);
    assert(names.deep_view().len() == names.len());
    assert(names.deep_view()[0] == names[0]@);
    assert(names.deep_view()[1] == names[1]@);
    assert(names.deep_view()[2] == names[2]@);
    let mut paths: Vec<String> = Vec::new();
    paths.push(join(models_dir, names[0].as_str()));
    paths.push(join(models_dir, names[1].as_str()));
    paths.push(join(models_dir, names[2].as_str()));
    assert(paths.deep_view() =~= coreml_paths_for(models_dir@, stem@));
    paths
}

/// The paths to try for a compiled Core ML model of `model_name`.
///
/// The embedded model has none. For another model a models directory must
/// be configured and the name must have a stem.
pub fn coreml_candidates(models_dir: Option<&str>, model_name: &str) -> (r: Result<
    Vec<String>,
    JobError,
>)
    ensures
        model_name@ == embedded_model() ==> (r matches Ok(paths) && paths@.len() == 0),
        model_name@ != embedded_model() ==> match (models_dir, path_file_stem(model_name@)) {
            (None, _) => r matches Err(e) && e is Configuration,
            (Some(_), None) => r matches Err(e) && e is InvalidModelName,
            (Some(dir), Some(stem)) => r matches Ok(paths) && paths.deep_view()
                == coreml_paths_for(dir@, stem),
        },
{
    if crate::text::same_text(model_name, "ggml-tiny-q5_1.bin") {
        return Ok(Vec::new());
    }
    let dir = match models_dir {
        Some(d) => d,
        None => {
            return Err(JobError::Configuration);
        },
    };
    match model_stem(model_name) {
        Some(stem) => Ok(coreml_paths(dir, stem.as_str())),
        None => Err(JobError::InvalidModelName),
    }
}

/// Whether a compiled Core ML model is present, given for each candidate
/// path in turn whether a directory stands there.
pub fn coreml_found(present: &[bool]) -> (found: bool)
    ensures
        found == present@.contains(true),
{
    let mut i: usize = 0;
    while i < present.len()
        invariant
            i <= present.len(),
            forall|j: int| 0 <= j < i ==> !present@[j],
        decreases present.len() - i,
    {
        if present[i] {
            return true;
        }
        i += 1;
    }
    false
}

} // verus!
