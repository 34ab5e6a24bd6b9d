use murmur::command::{
    build_args, coreml_candidates, coreml_found, coreml_names, coreml_paths,
    embedded_model_location, format_cmd_with_args, locate_model, log_file_name, log_path,
    media_stem, model_stem, resolve_model, select_variant, vad_model_location, ExecutableId,
    JobError, JobSpec, ModelResolution, ModelSource,
};
use murmur::paths::{extension, extension_of, file_stem, stem_of};
use murmur::settings::{AppSettings, OptimizationVariant};

fn strings(items: &[&str]) -> Vec<String> {
    items.iter().map(|s| s.to_string()).collect()
}

#[test]
fn test_model_stem_extraction() {
    let test_cases = vec![
        ("ggml-large-v3.bin", "ggml-large-v3"),
        ("ggml-large-v3-turbo.bin", "ggml-large-v3-turbo"),
        ("model.ggml", "model"),
        ("test-model.bin", "test-model"),
    ];

    for (input, expected) in test_cases {
        let stem = model_stem(input).unwrap();
        assert_eq!(stem, expected, "Failed for input: {}", input);
    }
}

#[test]
fn test_coreml_path_construction() {
    let model_dir = "/path/to/models";
    let model_name = "ggml-large-v3.bin";

    let possible_paths = coreml_candidates(Some(model_dir), model_name).unwrap();

    let expected_paths = vec![
        std::path::Path::new("/path/to/models/ggml-large-v3.compiled"),
        std::path::Path::new("/path/to/models/ggml-large-v3-encoder.compiled"),
        std::path::Path::new("/path/to/models/ggml-large-v3-decoder.compiled"),
    ];

    assert_eq!(possible_paths.len(), expected_paths.len());
    for (actual, expected) in possible_paths.iter().zip(expected_paths.iter()) {
        assert_eq!(std::path::Path::new(actual), *expected);
    }
}

#[test]
fn model_stem_of_a_name_without_one() {
    assert_eq!(model_stem(""), None);
    assert_eq!(model_stem(".."), None);
    assert_eq!(model_stem("plain"), Some("plain".to_string()));
    assert_eq!(model_stem(".hidden"), Some(".hidden".to_string()));
    assert_eq!(model_stem("dir/a.b.c"), Some("a.b".to_string()));
}

#[test]
fn coreml_names_in_the_order_tried() {
    assert_eq!(
        coreml_names("ggml-base"),
        strings(&[
            "ggml-base.compiled",
            "ggml-base-encoder.compiled",
            "ggml-base-decoder.compiled"
        ])
    );
}

#[test]
fn coreml_candidates_of_the_embedded_model_are_none() {
    assert_eq!(coreml_candidates(Some("/models"), "ggml-tiny-q5_1.bin"), Ok(Vec::new()));
    assert_eq!(coreml_candidates(None, "ggml-tiny-q5_1.bin"), Ok(Vec::new()));
}

#[test]
fn coreml_candidates_need_a_directory_and_a_stem() {
    assert_eq!(coreml_candidates(None, "ggml-base.bin"), Err(JobError::Configuration));
    assert_eq!(coreml_candidates(Some("/models"), ".."), Err(JobError::InvalidModelName));
    assert_eq!(coreml_candidates(Some("/models"), ""), Err(JobError::InvalidModelName));
}

#[test]
fn coreml_found_if_any_candidate_is_present() {
    assert!(!coreml_found(&[]));
    assert!(!coreml_found(&[false, false, false]));
    assert!(coreml_found(&[true, false, false]));
    assert!(coreml_found(&[false, true, false]));
    assert!(coreml_found(&[false, false, true]));
}

#[test]
fn variant_follows_the_configured_optimization() {
    for probe in [false, true] {
        assert_eq!(select_variant(OptimizationVariant::Baseline, probe), ExecutableId::Base);
        assert_eq!(select_variant(OptimizationVariant::Vulkan, probe), ExecutableId::Vulkan);
        assert_eq!(select_variant(OptimizationVariant::CoreML, probe), ExecutableId::CoreML);
        assert_eq!(select_variant(OptimizationVariant::Cuda, probe), ExecutableId::Cuda);
    }
}

#[test]
fn executable_names() {
    assert_eq!(ExecutableId::Base.name(), "whisper-cli");
    assert_eq!(ExecutableId::Vulkan.name(), "whisper-cli-vulkan");
    assert_eq!(ExecutableId::CoreML.name(), "whisper-cli-coreml");
    assert_eq!(ExecutableId::Cuda.name(), "whisper-cli-cuda");
}

#[test]
fn arguments_in_their_fixed_order() {
    let args = build_args("/m/model.bin", "/a/in.wav", "auto", None, false, 4);
    assert_eq!(
        args,
        strings(&[
            "--model",
            "/m/model.bin",
            "--file",
            "/a/in.wav",
            "--output-srt",
            "--language",
            "auto",
            "--print-progress",
            "--threads",
            "4"
        ])
    );
}

#[test]
fn arguments_with_every_option() {
    let args = build_args("m.bin", "in.wav", "en", Some("/r/vad.bin"), true, 2);
    assert_eq!(
        args,
        strings(&[
            "--model",
            "m.bin",
            "--file",
            "in.wav",
            "--output-srt",
            "--language",
            "en",
            "--print-progress",
            "--vad",
            "--vad-model",
            "/r/vad.bin",
            "--no-gpu",
            "--threads",
            "2"
        ])
    );
}

#[test]
fn arguments_without_gpu_only() {
    let args = build_args("m.bin", "in.wav", "de", None, true, 8);
    assert_eq!(args[8..], strings(&["--no-gpu", "--threads", "8"])[..]);
    assert_eq!(args.len(), 11);
}

#[test]
fn thread_count_is_clamped_in_arguments() {
    let last = |n: u32| build_args("m", "a", "auto", None, false, n).pop().unwrap();
    assert_eq!(last(0), "1");
    assert_eq!(last(1), "1");
    assert_eq!(last(5), "5");
    assert_eq!(last(8), "8");
    assert_eq!(last(9), "8");
    assert_eq!(last(u32::MAX), "8");
}

#[test]
fn command_line_quotes_what_needs_it() {
    let args = strings(&["-i", "my file.mp4", "say \"hi\"", "plain", ""]);
    assert_eq!(
        format_cmd_with_args("ffmpeg", &args),
        "ffmpeg -i \"my file.mp4\" \"say \\\"hi\\\"\" plain "
    );
}

#[test]
fn command_line_without_arguments_is_the_command() {
    assert_eq!(format_cmd_with_args("ffmpeg", &[]), "ffmpeg");
    assert_eq!(format_cmd_with_args("my tool", &[]), "my tool");
}

#[test]
fn command_line_quotes_a_quote_without_space() {
    assert_eq!(format_cmd_with_args("x", &strings(&["a\"b"])), "x \"a\\\"b\"");
    assert_eq!(format_cmd_with_args("x", &strings(&["-version"])), "x -version");
}

#[test]
fn embedded_model_is_located_among_the_resources() {
    let settings = AppSettings::default();
    assert_eq!(
        locate_model(&settings),
        Ok(ModelResolution {
            path: "resources/ggml-tiny-q5_1.bin".to_string(),
            source: ModelSource::Embedded
        })
    );
}

#[test]
fn external_model_is_located_in_the_models_directory() {
    let mut settings = AppSettings::default();
    settings.whisper_model = "ggml-base.bin".to_string();
    settings.whisper_models_path = Some("/models".to_string());
    let located = locate_model(&settings).unwrap();
    assert_eq!(located.source, ModelSource::External);
    assert_eq!(std::path::Path::new(&located.path), std::path::Path::new("/models/ggml-base.bin"));
}

#[test]
fn external_model_without_directory_is_a_configuration_error() {
    let mut settings = AppSettings::default();
    settings.whisper_model = "ggml-base.bin".to_string();
    assert_eq!(locate_model(&settings), Err(JobError::Configuration));
}

#[test]
fn model_that_is_absent_is_not_found() {
    assert_eq!(
        resolve_model("/models/x.bin".to_string(), ModelSource::External, false),
        Err(JobError::ResourceNotFound { path: "/models/x.bin".to_string() })
    );
    assert_eq!(
        resolve_model("/models/x.bin".to_string(), ModelSource::External, true),
        Ok(ModelResolution { path: "/models/x.bin".to_string(), source: ModelSource::External })
    );
}

#[test]
fn coreml_paths_stand_in_the_models_directory() {
    let paths = coreml_paths("/m", "ggml-base");
    let expected = ["/m/ggml-base.compiled", "/m/ggml-base-encoder.compiled", "/m/ggml-base-decoder.compiled"];
    assert_eq!(paths.len(), 3);
    for (actual, expected) in paths.iter().zip(expected.iter()) {
        assert_eq!(std::path::Path::new(actual), std::path::Path::new(expected));
    }
}

#[test]
fn resources_of_the_application() {
    assert_eq!(embedded_model_location(), "resources/ggml-tiny-q5_1.bin");
    assert_eq!(vad_model_location(), "resources/ggml-silero-v5.1.2.bin");
}

#[test]
fn log_is_kept_beside_the_audio() {
    assert_eq!(log_file_name("talk"), "talk_log.txt");
    assert_eq!(media_stem("/run/17/talk.wav"), "talk");
    assert_eq!(media_stem("/"), "audio");
    assert_eq!(media_stem(""), "audio");
    assert_eq!(
        std::path::Path::new(&log_path("/run/17/talk.wav")),
        std::path::Path::new("/run/17/talk_log.txt")
    );
    assert_eq!(std::path::Path::new(&log_path("talk.wav")), std::path::Path::new("talk_log.txt"));
    assert_eq!(std::path::Path::new(&log_path("")), std::path::Path::new("./audio_log.txt"));
    assert_eq!(std::path::Path::new(&log_path("/")), std::path::Path::new("./audio_log.txt"));
}

fn external_model() -> ModelResolution {
    ModelResolution { path: "/m/ggml-base.bin".to_string(), source: ModelSource::External }
}

#[test]
fn job_follows_the_settings() {
    let mut settings = AppSettings::default();
    settings.whisper_language = "en".to_string();
    settings.whisper_optimization = "vulkan".to_string();
    settings.disable_gpu = true;
    settings.thread_count = 12;
    let job = JobSpec::new(
        &settings,
        "/run/talk.wav".to_string(),
        Some(90_000),
        external_model(),
        Some("/r/vad.bin".to_string()),
    )
    .unwrap();
    assert_eq!(
        job,
        JobSpec {
            audio_path: "/run/talk.wav".to_string(),
            total_ms: Some(90_000),
            language: "en".to_string(),
            model: external_model(),
            optimization: OptimizationVariant::Vulkan,
            vad_model: None,
            disable_gpu: true,
            thread_count: 8,
        }
    );
    assert_eq!(job.executable(), ExecutableId::Vulkan);
    assert_eq!(
        job.args(),
        strings(&[
            "--model",
            "/m/ggml-base.bin",
            "--file",
            "/run/talk.wav",
            "--output-srt",
            "--language",
            "en",
            "--print-progress",
            "--no-gpu",
            "--threads",
            "8"
        ])
    );
    assert_eq!(
        job.command_line(),
        "whisper-cli-vulkan --model /m/ggml-base.bin --file /run/talk.wav --output-srt \
         --language en --print-progress --no-gpu --threads 8"
    );
    assert_eq!(std::path::Path::new(&job.log_path()), std::path::Path::new("/run/talk_log.txt"));
}

#[test]
fn job_with_voice_activity_detection() {
    let mut settings = AppSettings::default();
    settings.enable_vad = true;
    let job = JobSpec::new(
        &settings,
        "my talk.wav".to_string(),
        None,
        external_model(),
        Some("/r/vad.bin".to_string()),
    )
    .unwrap();
    assert_eq!(job.vad_model, Some("/r/vad.bin".to_string()));
    assert_eq!(job.thread_count, 4);
    assert_eq!(
        job.command_line(),
        "whisper-cli --model /m/ggml-base.bin --file \"my talk.wav\" --output-srt \
         --language auto --print-progress --vad --vad-model /r/vad.bin --threads 4"
    );
}

#[test]
fn job_without_the_detection_model_it_needs() {
    let mut settings = AppSettings::default();
    settings.enable_vad = true;
    assert_eq!(
        JobSpec::new(&settings, "a.wav".to_string(), None, external_model(), None),
        Err(JobError::ResourceNotFound { path: "resources/ggml-silero-v5.1.2.bin".to_string() })
    );
}

#[test]
fn stem_and_extension_are_those_of_the_standard_library() {
    let paths = [
        "", "a", "a.b", "a.b.c", ".hidden", ".hidden.txt", "foo.", "...", "..foo", "..", ".",
        "dir/a.wav", "dir.d/a", "dir/.x", "a.wav/", "/", "a/..", "a/.", "中文.MP4", "a b.c d",
        "x/y.tar.gz", "..a.", "a..", "a..b",
    ];
    for p in paths {
        let path = std::path::Path::new(p);
        let stem = path.file_stem().map(|s| s.to_str().unwrap().to_string());
        let ext = path.extension().map(|s| s.to_str().unwrap().to_string());
        assert_eq!(file_stem(p), stem, "{:?}", p);
        assert_eq!(extension(p), ext, "{:?}", p);
    }
    assert_eq!(stem_of("ggml-base.bin"), "ggml-base");
    assert_eq!(stem_of(".bin"), ".bin");
    assert_eq!(stem_of("plain"), "plain");
    assert_eq!(extension_of("ggml-base.bin"), Some("bin".to_string()));
    assert_eq!(extension_of(".bin"), None);
    assert_eq!(extension_of("plain"), None);
    assert_eq!(extension_of("a."), Some("".to_string()));
}
