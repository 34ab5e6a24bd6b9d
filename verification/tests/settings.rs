use murmur::settings::{
    default_app_locale, default_thread_count, default_whisper_language, default_whisper_model,
    default_whisper_optimization, effective_thread_count, AppSettings, OptimizationVariant,
    MAX_THREADS, MIN_THREADS,
};

#[test]
fn defaults_of_each_setting() {
    assert_eq!(default_whisper_language(), "auto");
    assert_eq!(default_app_locale(), "zh-CN");
    assert_eq!(default_whisper_model(), "ggml-tiny-q5_1.bin");
    assert_eq!(default_whisper_optimization(), "none");
    assert_eq!(default_thread_count(), 4);
}

#[test]
fn default_settings() {
    let s = AppSettings::default();
    assert_eq!(s.whisper_models_path, None);
    assert_eq!(s.app_locale, "zh-CN");
    assert_eq!(s.whisper_language, "auto");
    assert_eq!(s.whisper_model, "ggml-tiny-q5_1.bin");
    assert!(!s.enable_vad);
    assert_eq!(s.whisper_optimization, "none");
    assert!(!s.disable_gpu);
    assert_eq!(s.thread_count, 4);
    assert!(s.uses_embedded_model());
    assert_eq!(s.optimization(), OptimizationVariant::Baseline);
    assert_eq!(s.threads(), 4);
}

#[test]
fn thread_count_is_brought_into_its_range() {
    assert_eq!(MIN_THREADS, 1);
    assert_eq!(MAX_THREADS, 8);
    assert_eq!(effective_thread_count(0), 1);
    assert_eq!(effective_thread_count(1), 1);
    assert_eq!(effective_thread_count(4), 4);
    assert_eq!(effective_thread_count(8), 8);
    assert_eq!(effective_thread_count(9), 8);
    assert_eq!(effective_thread_count(u32::MAX), 8);
}

#[test]
fn optimization_by_name() {
    assert_eq!(OptimizationVariant::from_name("none"), OptimizationVariant::Baseline);
    assert_eq!(OptimizationVariant::from_name("vulkan"), OptimizationVariant::Vulkan);
    assert_eq!(OptimizationVariant::from_name("coreml"), OptimizationVariant::CoreML);
    assert_eq!(OptimizationVariant::from_name("cuda"), OptimizationVariant::Cuda);
    assert_eq!(OptimizationVariant::from_name(""), OptimizationVariant::Baseline);
    assert_eq!(OptimizationVariant::from_name("Vulkan"), OptimizationVariant::Baseline);
    assert_eq!(OptimizationVariant::from_name("metal"), OptimizationVariant::Baseline);
}

#[test]
fn settings_select_model_and_optimization() {
    let mut s = AppSettings::default();
    s.whisper_model = "ggml-base.bin".to_string();
    s.whisper_optimization = "cuda".to_string();
    s.thread_count = 64;
    assert!(!s.uses_embedded_model());
    assert_eq!(s.optimization(), OptimizationVariant::Cuda);
    assert_eq!(s.threads(), 8);
}
