use openflow::transcriber::{startup_model, ModelFile, TranscribeError, Transcriber};

#[test]
fn new_session_defaults() {
    let t: Transcriber<u32> = Transcriber::new();
    assert!(!t.is_loaded());
    assert_eq!(t.language, "auto");
    assert_eq!(t.custom_prompt, "Gemini, OpenFlow, TypeScript, Rust, Tauri, React, деплой, фича, баг");
    assert_eq!(t.model().err(), Some(TranscribeError::NotInitialized));
}

#[test]
fn loading_a_model_installs_it() {
    let mut t: Transcriber<u32> = Transcriber::new();
    assert_eq!(t.load_model(Ok(7)), Ok(()));
    assert!(t.is_loaded());
    assert_eq!(t.model(), Ok(&7));
}

#[test]
fn failed_load_reports_and_keeps_previous_model() {
    let mut t: Transcriber<u32> = Transcriber::new();
    let r = t.load_model(Err("NoFile".to_string()));
    assert_eq!(r, Err("Ошибка загрузки модели Whisper: NoFile".to_string()));
    assert!(!t.is_loaded());
    t.load_model(Ok(1)).unwrap();
    let r = t.load_model(Err("Bad".to_string()));
    assert!(r.is_err());
    assert_eq!(t.model(), Ok(&1));
}

#[test]
fn settings_replace_language_and_prompt() {
    let mut t: Transcriber<u32> = Transcriber::new();
    t.load_model(Ok(3)).unwrap();
    t.set_settings("ru".to_string(), "Verus".to_string());
    assert_eq!(t.language, "ru");
    assert_eq!(t.custom_prompt, "Verus");
    assert!(t.is_loaded());
}

#[test]
fn error_messages() {
    assert_eq!(TranscribeError::NotInitialized.message(), "Модель не инициализирована");
    assert_eq!(TranscribeError::CreateState("E1".to_string()).message(), "Ошибка создания стейта: E1");
    assert_eq!(TranscribeError::Inference("E2".to_string()).message(), "Ошибка инференса: E2");
    assert_eq!(TranscribeError::SegmentCount("E3".to_string()).message(), "Ошибка получения сегментов: E3");
}

#[test]
fn transcript_joins_readable_segments_and_cleans() {
    let segments = vec![
        Some(" Привет".to_string()),
        None,
        Some(" мир.".to_string()),
        Some(" [Музыка]".to_string()),
    ];
    assert_eq!(Transcriber::<u32>::assemble_transcript(&segments), "Привет мир.");
}

#[test]
fn transcript_of_no_segments_is_empty() {
    assert_eq!(Transcriber::<u32>::assemble_transcript(&vec![]), "");
    assert_eq!(Transcriber::<u32>::assemble_transcript(&vec![None, None]), "");
}

#[test]
fn transcript_phrase_split_across_segments_is_removed() {
    let segments = vec![Some("Спасибо за ".to_string()), Some("просмотр".to_string())];
    assert_eq!(Transcriber::<u32>::assemble_transcript(&segments), "");
}

#[test]
fn startup_prefers_small_model() {
    assert_eq!(startup_model(true, true), Some(ModelFile::Small));
    assert_eq!(startup_model(true, false), Some(ModelFile::Small));
    assert_eq!(startup_model(false, true), Some(ModelFile::Base));
    assert_eq!(startup_model(false, false), None);
    assert_eq!(ModelFile::Small.file_name(), "ggml-small.bin");
    assert_eq!(ModelFile::Base.file_name(), "ggml-base.bin");
}

#[test]
fn loaded_once_some_load_succeeded_and_stays_loaded() {
    let mut t: Transcriber<u32> = Transcriber::new();
    assert!(t.load_model(Err("missing".to_string())).is_err());
    t.set_settings("en".to_string(), "".to_string());
    assert!(!t.is_loaded());
    assert!(t.load_model(Ok(5)).is_ok());
    assert!(t.is_loaded());
    assert!(t.load_model(Err("broken".to_string())).is_err());
    t.set_settings("auto".to_string(), "hint".to_string());
    t.language = "de".to_string();
    assert!(t.is_loaded());
    assert_eq!(t.model(), Ok(&5));
}
