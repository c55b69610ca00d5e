use speech_gateway::request::{
    is_supported_language, model_is_recognized, CreateSpeechRequest, RequestError,
    SynthesisRequest,
};

fn payload(input: &str, voice: &str) -> CreateSpeechRequest {
    CreateSpeechRequest {
        model: None,
        input: input.to_string(),
        voice: voice.to_string(),
        response_format: None,
        speed: None,
        total_step: None,
        lang: None,
    }
}

fn with_step(step: usize) -> CreateSpeechRequest {
    let mut p = payload("hello", "M1");
    p.total_step = Some(step);
    p
}

#[test]
fn defaults_are_applied() {
    let request = SynthesisRequest::new(payload("hello", "M1"), true).unwrap();
    assert_eq!(request.input(), "hello");
    assert_eq!(request.voice(), "M1");
    assert_eq!(request.format(), "mp3");
    assert_eq!(request.speed(), "1.00");
    assert_eq!(request.total_step(), 5);
    assert_eq!(request.lang(), "en");
    assert_eq!(request.segments().len(), 1);
    assert_eq!(request.segments()[0].text, "hello");
    assert_eq!(request.segments()[0].language, "en");
}

#[test]
fn given_fields_are_kept() {
    let p = CreateSpeechRequest {
        model: Some("tts-1".to_string()),
        input: "uno | two".to_string(),
        voice: "Sarah".to_string(),
        response_format: Some("wav".to_string()),
        speed: Some("1.25".to_string()),
        total_step: Some(10),
        lang: Some("es, en".to_string()),
    };
    let request = SynthesisRequest::new(p, true).unwrap();
    assert_eq!(request.input(), "uno | two");
    assert_eq!(request.voice(), "Sarah");
    assert_eq!(request.format(), "wav");
    assert_eq!(request.speed(), "1.25");
    assert_eq!(request.total_step(), 10);
    assert_eq!(request.lang(), "es, en");
    let segments = request.segments();
    assert_eq!(segments.len(), 2);
    assert_eq!((segments[0].text.as_str(), segments[0].language.as_str()), ("uno", "es"));
    assert_eq!((segments[1].text.as_str(), segments[1].language.as_str()), ("two", "en"));
}

#[test]
fn empty_input_is_rejected() {
    let err = SynthesisRequest::new(payload("", "M1"), true).unwrap_err();
    assert!(matches!(err, RequestError::EmptyInput));
    assert_eq!(err.message(), "Input text cannot be empty");
    assert_eq!(err.status(), 400);
}

#[test]
fn unknown_voice_is_rejected() {
    let err = SynthesisRequest::new(payload("hello", "Nobody"), false).unwrap_err();
    match &err {
        RequestError::UnsupportedVoice { voice } => assert_eq!(voice, "Nobody"),
        other => panic!("expected an unsupported voice, got {:?}", other),
    }
    assert_eq!(err.message(), "Unsupported voice: Nobody");
    assert_eq!(err.status(), 400);
}

#[test]
fn total_step_zero_is_rejected() {
    let err = SynthesisRequest::new(with_step(0), true).unwrap_err();
    assert!(matches!(err, RequestError::StepOutOfRange));
    assert_eq!(err.message(), "total_step must be between 1 and 10");
    assert_eq!(err.status(), 400);
}

#[test]
fn total_step_eleven_is_rejected() {
    let err = SynthesisRequest::new(with_step(11), true).unwrap_err();
    assert!(matches!(err, RequestError::StepOutOfRange));
    assert_eq!(err.status(), 400);
}

#[test]
fn total_step_one_and_ten_are_accepted() {
    assert_eq!(SynthesisRequest::new(with_step(1), true).unwrap().total_step(), 1);
    assert_eq!(SynthesisRequest::new(with_step(10), true).unwrap().total_step(), 10);
}

#[test]
fn huge_total_step_is_rejected() {
    let err = SynthesisRequest::new(with_step(usize::MAX), true).unwrap_err();
    assert!(matches!(err, RequestError::StepOutOfRange));
}

#[test]
fn unsupported_language_is_rejected() {
    let mut p = payload("hello", "M1");
    p.lang = Some("de".to_string());
    let err = SynthesisRequest::new(p, true).unwrap_err();
    match &err {
        RequestError::UnsupportedLanguage { tag } => assert_eq!(tag, "de"),
        other => panic!("expected an unsupported language, got {:?}", other),
    }
    assert!(err.message().contains("[\"en\", \"ko\", \"es\", \"pt\", \"fr\"]"));
    assert_eq!(err.status(), 400);
}

#[test]
fn language_count_must_fit_the_segments() {
    let mut p = payload("a|b", "M1");
    p.lang = Some("en,es,fr".to_string());
    let err = SynthesisRequest::new(p, true).unwrap_err();
    assert!(matches!(err, RequestError::SegmentMismatch { segments: 2, languages: 3 }));
    assert_eq!(err.status(), 400);
}

#[test]
fn checks_run_in_order() {
    // Every field is wrong: the empty input is reported.
    let mut p = payload("", "Nobody");
    p.total_step = Some(0);
    p.lang = Some("de".to_string());
    assert!(matches!(SynthesisRequest::new(p, false).unwrap_err(), RequestError::EmptyInput));
    // Voice, step and language are wrong: the voice is reported.
    let mut p = payload("a|b", "Nobody");
    p.total_step = Some(0);
    p.lang = Some("de".to_string());
    assert!(matches!(
        SynthesisRequest::new(p, false).unwrap_err(),
        RequestError::UnsupportedVoice { .. }
    ));
    // Step and language are wrong: the step is reported.
    let mut p = payload("a|b", "M1");
    p.total_step = Some(11);
    p.lang = Some("de".to_string());
    assert!(matches!(SynthesisRequest::new(p, true).unwrap_err(), RequestError::StepOutOfRange));
    // Language and alignment are wrong: the language is reported.
    let mut p = payload("a|b", "M1");
    p.lang = Some("en,de,fr".to_string());
    assert!(matches!(
        SynthesisRequest::new(p, true).unwrap_err(),
        RequestError::UnsupportedLanguage { .. }
    ));
}

#[test]
fn model_never_rejects_a_request() {
    let mut p = payload("hello", "M1");
    p.model = Some("some-other-model".to_string());
    assert!(SynthesisRequest::new(p, true).is_ok());
    assert!(model_is_recognized("supertonic-2"));
    assert!(model_is_recognized("tts-1"));
    assert!(!model_is_recognized("some-other-model"));
    assert!(!model_is_recognized(""));
}

#[test]
fn supported_languages_are_five() {
    for tag in ["en", "ko", "es", "pt", "fr"] {
        assert!(is_supported_language(tag));
    }
    for tag in ["de", "", "e", "enn", " en", "En"] {
        assert!(!is_supported_language(tag));
    }
}
