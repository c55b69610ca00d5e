use speech_gateway::cache::{cache_file, cache_file_name, cache_key, canonical_key_text};
use speech_gateway::request::{CreateSpeechRequest, SynthesisRequest};

fn request(
    input: &str,
    voice: &str,
    format: &str,
    speed: &str,
    step: usize,
    lang: &str,
) -> SynthesisRequest {
    let payload = CreateSpeechRequest {
        model: None,
        input: input.to_string(),
        voice: voice.to_string(),
        response_format: Some(format.to_string()),
        speed: Some(speed.to_string()),
        total_step: Some(step),
        lang: Some(lang.to_string()),
    };
    SynthesisRequest::new(payload, true).unwrap()
}

fn base() -> SynthesisRequest {
    request("hello", "M1", "mp3", "1.00", 5, "en")
}

#[test]
fn canonical_text_joins_the_fields_with_colons() {
    assert_eq!(canonical_key_text(&base()), "hello:M1:mp3:1.00:5:en");
    assert_eq!(
        canonical_key_text(&request("a|b", "F1", "wav", "1.25", 10, "en,es")),
        "a|b:F1:wav:1.25:10:en,es"
    );
}

#[test]
fn cache_key_is_the_hex_sha256_of_the_canonical_text() {
    assert_eq!(
        cache_key(&base()),
        "1e81468b5f1f9ac9d40075822af7eec9218e8fcf46c4f74b22aa0774b86d8446"
    );
    assert_eq!(
        cache_key(&request("a|b", "F1", "wav", "1.25", 10, "en,es")),
        "28954348e77af8c0d0164259dee7589f7e81970ed96c262c623aa931b5bd32a2"
    );
}

#[test]
fn cache_key_digests_utf8_bytes() {
    assert_eq!(
        cache_key(&request("h\u{e9}llo", "M1", "pcm", "1.00", 5, "en")),
        "2f72f28e0a0a0ae280283e38563145dd270607593df4b0d32d6899c49ebb73da"
    );
}

#[test]
fn default_fields_give_the_key_of_their_values() {
    let payload = CreateSpeechRequest {
        model: Some("tts-1".to_string()),
        input: "hello".to_string(),
        voice: "M1".to_string(),
        response_format: None,
        speed: None,
        total_step: None,
        lang: None,
    };
    let request = SynthesisRequest::new(payload, true).unwrap();
    assert_eq!(cache_key(&request), cache_key(&base()));
}

#[test]
fn identical_requests_share_a_key() {
    assert_eq!(cache_key(&base()), cache_key(&base()));
    assert_eq!(cache_file(&base()), cache_file(&base()));
}

#[test]
fn each_field_changes_the_key() {
    let key = cache_key(&base());
    let others = [
        request("hello!", "M1", "mp3", "1.00", 5, "en"),
        request("hello", "M2", "mp3", "1.00", 5, "en"),
        request("hello", "M1", "wav", "1.00", 5, "en"),
        request("hello", "M1", "mp3", "1.01", 5, "en"),
        request("hello", "M1", "mp3", "1.00", 6, "en"),
        request("hello", "M1", "mp3", "1.00", 5, "ko"),
    ];
    for other in others.iter() {
        assert_ne!(cache_key(other), key);
    }
}

#[test]
fn cache_key_is_sixty_four_lower_case_hex_digits() {
    let key = cache_key(&request("x", "F5", "flac", "0.50", 1, "fr"));
    assert_eq!(key.len(), 64);
    assert!(key.chars().all(|c| c.is_ascii_digit() || ('a'..='f').contains(&c)));
}

#[test]
fn cache_file_is_named_by_key_and_format() {
    assert_eq!(cache_file_name("abc", "mp3"), "abc.mp3");
    assert_eq!(
        cache_file(&base()),
        "1e81468b5f1f9ac9d40075822af7eec9218e8fcf46c4f74b22aa0774b86d8446.mp3"
    );
}
