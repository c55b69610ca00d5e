use speech_gateway::audio::{
    concat_samples, convert_audio, determine_content_type, encode_wav, encoder_arguments,
    finish_external, pcm_bytes, Conversion, EncodeError, ENCODER_PROGRAM,
};

fn quantize(sample: f32) -> i16 {
    (sample.max(-1.0).min(1.0) * 32767.0) as i16
}

fn decode(bytes: &[u8]) -> Vec<i16> {
    bytes.chunks(2).map(|pair| i16::from_le_bytes([pair[0], pair[1]])).collect()
}

const WAV_HEADER_OF_FIVE_SAMPLES: [u8; 44] = [
    82, 73, 70, 70, 46, 0, 0, 0, 87, 65, 86, 69, 102, 109, 116, 32, 16, 0, 0, 0, 1, 0, 1, 0, 68,
    172, 0, 0, 136, 88, 1, 0, 2, 0, 16, 0, 100, 97, 116, 97, 10, 0, 0, 0,
];

#[test]
fn content_types_follow_the_format() {
    assert_eq!(determine_content_type("mp3"), "audio/mpeg");
    assert_eq!(determine_content_type("opus"), "audio/opus");
    assert_eq!(determine_content_type("aac"), "audio/aac");
    assert_eq!(determine_content_type("flac"), "audio/flac");
    assert_eq!(determine_content_type("wav"), "audio/wav");
    assert_eq!(determine_content_type("pcm"), "audio/pcm");
}

#[test]
fn unknown_format_is_a_byte_stream() {
    assert_eq!(determine_content_type("ogg"), "application/octet-stream");
    assert_eq!(determine_content_type(""), "application/octet-stream");
    assert_eq!(determine_content_type("MP3"), "application/octet-stream");
}

#[test]
fn pcm_is_little_endian_without_header() {
    assert_eq!(
        pcm_bytes(&vec![0, 1, -1, 32767, -32768, 256, -256]),
        vec![0, 0, 1, 0, 255, 255, 255, 127, 0, 128, 0, 1, 0, 255]
    );
    assert_eq!(pcm_bytes(&Vec::new()), Vec::<u8>::new());
}

#[test]
fn pcm_round_trip_gives_the_quantized_samples() {
    let samples: Vec<f32> = vec![0.0, 0.25, -0.25, 0.5, -0.999, 1.0, -1.0, 0.000031];
    let quantized: Vec<i16> = samples.iter().map(|s| quantize(*s)).collect();
    let decoded = decode(&pcm_bytes(&quantized));
    assert_eq!(decoded, quantized);
    for (sample, value) in samples.iter().zip(decoded.iter()) {
        assert!((sample * 32767.0 - *value as f32).abs() < 1.0);
    }
}

#[test]
fn every_sample_value_survives_the_round_trip() {
    let all: Vec<i16> = (i16::MIN..=i16::MAX).collect();
    assert_eq!(decode(&pcm_bytes(&all)), all);
}

#[test]
fn samples_beyond_the_range_are_clamped() {
    assert_eq!(quantize(1.5), 32767);
    assert_eq!(quantize(-1.5), -32767);
    assert_eq!(pcm_bytes(&vec![quantize(1.5)]), vec![0xff, 0x7f]);
    assert_eq!(pcm_bytes(&vec![quantize(-1.5)]), vec![0x01, 0x80]);
}

#[test]
fn wav_is_a_header_and_the_pcm() {
    let samples = vec![0, 1, -1, 32767, -32768];
    let bytes = encode_wav(&samples, 44100).unwrap();
    assert_eq!(bytes.len(), 44 + 10);
    assert_eq!(&bytes[..44], &WAV_HEADER_OF_FIVE_SAMPLES[..]);
    assert_eq!(&bytes[44..], &pcm_bytes(&samples)[..]);
}

#[test]
fn empty_wav_is_only_a_header() {
    let bytes = encode_wav(&Vec::new(), 24000).unwrap();
    assert_eq!(bytes.len(), 44);
    assert_eq!(&bytes[..4], b"RIFF");
    assert_eq!(&bytes[8..16], b"WAVEfmt ");
    assert_eq!(&bytes[24..28], &24000u32.to_le_bytes());
    assert_eq!(&bytes[40..44], &[0, 0, 0, 0]);
}

#[test]
fn wav_needs_a_positive_sample_rate() {
    assert!(matches!(encode_wav(&vec![1, 2], 0), Err(EncodeError::InvalidSampleRate)));
    assert!(matches!(encode_wav(&vec![1, 2], -44100), Err(EncodeError::InvalidSampleRate)));
    assert!(encode_wav(&vec![1, 2], 1).is_ok());
    assert!(encode_wav(&vec![1, 2], i32::MAX).is_ok());
}

#[test]
fn encoder_reads_raw_pcm_and_writes_the_format() {
    assert_eq!(ENCODER_PROGRAM, "ffmpeg");
    assert_eq!(
        encoder_arguments(44100, "mp3"),
        vec!["-f", "s16le", "-ar", "44100", "-ac", "1", "-i", "pipe:0", "-f", "mp3", "pipe:1"]
    );
    assert_eq!(encoder_arguments(0, "opus")[3], "0");
    assert_eq!(encoder_arguments(-8000, "opus")[3], "-8000");
    assert_eq!(encoder_arguments(i32::MIN, "opus")[3], "-2147483648");
    assert_eq!(encoder_arguments(i32::MAX, "opus")[3], "2147483647");
}

#[test]
fn pcm_and_wav_are_converted_in_the_library() {
    let samples = vec![3, -3];
    match convert_audio(&samples, 44100, "pcm").unwrap() {
        Conversion::Done { bytes } => assert_eq!(bytes, vec![3, 0, 253, 255]),
        other => panic!("expected bytes, got {:?}", other),
    }
    match convert_audio(&samples, 44100, "wav").unwrap() {
        Conversion::Done { bytes } => assert_eq!(bytes, encode_wav(&samples, 44100).unwrap()),
        other => panic!("expected bytes, got {:?}", other),
    }
    assert!(matches!(convert_audio(&samples, 0, "wav"), Err(EncodeError::InvalidSampleRate)));
    assert!(matches!(convert_audio(&samples, 0, "pcm"), Ok(Conversion::Done { .. })));
}

#[test]
fn other_formats_go_to_the_external_encoder() {
    let samples = vec![3, -3];
    for format in ["mp3", "opus", "aac", "flac", "ogg"] {
        match convert_audio(&samples, 22050, format).unwrap() {
            Conversion::External { arguments, input } => {
                assert_eq!(arguments, encoder_arguments(22050, format));
                assert_eq!(input, pcm_bytes(&samples));
            }
            other => panic!("expected an encoder run, got {:?}", other),
        }
    }
}

#[test]
fn encoder_status_decides_the_outcome() {
    assert_eq!(finish_external(true, vec![1, 2, 3]).unwrap(), vec![1, 2, 3]);
    let err = finish_external(false, vec![1, 2, 3]).unwrap_err();
    assert!(matches!(err, EncodeError::EncoderFailed));
    assert_eq!(err.message(), "FFmpeg failed");
}

#[test]
fn encode_errors_have_messages() {
    assert_eq!(EncodeError::InvalidSampleRate.message(), "sample rate must be positive");
    assert_eq!(EncodeError::TooManySamples.message(), "too many samples for a WAVE container");
    assert_eq!(EncodeError::Container { reason: "disk".to_string() }.message(), "disk");
    assert_eq!(EncodeError::EncoderUnavailable { reason: "no ffmpeg".to_string() }.message(), "no ffmpeg");
}

#[test]
fn segment_buffers_are_joined_in_order() {
    assert_eq!(concat_samples(&vec![vec![1, 2], vec![], vec![3], vec![4, 5]]), vec![1, 2, 3, 4, 5]);
    assert_eq!(concat_samples(&Vec::new()), Vec::<i16>::new());
}
