use speech_gateway::request::{align_segments, Segment};
use speech_gateway::synthesis::{Synthesis, SynthesisRun, SynthesisStep};

fn segments(input: &str, languages: &[&str]) -> Vec<Segment> {
    let languages: Vec<String> = languages.iter().map(|s| s.to_string()).collect();
    align_segments(input, &languages).unwrap()
}

fn pending(step: SynthesisStep) -> SynthesisRun {
    match step {
        SynthesisStep::Call(run) => run,
        other => panic!("expected a call, got {:?}", other),
    }
}

/// Runs the engine `engine` over the segments and counts its calls.
fn drive(
    segments: Vec<Segment>,
    engine: &dyn Fn(&str, &str) -> Result<Vec<i16>, String>,
) -> (Synthesis, usize) {
    let mut calls = 0;
    let mut step = SynthesisRun::start(segments, 24000);
    loop {
        let run = match step {
            SynthesisStep::Call(run) => run,
            SynthesisStep::Done(outcome) => return (outcome, calls),
        };
        calls += 1;
        let result = engine(&run.segment().text, &run.segment().language);
        step = match result {
            Ok(samples) => run.accept(samples),
            Err(reason) => return (run.fail(reason), calls),
        };
    }
}

#[test]
fn segments_are_synthesized_once_each_in_order() {
    let engine = |text: &str, language: &str| -> Result<Vec<i16>, String> {
        Ok(vec![text.len() as i16, language.len() as i16])
    };
    let (outcome, calls) = drive(segments("a|bb|ccc", &["en"]), &engine);
    assert_eq!(calls, 3);
    match outcome {
        Synthesis::Samples { parts, sample_rate } => {
            assert_eq!(parts, vec![vec![1, 2], vec![2, 2], vec![3, 2]]);
            assert_eq!(sample_rate, 24000);
        }
        other => panic!("expected samples, got {:?}", other),
    }
}

#[test]
fn run_walks_the_segments_with_their_languages() {
    let run = pending(SynthesisRun::start(segments("uno|two", &["es", "en"]), 44100));
    assert_eq!(run.place(), 0);
    assert_eq!((run.segment().text.as_str(), run.segment().language.as_str()), ("uno", "es"));
    let run = pending(run.accept(vec![1]));
    assert_eq!(run.place(), 1);
    assert_eq!((run.segment().text.as_str(), run.segment().language.as_str()), ("two", "en"));
    match run.accept(vec![2, 3]) {
        SynthesisStep::Done(Synthesis::Samples { parts, sample_rate }) => {
            assert_eq!(parts, vec![vec![1], vec![2, 3]]);
            assert_eq!(sample_rate, 44100);
        }
        other => panic!("expected the end of the run, got {:?}", other),
    }
}

#[test]
fn run_ends_at_the_first_failure_and_names_the_segment() {
    let engine = |text: &str, _language: &str| -> Result<Vec<i16>, String> {
        if text == "bad" {
            Err("invalid style".to_string())
        } else {
            Ok(vec![7])
        }
    };
    let (outcome, calls) = drive(segments("ok|bad|never", &["en"]), &engine);
    assert_eq!(calls, 2);
    match outcome {
        Synthesis::EngineFailed { segment, reason } => {
            assert_eq!(segment, 1);
            assert_eq!(reason, "invalid style");
        }
        other => panic!("expected a failure, got {:?}", other),
    }
}

#[test]
fn run_without_segments_is_done_at_once() {
    match SynthesisRun::start(Vec::new(), 8000) {
        SynthesisStep::Done(Synthesis::Samples { parts, sample_rate }) => {
            assert_eq!(parts, Vec::<Vec<i16>>::new());
            assert_eq!(sample_rate, 8000);
        }
        other => panic!("expected the end of the run, got {:?}", other),
    }
}
