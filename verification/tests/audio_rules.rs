use std::collections::VecDeque;
use std::sync::mpsc;

use not_news::audio::recording::{
    compact_service_error, push_frames, response_limit, transcription_model, transcription_poll_result,
    transcription_result, u16_to_i16, AudioError, CaptureCounters, RecordedAudio, RecordedQueue, SampleQueue,
    TranscriptionHandle, MAX_MONO_SAMPLES,
};
use not_news::audio::speech::{
    env_count, env_switch, player_from_environment, speech_capability, NoteGate, NotePolicy, NoteScreen, SpeechCapability,
    SpeechSubmit,
};
use not_news::channel::ReceiveFailure;

/// A bounded queue that refuses a sample when full.
struct BoundedQueue {
    capacity: usize,
    samples: VecDeque<i16>,
}

impl SampleQueue for BoundedQueue {
    fn try_push(&mut self, sample: i16) -> bool {
        if self.samples.len() < self.capacity {
            self.samples.push_back(sample);
            true
        } else {
            false
        }
    }
}

fn counters() -> CaptureCounters {
    CaptureCounters { frames: 0, overflow: false, length_limit: false }
}

#[test]
fn interleaved_stereo_is_mixed_to_mono_without_overwrite() {
    let mut queue = BoundedQueue { capacity: 3, samples: VecDeque::new() };
    let mut counts = counters();
    push_frames(&[10_i16, 30, -30, 10, 100, -100], 2, &mut RecordedQueue::new(&mut queue), &mut counts);
    assert_eq!(queue.samples.pop_front(), Some(20));
    assert_eq!(queue.samples.pop_front(), Some(-10));
    assert_eq!(queue.samples.pop_front(), Some(0));
    assert!(!counts.overflow);
    assert_eq!(counts.frames, 3);
}

#[test]
fn full_capture_queue_fails_instead_of_overwriting_earlier_speech() {
    let mut queue = BoundedQueue { capacity: 1, samples: VecDeque::new() };
    let mut counts = counters();
    push_frames(&[1_i16, 2], 1, &mut RecordedQueue::new(&mut queue), &mut counts);
    assert_eq!(queue.samples.pop_front(), Some(1));
    assert!(counts.overflow);
}

#[test]
fn api_key_never_appears_in_configuration_debug_or_capability_errors() {
    assert_eq!(
        AudioError::MissingApiKey.message(),
        "GROQ_API_KEY is not configured; voice transcription is unavailable"
    );
    assert!(!AudioError::MissingApiKey.message().contains("secret"));
}

#[test]
fn mixing_rounds_toward_zero_and_ignores_partial_frames() {
    let mut queue = BoundedQueue { capacity: 8, samples: VecDeque::new() };
    let mut counts = counters();
    push_frames(&[-3_i16, 0, 3, 0, 7], 2, &mut RecordedQueue::new(&mut queue), &mut counts);
    assert_eq!(queue.samples.iter().copied().collect::<Vec<_>>(), vec![-1, 1]);
    assert_eq!(counts.frames, 2);
    let mut counts = counters();
    push_frames(&[i16::MIN, i16::MIN, i16::MAX, i16::MAX], 2, &mut RecordedQueue::new(&mut queue), &mut counts);
    assert_eq!(queue.samples.iter().copied().skip(2).collect::<Vec<_>>(), vec![i16::MIN, i16::MAX]);
}

#[test]
fn frames_beyond_the_allowance_are_counted_but_not_kept() {
    let mut queue = BoundedQueue { capacity: 8, samples: VecDeque::new() };
    let mut counts = CaptureCounters { frames: MAX_MONO_SAMPLES - 1, overflow: false, length_limit: false };
    push_frames(&[5_i16, 6, 7], 1, &mut RecordedQueue::new(&mut queue), &mut counts);
    assert_eq!(queue.samples.iter().copied().collect::<Vec<_>>(), vec![5]);
    assert!(counts.length_limit);
    assert_eq!(counts.frames, MAX_MONO_SAMPLES + 2);
}

#[test]
fn unsigned_samples_are_centred() {
    assert_eq!(u16_to_i16(0), i16::MIN);
    assert_eq!(u16_to_i16(32768), 0);
    assert_eq!(u16_to_i16(65535), i16::MAX);
}

#[test]
fn recording_duration_is_samples_over_rate() {
    let recording = RecordedAudio::new("voice.wav".into(), 16_000, 24_000);
    assert_eq!(recording.duration(), std::time::Duration::from_millis(1_500));
    assert_eq!(recording.file(), "voice.wav");
    let long = RecordedAudio::new("long.wav".into(), 1, u64::MAX);
    assert_eq!(long.duration(), std::time::Duration::from_secs(u64::from(u32::MAX)));
}

#[test]
fn recording_duration_rounds_to_the_nearest_nanosecond() {
    let one = RecordedAudio::new("one.wav".into(), 44_100, 1);
    assert_eq!(one.duration(), std::time::Duration::from_nanos(22_676));
    let two = RecordedAudio::new("two.wav".into(), 3, 2);
    assert_eq!(two.duration(), std::time::Duration::from_nanos(666_666_667));
    let third = RecordedAudio::new("third.wav".into(), 3, 1);
    assert_eq!(third.duration(), std::time::Duration::from_nanos(333_333_333));
}

#[test]
fn service_responses_become_transcripts_or_typed_errors() {
    assert_eq!(
        transcription_result(200, "", Ok("  investigate this \n".into())),
        Ok("investigate this".to_owned())
    );
    assert_eq!(
        transcription_result(200, "", Ok("   ".into())),
        Err(AudioError::InvalidResponse("transcript text was empty".into()))
    );
    assert_eq!(
        transcription_result(200, "", Err("missing field `text`".into())),
        Err(AudioError::InvalidResponse("missing field `text`".into()))
    );
    let error = transcription_result(429, "{\n  \"error\":   \"slow down\" }", Ok("ignored".into())).unwrap_err();
    assert_eq!(error, AudioError::Service { status: 429, detail: "{ \"error\": \"slow down\" }".into() });
    assert_eq!(
        error.message(),
        "the transcription service returned HTTP 429: { \"error\": \"slow down\" }"
    );
    assert_eq!(compact_service_error("  a \t b\nc  "), "a b c");
    assert_eq!(response_limit(200), 65_536);
    assert_eq!(response_limit(500), 4_096);
}

#[test]
fn the_model_override_order_is_stt_then_whisper_then_default() {
    assert_eq!(transcription_model(Some("a".into()), Some("b".into())), "a");
    assert_eq!(transcription_model(Some("  ".into()), Some("b".into())), "b");
    assert_eq!(transcription_model(None, None), "whisper-large-v3-turbo");
}

#[test]
fn a_worker_that_ends_without_a_result_is_an_invalid_response() {
    assert_eq!(transcription_poll_result(Err(ReceiveFailure::Empty)), Ok(None));
    assert_eq!(
        transcription_poll_result(Err(ReceiveFailure::Disconnected)),
        Err(AudioError::InvalidResponse("transcription worker ended without a result".into()))
    );
    let (sender, receiver) = mpsc::channel();
    let (cancel, cancelled) = mpsc::channel();
    let handle = TranscriptionHandle::new(receiver, cancel);
    assert_eq!(handle.try_recv(), Ok(None));
    handle.cancel();
    assert_eq!(cancelled.try_recv(), Ok(()));
    sender.send(Ok("done".to_owned())).unwrap();
    assert_eq!(handle.try_recv(), Ok(Some("done".to_owned())));
    drop(sender);
    assert!(handle.try_recv().is_err());
}

fn policy(interval_secs: u64, limit: usize, dedupe_secs: u64) -> NotePolicy {
    NotePolicy {
        note_interval: interval_secs * 1_000_000_000,
        note_limit: limit,
        note_max_chars: 110,
        dedupe_interval: dedupe_secs * 1_000_000_000,
    }
}

fn submit(gate: &mut NoteGate, capability: &SpeechCapability, text: &str, now: u64) -> SpeechSubmit {
    match gate.screen(capability, text, now) {
        NoteScreen::Refused(reason) => reason,
        NoteScreen::Speak { key, .. } => {
            gate.record_queued(key, now);
            SpeechSubmit::Queued
        }
    }
}

#[test]
fn missing_player_is_typed_without_starting_a_worker() {
    let mut gate = NoteGate::new(policy(0, 2, 0));
    let capability = SpeechCapability::Unavailable("no local WAV player is available".into());
    assert_eq!(
        submit(&mut gate, &capability, "A useful note.", 0),
        SpeechSubmit::Unavailable("no local WAV player is available".into())
    );
    assert_eq!(gate.note_count, 0);
}

#[test]
fn source_throttle_limit_and_deduplication_precede_synthesis() {
    let mut gate = NoteGate::new(policy(35, 2, 20));
    let ready = SpeechCapability::Ready;
    let second = 1_000_000_000;
    let now = 5 * second;
    assert_eq!(submit(&mut gate, &ready, "First note.", now), SpeechSubmit::Queued);
    assert_eq!(submit(&mut gate, &ready, "First note.", now + second), SpeechSubmit::Duplicate);
    assert_eq!(submit(&mut gate, &ready, "Different note.", now + second), SpeechSubmit::Throttled);
    assert_eq!(submit(&mut gate, &ready, "Second note.", now + 36 * second), SpeechSubmit::Queued);
    assert_eq!(submit(&mut gate, &ready, "Third note.", now + 72 * second), SpeechSubmit::SessionLimit);
    gate.reset_session();
    assert_eq!(submit(&mut gate, &ready, "Third note.", now + 73 * second), SpeechSubmit::Queued);
}

struct Installed(Vec<&'static str>);

impl not_news::agent::executables::ExecutableProbe for Installed {
    fn is_executable(&self, path: &str) -> bool {
        self.0.contains(&path)
    }
}

fn ambient(values: &[(&str, &str)]) -> Vec<(String, String)> {
    values.iter().map(|(name, value)| ((*name).to_owned(), (*value).to_owned())).collect()
}

#[test]
fn the_named_player_wins_over_the_known_ones() {
    let probe = Installed(vec!["/usr/bin/aplay", "/usr/bin/paplay"]);
    let named = player_from_environment(&ambient(&[("AI_NEWS_AUDIO_PLAYER", "/opt/play"), ("PATH", "/usr/bin")]), &probe)
        .unwrap();
    assert_eq!(named.program, "/opt/play");
    assert!(named.prefix.is_empty());
    let found = player_from_environment(&ambient(&[("AI_NEWS_AUDIO_PLAYER", ""), ("PATH", "/usr/bin")]), &probe).unwrap();
    assert_eq!(found.program, "/usr/bin/aplay");
    assert_eq!(found.prefix, vec!["-q".to_owned()]);
    assert!(player_from_environment(&ambient(&[]), &probe).is_none());
}

#[test]
fn speech_needs_a_switch_an_endpoint_and_a_player() {
    assert_eq!(speech_capability(false, "http://tts", true), SpeechCapability::Disabled);
    assert_eq!(
        speech_capability(true, "", true),
        SpeechCapability::Unavailable("Kokoro synthesis has no configured endpoint".into())
    );
    assert_eq!(
        speech_capability(true, "http://tts", false),
        SpeechCapability::Unavailable("no local WAV player is available".into())
    );
    assert_eq!(speech_capability(true, "http://tts", true), SpeechCapability::Ready);
    assert!(!env_switch(Some(" OFF "), true));
    assert!(!env_switch(Some("0"), true));
    assert!(env_switch(Some("yes"), false));
    assert!(env_switch(None, true));
    assert_eq!(env_count(Some("5"), 2, 0, 10), 5);
    assert_eq!(env_count(Some("+7"), 2, 0, 10), 7);
    assert_eq!(env_count(Some("50"), 2, 0, 10), 10);
    assert_eq!(env_count(Some("-1"), 2, 0, 10), 2);
    assert_eq!(env_count(Some(" 3"), 2, 0, 10), 2);
    assert_eq!(env_count(Some("99999999999999999999999"), 110, 40, 400), 110);
    assert_eq!(env_count(None, 110, 40, 400), 110);
    assert_eq!(env_count(Some("12"), 110, 40, 400), 40);
}
