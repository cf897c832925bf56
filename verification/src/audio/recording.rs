//! Voice input: mixing captured frames to bounded mono audio, the finished
//! recording, and the transcription handle with the rules that turn a
//! service response into a transcript or an error.

use std::sync::mpsc::{Receiver, Sender};
use std::time::Duration;

use vstd::prelude::*;

use crate::channel::{receive_now, signal, ReceiveFailure};
use crate::text::{
    append_str, chars_of, collapse, collapse_whitespace, decimal, decimal_text, is_blank, str_is_blank,
    string_from_chars, trim, trimmed,
};

verus! {

/// Why recording or transcription failed. Operating-system and device
/// errors are kept as their messages.
#[derive(Clone, Debug, PartialEq, Eq)]
pub enum AudioError {
    NoInputDevice,
    DefaultConfiguration(String),
    UnsupportedSampleFormat(String),
    CreateRecording(String),
    BuildStream(String),
    StartStream(String),
    StartWriter(String),
    WriteRecording(String),
    CaptureOverflow,
    RecordingTooLong,
    StreamFailure(String),
    EmptyRecording,
    MissingApiKey,
    RecordingTooLarge,
    BuildClient(String),
    Request(String),
    Service { status: u16, detail: String },
    InvalidResponse(String),
    Cancelled,
    StartTranscriber(String),
}

pub open spec fn audio_message(e: AudioError) -> Seq<char> {
    match e {
        AudioError::NoInputDevice => "no default microphone is available"@,
        AudioError::DefaultConfiguration(m) => "the default microphone configuration is unavailable: "@ + m@,
        AudioError::UnsupportedSampleFormat(m) => "microphone sample format "@ + m@ + " is not supported"@,
        AudioError::CreateRecording(m) => "the recording file could not be created: "@ + m@,
        AudioError::BuildStream(m) => "the microphone stream could not be created: "@ + m@,
        AudioError::StartStream(m) => "the microphone stream could not start: "@ + m@,
        AudioError::StartWriter(m) => "the recording writer could not start: "@ + m@,
        AudioError::WriteRecording(m) => "the recording writer failed: "@ + m@,
        AudioError::CaptureOverflow => "recording audio arrived faster than it could be preserved; nothing was submitted"@,
        AudioError::RecordingTooLong => "recording exceeded the bounded 24 MiB transcription allowance; nothing was submitted"@,
        AudioError::StreamFailure(m) => "the microphone stopped unexpectedly: "@ + m@,
        AudioError::EmptyRecording => "the recording contains no audio"@,
        AudioError::MissingApiKey => "GROQ_API_KEY is not configured; voice transcription is unavailable"@,
        AudioError::RecordingTooLarge => "the recording exceeds the bounded 24 MiB transcription allowance"@,
        AudioError::BuildClient(m) => "the transcription client could not be built: "@ + m@,
        AudioError::Request(m) => "the transcription request failed: "@ + m@,
        AudioError::Service { status, detail } => "the transcription service returned HTTP "@ + decimal(
            status as nat,
        ) + ": "@ + detail@,
        AudioError::InvalidResponse(m) => "the transcription service returned an invalid response: "@ + m@,
        AudioError::Cancelled => "the transcription was cancelled"@,
        AudioError::StartTranscriber(m) => "the transcription worker could not start: "@ + m@,
    }
}

fn prefixed(prefix: &str, detail: &String) -> (m: String)
    ensures
        m@ == prefix@ + detail@,
{
    let mut m = prefix.to_owned();
    append_str(&mut m, detail.as_str());
    m
}

impl AudioError {
    /// The error's message, as the application shows it.
    pub fn message(&self) -> (m: String)
        ensures
            m@ == audio_message(*self),
    {
        match self {
            AudioError::NoInputDevice => "no default microphone is available".to_owned(),
            AudioError::DefaultConfiguration(e) => prefixed(
                "the default microphone configuration is unavailable: ",
                e,
            ),
            AudioError::UnsupportedSampleFormat(e) => {
                let mut m = prefixed("microphone sample format ", e);
                append_str(&mut m, " is not supported");
                m
            },
            AudioError::CreateRecording(e) => prefixed("the recording file could not be created: ", e),
            AudioError::BuildStream(e) => prefixed("the microphone stream could not be created: ", e),
            AudioError::StartStream(e) => prefixed("the microphone stream could not start: ", e),
            AudioError::StartWriter(e) => prefixed("the recording writer could not start: ", e),
            AudioError::WriteRecording(e) => prefixed("the recording writer failed: ", e),
            AudioError::CaptureOverflow => "recording audio arrived faster than it could be preserved; nothing was submitted".to_owned(),
            AudioError::RecordingTooLong => "recording exceeded the bounded 24 MiB transcription allowance; nothing was submitted".to_owned(),
            AudioError::StreamFailure(e) => prefixed("the microphone stopped unexpectedly: ", e),
            AudioError::EmptyRecording => "the recording contains no audio".to_owned(),
            AudioError::MissingApiKey => "GROQ_API_KEY is not configured; voice transcription is unavailable".to_owned(),
            AudioError::RecordingTooLarge => "the recording exceeds the bounded 24 MiB transcription allowance".to_owned(),
            AudioError::BuildClient(e) => prefixed("the transcription client could not be built: ", e),
            AudioError::Request(e) => prefixed("the transcription request failed: ", e),
            AudioError::Service { status, detail } => {
                let mut m = "the transcription service returned HTTP ".to_owned();
                let code = decimal_text(*status as u64);
                append_str(&mut m, code.as_str());
                append_str(&mut m, ": ");
                append_str(&mut m, detail.as_str());
                m
            },
            AudioError::InvalidResponse(e) => prefixed(
                "the transcription service returned an invalid response: ",
                e,
            ),
            AudioError::Cancelled => "the transcription was cancelled".to_owned(),
            AudioError::StartTranscriber(e) => prefixed("the transcription worker could not start: ", e),
        }
    }
}

/// The most mono samples that fit the 24 MiB transcription allowance: a
/// 16-bit WAV of 44 header bytes and two bytes per sample.
pub const MAX_MONO_SAMPLES: u64 = 12_582_890;

/// The sum of a frame's samples.
pub open spec fn sample_sum(s: Seq<i16>) -> int
    decreases s.len(),
{
    if s.len() == 0 {
        0
    } else {
        sample_sum(s.drop_last()) + s.last()
    }
}

/// Integer division rounded toward zero, as Rust's `/` on integers.
pub open spec fn quotient_toward_zero(a: int, n: int) -> int {
    if a >= 0 {
        a / n
    } else {
        -((-a) / n)
    }
}

/// The mean of a frame's channels, rounded toward zero.
pub open spec fn frame_mean(frame: Seq<i16>) -> i16 {
    quotient_toward_zero(sample_sum(frame), frame.len() as int) as i16
}

/// The mono sample of each complete frame of `channels` interleaved
/// samples, in order; samples after the last complete frame are ignored.
pub open spec fn mono_frames(data: Seq<i16>, channels: nat) -> Seq<i16>
    decreases data.len(),
{
    if channels == 0 || data.len() < channels {
        Seq::empty()
    } else {
        seq![frame_mean(data.take(channels as int))] + mono_frames(
            data.skip(channels as int),
            channels,
        )
    }
}

proof fn lemma_sum_bounds(s: Seq<i16>)
    ensures
        -32768 * s.len() <= sample_sum(s) <= 32767 * s.len(),
    decreases s.len(),
{
    if s.len() > 0 {
        lemma_sum_bounds(s.drop_last());
    }
}

proof fn lemma_mean_in_range(sum: int, n: int)
    requires
        n > 0,
        -32768 * n <= sum <= 32767 * n,
    ensures
        -32768 <= quotient_toward_zero(sum, n) <= 32767,
{
    if sum >= 0 {
        assert(sum / n <= 32767) by (nonlinear_arith)
            requires
                n > 0,
                0 <= sum <= 32767 * n,
        ;
        assert(sum / n >= 0) by (nonlinear_arith)
            requires
                n > 0,
                0 <= sum,
        ;
    } else {
        assert((-sum) / n <= 32768) by (nonlinear_arith)
            requires
                n > 0,
                0 < -sum <= 32768 * n,
        ;
        assert((-sum) / n >= 0) by (nonlinear_arith)
            requires
                n > 0,
                0 < -sum,
        ;
    }
}

/// The mean of the `channels` samples of `data` from `start` on.
fn mean_of_frame(data: &[i16], start: usize, channels: usize) -> (m: i16)
    requires
        0 < channels <= 65535,
        start + channels <= data@.len(),
    ensures
        m == frame_mean(data@.skip(start as int).take(channels as int)),
{
    let ghost frame = data@.skip(start as int).take(channels as int);
    let len = data.len();
    let mut sum: i64 = 0;
    let mut i: usize = 0;
    while i < channels
        invariant
            i <= channels <= 65535,
            len == data@.len(),
            start + channels <= len,
            frame == data@.skip(start as int).take(channels as int),
            sum == sample_sum(frame.take(i as int)),
            -32768 * i <= sum <= 32767 * i,
        decreases channels - i,
    {
        assert(frame.take(i as int + 1).drop_last() == frame.take(i as int));
        assert(frame[i as int] == data@[start + i]);
        sum = sum + data[start + i] as i64;
        i = i + 1;
    }
    assert(frame.take(channels as int) == frame);
    proof {
        lemma_sum_bounds(frame);
        lemma_mean_in_range(sum as int, channels as int);
    }
    let n = channels as i64;
    let mean: i64 = if sum >= 0 {
        sum / n
    } else {
        -((-sum) / n)
    };
    mean as i16
}

/// The capture's counters: the frames seen so far, and whether any frame
/// was dropped because the queue was full or the allowance was spent.
#[derive(Clone, Copy, Debug, PartialEq, Eq)]
pub struct CaptureCounters {
    pub frames: u64,
    pub overflow: bool,
    pub length_limit: bool,
}

/// The queue that carries mono samples to the recording writer.
pub trait SampleQueue {
    /// Queues `sample`; false when the queue is full and the sample was
    /// not queued.
    fn try_push(&mut self, sample: i16) -> bool;
}

/// A queue together with the record of every sample offered to it and
/// whether it was taken.
pub struct RecordedQueue<'a, Q> {
    queue: &'a mut Q,
    offers: Ghost<Seq<(i16, bool)>>,
}

impl<'a, Q: SampleQueue> RecordedQueue<'a, Q> {
    /// The samples offered so far, oldest first, each with whether the
    /// queue took it.
    pub closed spec fn log(&self) -> Seq<(i16, bool)> {
        self.offers@
    }

    /// The queue, with nothing yet offered to it.
    pub fn new(queue: &'a mut Q) -> (r: Self)
        ensures
            r.log() == Seq::<(i16, bool)>::empty(),
    {
        RecordedQueue { queue, offers: Ghost(Seq::empty()) }
    }

    /// Offers `sample`; false when the queue is full and did not take it.
    pub fn try_push(&mut self, sample: i16) -> (taken: bool)
        ensures
            final(self).log() == old(self).log().push((sample, taken)),
    {
        let taken = self.queue.try_push(sample);
        proof {
            self.offers@ = self.offers@.push((sample, taken));
        }
        taken
    }
}

/// The samples of the offers, in order.
pub open spec fn offered(offers: Seq<(i16, bool)>) -> Seq<i16> {
    Seq::new(offers.len(), |i: int| offers[i].0)
}

/// Some offer was refused.
pub open spec fn refused(offers: Seq<(i16, bool)>) -> bool {
    exists|i: int| 0 <= i < offers.len() && !(#[trigger] offers[i]).1
}

/// How many of `k` frames fit the allowance after `first` frames.
pub open spec fn kept_count(first: int, k: int) -> int {
    if first >= MAX_MONO_SAMPLES {
        0
    } else if k <= MAX_MONO_SAMPLES - first {
        k
    } else {
        MAX_MONO_SAMPLES - first
    }
}

/// The mono samples of one capture callback that fit the allowance: with
/// `frames` frames already counted, frame `k` of `data` is kept only while
/// `frames + k` is below the limit.
pub open spec fn kept_samples(data: Seq<i16>, channels: nat, frames: u64) -> Seq<i16> {
    let mono = mono_frames(data, channels);
    if frames >= MAX_MONO_SAMPLES {
        Seq::empty()
    } else if mono.len() <= MAX_MONO_SAMPLES - frames {
        mono
    } else {
        mono.take(MAX_MONO_SAMPLES - frames)
    }
}

proof fn lemma_mono_step(data: Seq<i16>, channels: nat, start: int)
    requires
        channels > 0,
        0 <= start,
        start + channels <= data.len(),
    ensures
        mono_frames(data.skip(start), channels) == seq![frame_mean(data.skip(start).take(channels as int))]
            + mono_frames(data.skip(start + channels), channels),
{
    assert(data.skip(start).skip(channels as int) == data.skip(start + channels));
}

/// Mixes one capture callback's interleaved frames to mono: every complete
/// frame is counted; the mean of each one within the allowance is offered
/// to `queue`, in order; a frame beyond the allowance sets `length_limit`,
/// and a sample the queue refuses sets `overflow`.
pub fn push_frames<Q: SampleQueue>(
    data: &[i16],
    channels: usize,
    queue: &mut RecordedQueue<Q>,
    counters: &mut CaptureCounters,
)
    requires
        0 < channels <= 65535,
        old(counters).frames + data@.len() <= u64::MAX,
    ensures
        final(counters).frames == old(counters).frames + mono_frames(data@, channels as nat).len(),
        final(counters).length_limit == (old(counters).length_limit || kept_samples(
            data@,
            channels as nat,
            old(counters).frames,
        ).len() < mono_frames(data@, channels as nat).len()),
        exists|offers: Seq<(i16, bool)>|
            {
                &&& final(queue).log() == old(queue).log() + offers
                &&& #[trigger] offered(offers) == kept_samples(data@, channels as nat, old(counters).frames)
                &&& final(counters).overflow == (old(counters).overflow || refused(offers))
            },
{
    let ghost mono = mono_frames(data@, channels as nat);
    let ghost first = counters.frames;
    let ghost log0 = queue.log();
    let ghost mut done: Seq<i16> = Seq::empty();
    let len = data.len();
    let mut start: usize = 0;
    let mut k: u64 = 0;
    proof {
        assert(data@.skip(0) == data@);
        assert(done + mono_frames(data@.skip(0), channels as nat) == mono);
        assert(queue.log().skip(log0.len() as int) =~= Seq::<(i16, bool)>::empty());
    }
    while channels <= len - start
        invariant
            0 < channels <= 65535,
            len == data@.len(),
            start <= len,
            first + len <= u64::MAX,
            mono == mono_frames(data@, channels as nat),
            k <= start,
            done.len() == k,
            mono == done + mono_frames(data@.skip(start as int), channels as nat),
            counters.frames == first + k,
            first == old(counters).frames,
            counters.length_limit == (old(counters).length_limit || (k > 0 && first + k
                > MAX_MONO_SAMPLES)),
            log0 == old(queue).log(),
            queue.log().len() == log0.len() + kept_count(first as int, k as int),
            queue.log().take(log0.len() as int) == log0,
            forall|i: int|
                0 <= i < kept_count(first as int, k as int) ==> (#[trigger] queue.log()[log0.len() + i]).0
                    == done[i],
            counters.overflow == (old(counters).overflow || exists|i: int|
                0 <= i < kept_count(first as int, k as int) && !(#[trigger] queue.log()[log0.len() + i]).1),
        decreases len - start,
    {
        proof {
            lemma_mono_step(data@, channels as nat, start as int);
        }
        let ghost before = queue.log();
        let ghost overflow_before = counters.overflow;
        let next = counters.frames;
        counters.frames = counters.frames + 1;
        if next >= MAX_MONO_SAMPLES {
            counters.length_limit = true;
        } else {
            let sample = mean_of_frame(data, start, channels);
            if !queue.try_push(sample) {
                counters.overflow = true;
            }
        }
        proof {
            let x = frame_mean(data@.skip(start as int).take(channels as int));
            let rest = mono_frames(data@.skip(start + channels), channels as nat);
            assert(done + (seq![x] + rest) == done.push(x) + rest);
            let c = kept_count(first as int, k as int);
            if next < MAX_MONO_SAMPLES {
                assert(kept_count(first as int, k + 1) == c + 1);
                assert(queue.log().take(log0.len() as int) =~= before.take(log0.len() as int));
                assert forall|i: int| 0 <= i < c + 1 implies (#[trigger] queue.log()[log0.len() + i]).0
                    == done.push(x)[i] by {
                    if i < c {
                        assert(queue.log()[log0.len() + i] == before[log0.len() + i]);
                    }
                }
                assert(counters.overflow == (old(counters).overflow || exists|i: int|
                    0 <= i < c + 1 && !(#[trigger] queue.log()[log0.len() + i]).1)) by {
                    if counters.overflow && !old(counters).overflow {
                        if overflow_before {
                            let i = choose|i: int| 0 <= i < c && !(#[trigger] before[log0.len() + i]).1;
                            assert(queue.log()[log0.len() + i] == before[log0.len() + i]);
                        } else {
                            assert(!queue.log()[log0.len() + c].1);
                        }
                    }
                    if !counters.overflow {
                        assert forall|i: int| 0 <= i < c + 1 implies (#[trigger] queue.log()[log0.len() + i]).1 by {
                            if i < c {
                                assert(queue.log()[log0.len() + i] == before[log0.len() + i]);
                            }
                        }
                    }
                }
            } else {
                assert(kept_count(first as int, k + 1) == c);
                assert forall|i: int| 0 <= i < c implies (#[trigger] queue.log()[log0.len() + i]).0
                    == done.push(x)[i] by {
                }
            }
            done = done.push(x);
        }
        k = k + 1;
        start = start + channels;
    }
    proof {
        assert(mono_frames(data@.skip(start as int), channels as nat) == Seq::<i16>::empty());
        assert(done + Seq::<i16>::empty() == done);
        let offers = queue.log().skip(log0.len() as int);
        assert(queue.log() =~= log0 + offers);
        assert(offered(offers) =~= kept_samples(data@, channels as nat, first)) by {
            assert forall|i: int| 0 <= i < offers.len() implies offered(offers)[i] == kept_samples(
                data@,
                channels as nat,
                first,
            )[i] by {
                assert(offers[i] == queue.log()[log0.len() + i]);
            }
        }
        assert(counters.overflow == (old(counters).overflow || refused(offers))) by {
            if refused(offers) {
                let i = choose|i: int| 0 <= i < offers.len() && !(#[trigger] offers[i]).1;
                assert(offers[i] == queue.log()[log0.len() + i]);
            }
            if counters.overflow && !old(counters).overflow {
                let i = choose|i: int|
                    0 <= i < kept_count(first as int, k as int) && !(#[trigger] queue.log()[log0.len() + i]).1;
                assert(offers[i] == queue.log()[log0.len() + i]);
            }
        }
    }
}

/// `i16::from_sample` for an unsigned 16-bit sample: the value shifted down
/// by 32768.
pub fn u16_to_i16(sample: u16) -> (r: i16)
    ensures
        r == sample - 32768,
{
    if sample < 32768 {
        sample as i16 - 32767 - 1
    } else {
        (sample - 32768) as i16
    }
}

/// What `Duration::new(secs, nanos)` returns.
pub uninterp spec fn duration_of(secs: u64, nanos: u32) -> Duration;

/// `Duration::new`.
#[verifier::external_body]
fn duration_new(secs: u64, nanos: u32) -> (d: Duration)
    requires
        nanos < 1_000_000_000,
    ensures
        d == duration_of(secs, nanos),
{
    Duration::new(secs, nanos)
}

/// A finished mono 16-bit WAV recording.
pub struct RecordedAudio {
    path: String,
    sample_rate: u32,
    samples: u64,
}

impl RecordedAudio {
    pub fn new(path: String, sample_rate: u32, samples: u64) -> (r: Self)
        ensures
            r.path() == path,
            r.rate() == sample_rate,
            r.count() == samples,
    {
        RecordedAudio { path, sample_rate, samples }
    }

    pub closed spec fn path(&self) -> String {
        self.path
    }

    pub closed spec fn rate(&self) -> u32 {
        self.sample_rate
    }

    pub closed spec fn count(&self) -> u64 {
        self.samples
    }

    /// Where the WAV file is.
    pub fn file(&self) -> (p: &String)
        ensures
            *p == self.path(),
    {
        &self.path
    }

    pub fn sample_rate(&self) -> (r: u32)
        ensures
            r == self.rate(),
    {
        self.sample_rate
    }

    pub fn samples(&self) -> (r: u64)
        ensures
            r == self.count(),
    {
        self.samples
    }

    /// The recording's length: its samples (counted at most up to
    /// `u32::MAX`) over its sample rate, rounded to the nearest nanosecond,
    /// ties to even.
    pub fn duration(&self) -> (d: Duration)
        requires
            self.rate() > 0,
        ensures
            ({
                let total = nearest_nanoseconds(counted_samples(self.count()), self.rate() as int);
                d == duration_of((total / 1_000_000_000) as u64, (total % 1_000_000_000) as u32)
            }),
    {
        let n: u64 = if self.samples > 4_294_967_295u64 {
            4_294_967_295u64
        } else {
            self.samples
        };
        let rate = self.sample_rate as u64;
        assert(n * 1_000_000_000 <= u64::MAX) by (nonlinear_arith)
            requires
                n <= 4_294_967_295,
        ;
        let scaled = n * 1_000_000_000;
        let whole = scaled / rate;
        let rest = scaled % rate;
        let up = 2 * rest > rate || (2 * rest == rate && whole % 2 == 1);
        assert(whole <= scaled) by (nonlinear_arith)
            requires
                whole == scaled as int / rate as int,
                rate >= 1,
        ;
        let total = if up {
            whole + 1
        } else {
            whole
        };
        assert(total as int == nearest_nanoseconds(n as int, rate as int));
        assert(total / 1_000_000_000 <= u64::MAX);
        duration_new(total / 1_000_000_000, (total % 1_000_000_000) as u32)
    }
}

/// The samples a duration counts: at most `u32::MAX`.
pub open spec fn counted_samples(samples: u64) -> int {
    if samples > u32::MAX {
        u32::MAX as int
    } else {
        samples as int
    }
}

/// `samples / rate` seconds in nanoseconds, rounded to the nearest
/// nanosecond, ties to even.
pub open spec fn nearest_nanoseconds(samples: int, rate: int) -> int {
    let scaled = samples * 1_000_000_000;
    let whole = scaled / rate;
    let rest = scaled % rate;
    if 2 * rest > rate || (2 * rest == rate && whole % 2 == 1) {
        whole + 1
    } else {
        whole
    }
}

/// The message reported when the worker ends without a result.
pub open spec fn worker_ended_text() -> Seq<char> {
    "transcription worker ended without a result"@
}

/// Interprets one poll of the transcription worker's channel.
pub fn transcription_poll_result(received: Result<Result<String, AudioError>, ReceiveFailure>) -> (r:
    Result<Option<String>, AudioError>)
    ensures
        received matches Ok(Ok(text)) ==> r == Ok::<Option<String>, AudioError>(Some(text)),
        received matches Ok(Err(e)) ==> r == Err::<Option<String>, AudioError>(e),
        received == Err::<Result<String, AudioError>, _>(ReceiveFailure::Empty) ==> r == Ok::<
            Option<String>,
            AudioError,
        >(None),
        received == Err::<Result<String, AudioError>, _>(ReceiveFailure::Disconnected) ==> (r matches Err(
            AudioError::InvalidResponse(m),
        ) && m@ == worker_ended_text()),
{
    match received {
        Ok(Ok(text)) => Ok(Some(text)),
        Ok(Err(e)) => Err(e),
        Err(ReceiveFailure::Empty) => Ok(None),
        Err(ReceiveFailure::Disconnected) => Err(
            AudioError::InvalidResponse("transcription worker ended without a result".to_owned()),
        ),
    }
}

/// `r` is what `transcription_poll_result` makes of `received`.
pub open spec fn poll_outcome(
    received: Result<Result<String, AudioError>, ReceiveFailure>,
    r: Result<Option<String>, AudioError>,
) -> bool {
    &&& received matches Ok(Ok(text)) ==> r == Ok::<Option<String>, AudioError>(Some(text))
    &&& received matches Ok(Err(e)) ==> r == Err::<Option<String>, AudioError>(e)
    &&& received == Err::<Result<String, AudioError>, _>(ReceiveFailure::Empty) ==> r == Ok::<
        Option<String>,
        AudioError,
    >(None)
    &&& received == Err::<Result<String, AudioError>, _>(ReceiveFailure::Disconnected) ==> (r matches Err(
        AudioError::InvalidResponse(m),
    ) && m@ == worker_ended_text())
}

/// The receiving end of a background transcription. Dropping the handle
/// closes its cancellation channel, which the worker treats as a
/// cancellation.
pub struct TranscriptionHandle {
    receiver: Receiver<Result<String, AudioError>>,
    cancellation: Sender<()>,
}

impl TranscriptionHandle {
    /// The channel on which results arrive.
    pub closed spec fn results(&self) -> Receiver<Result<String, AudioError>> {
        self.receiver
    }

    /// The channel on which a cancellation is sent.
    pub closed spec fn cancellations(&self) -> Sender<()> {
        self.cancellation
    }

    pub fn new(receiver: Receiver<Result<String, AudioError>>, cancellation: Sender<()>) -> (handle: Self)
        ensures
            handle.results() == receiver,
            handle.cancellations() == cancellation,
    {
        TranscriptionHandle { receiver, cancellation }
    }

    /// Receives a finished transcript without blocking.
    pub fn try_recv(&self) -> (r: Result<Option<String>, AudioError>)
        ensures
            exists|received: Result<Result<String, AudioError>, ReceiveFailure>| #[trigger]
                poll_outcome(received, r),
    {
        let received = receive_now(&self.receiver);
        let r = transcription_poll_result(received);
        assert(poll_outcome(received, r));
        r
    }

    /// Asks the worker to give up the transcription.
    pub fn cancel(&self) {
        signal(&self.cancellation);
    }
}

/// The default Groq speech-to-text model.
pub const DEFAULT_MODEL: &'static str = "whisper-large-v3-turbo";

/// The default Groq transcription endpoint.
pub const DEFAULT_ENDPOINT: &'static str = "https://api.groq.com/openai/v1/audio/transcriptions";

/// The transcription model: the first of the two configured overrides that
/// is present and not blank, else the default.
pub fn transcription_model(stt_model: Option<String>, whisper_model: Option<String>) -> (m: String)
    ensures
        m@ == match (stt_model, whisper_model) {
            (Some(a), _) if !is_blank(a@) => a@,
            (_, Some(b)) if !is_blank(b@) => b@,
            _ => DEFAULT_MODEL@,
        },
{
    match stt_model {
        Some(a) => {
            if !str_is_blank(a.as_str()) {
                return a;
            }
        },
        None => {},
    }
    match whisper_model {
        Some(b) => {
            if !str_is_blank(b.as_str()) {
                return b;
            }
        },
        None => {},
    }
    DEFAULT_MODEL.to_owned()
}

/// The most bytes read of a response: 64 KiB of a successful one, 4 KiB of
/// an error.
pub fn response_limit(status: u16) -> (n: u64)
    ensures
        n == if 200 <= status < 300 {
            65536u64
        } else {
            4096u64
        },
{
    if 200 <= status && status < 300 {
        65536
    } else {
        4096
    }
}

/// `split_whitespace().collect::<Vec<_>>().join(" ")` of a service error body.
pub fn compact_service_error(body: &str) -> (r: String)
    ensures
        r@ == collapse_whitespace(body@),
{
    let chars = chars_of(body);
    let words = collapse(&chars);
    string_from_chars(&words)
}

/// The transcript of a service response: a non-success status is a service
/// error with the compacted body; otherwise `decoded` (the `text` member
/// of the JSON body, or the decoding error) decides, and a transcript that
/// is blank once trimmed is an invalid response.
pub fn transcription_result(status: u16, body: &str, decoded: Result<String, String>) -> (r: Result<
    String,
    AudioError,
>)
    ensures
        !(200 <= status < 300) ==> (r matches Err(AudioError::Service { status: s, detail }) && s
            == status && detail@ == collapse_whitespace(body@)),
        200 <= status < 300 ==> match decoded {
            Err(e) => r == Err::<String, AudioError>(AudioError::InvalidResponse(e)),
            Ok(text) => if is_blank(text@) {
                r matches Err(AudioError::InvalidResponse(m)) && m@ == "transcript text was empty"@
            } else {
                r matches Ok(t) && t@ == trim(text@)
            },
        },
{
    if !(200 <= status && status < 300) {
        return Err(AudioError::Service { status, detail: compact_service_error(body) });
    }
    match decoded {
        Err(e) => Err(AudioError::InvalidResponse(e)),
        Ok(text) => {
            let t = trimmed(text.as_str());
            proof {
                crate::text::lemma_blank_iff_trim_empty(text@);
            }
            if t.as_str().is_empty() {
                Err(AudioError::InvalidResponse("transcript text was empty".to_owned()))
            } else {
                Ok(t)
            }
        },
    }
}

/// Allowance law: a capture that started within the transcription
/// allowance never keeps more samples than the allowance holds.
pub proof fn law_capture_never_exceeds_allowance(data: Seq<i16>, channels: nat, frames: u64)
    requires
        frames <= MAX_MONO_SAMPLES,
    ensures
        frames + kept_samples(data, channels, frames).len() <= MAX_MONO_SAMPLES,
{
}

} // verus!
