//! A spoken turn: hearing that the user has finished, transcribing, answering.

use vstd::prelude::*;

use crate::app_state::{AppState, Handles};
use crate::camera::{frame_jpeg, FrameView};
use crate::pcm::{pcm_bytes, pcm_values};
use crate::recorder::Recorder;
use crate::sample_buffer::{retained, up_to_date_reader_gets_what_arrives, Window};
use crate::ui::{busy_after, kinds_match, Effect, Status, StatusKind, Transcription, VadState};

verus! {

/// Quality of the picture that goes with a question.
pub const PICTURE_QUALITY: u8 = 80;

/// Where frame number `k` begins and ends.
pub open spec fn frame_bounds(frame_size: nat, k: int) -> (usize, usize) {
    ((k * frame_size) as usize, ((k + 1) * frame_size) as usize)
}

/// What a turn begins with: the recording to be transcribed, whether the answer is to be spoken,
/// and what is to be done at once.
pub struct TurnStart<R> {
    pub recorder: Option<R>,
    pub auto_speak: bool,
    pub effects: Vec<Effect>,
}

impl<H: Handles> AppState<H> {
    /// Reads what was recorded since the last time, as PCM bytes; nothing while speech is not
    /// listened to or when nothing came in.
    pub fn poll_samples(&mut self, recording: &Recorder) -> (r: Option<Vec<u8>>)
        requires
            old(self).wf(),
            recording.wf(),
        ensures
            final(self).wf(),
            !old(self).is_listening() ==> r is None && *final(self) == *old(self),
            old(self).is_listening() ==> {
                let new = recording.samples@.since(old(self).vad_sample_offset as nat);
                &&& *final(self) == (AppState::<H> {
                    vad_sample_offset: recording.samples@.next() as usize,
                    ..*old(self)
                })
                &&& r is Some <==> new.len() > 0
                &&& r is Some ==> r->0@ == pcm_bytes(pcm_values(new))
            },
    {
        if !self.vad_active || self.recorder.is_none() {
            return None;
        }
        let mut offset: usize = self.vad_sample_offset;
        let bytes: Vec<u8> = recording.samples_since(&mut offset);
        self.vad_sample_offset = offset;
        if bytes.len() == 0 {
            None
        } else {
            Some(bytes)
        }
    }

    /// Divides samples into frames for the detector; nothing while speech is not listened to.
    /// Samples at the end that do not fill a frame are left out.
    pub fn frames_to_process(&self, count: usize) -> (r: Option<Vec<(usize, usize)>>)
        requires
            self.wf(),
        ensures
            r is Some <==> self.is_listening(),
            r is Some ==> r->0@ == Seq::new(
                count as nat / self.vad.frame_size as nat,
                |k: int| frame_bounds(self.vad.frame_size as nat, k),
            ),
    {
        if !self.vad_active || self.recorder.is_none() {
            return None;
        }
        let size: usize = self.vad.frame_size;
        let ghost whole = Seq::new(
            count as nat / size as nat,
            |k: int| frame_bounds(size as nat, k),
        );
        let mut bounds: Vec<(usize, usize)> = Vec::new();
        let mut start: usize = 0;
        proof {
            vstd::arithmetic::div_mod::lemma_fundamental_div_mod(count as int, size as int);
            assert(0 * size == 0) by (nonlinear_arith);
        }
        while count - start >= size
            invariant
                size > 0,
                start <= count,
                start == bounds@.len() * size,
                bounds@.len() <= whole.len(),
                whole == Seq::new(
                    count as nat / size as nat,
                    |k: int| frame_bounds(size as nat, k),
                ),
                bounds@ == whole.take(bounds@.len() as int),
            decreases count - start,
        {
            let end: usize = start + size;
            let ghost k = bounds@.len();
            proof {
                assert((k + 1) * size == k * size + size) by (nonlinear_arith);
                lemma_frames(count as nat, size as nat, k + 1);
            }
            bounds.push((start, end));
            assert(bounds@ =~= whole.take((k + 1) as int));
            start = end;
        }
        proof {
            let k = bounds@.len();
            assert((k + 1) * size == k * size + size) by (nonlinear_arith);
            lemma_frames(count as nat, size as nat, k + 1);
            assert(bounds@ =~= whole);
        }
        Some(bounds)
    }

    /// Takes the recording away for a turn; speech is not listened to meanwhile.
    pub fn begin_turn(&mut self) -> (r: TurnStart<H::Recorder>)
        requires
            old(self).wf(),
        ensures
            final(self).wf(),
            *final(self) == (AppState::<H> {
                recorder: None,
                recording_started: None,
                vad_active: false,
                ..*old(self)
            }),
            r.recorder == old(self).recorder,
            r.auto_speak == old(self).auto_speak,
            r.effects@ == seq![
                Effect::Busy(true),
                Effect::StatusText(Status::Processing),
                Effect::StatusType(StatusKind::Processing),
            ],
            !final(self).is_listening(),
            kinds_match(r.effects@),
            busy_after(false, r.effects@),
    {
        let recorder = self.recorder.take();
        self.recording_started = None;
        self.vad_active = false;
        proof {
            reveal_with_fuel(busy_after, 4);
        }
        TurnStart {
            recorder,
            auto_speak: self.auto_speak,
            effects: vec![
                Effect::Busy(true),
                Effect::StatusText(Status::Processing),
                Effect::StatusType(StatusKind::Processing),
            ],
        }
    }
}

/// A poll after another one reads exactly what was recorded in between, or the end of it when more
/// came in than a recording holds.
pub proof fn polls_hear_what_arrives(recording: Window<u32>, new: Seq<u32>, capacity: nat)
    ensures
        pcm_bytes(pcm_values(recording.push(new, capacity).since(recording.next()))) == pcm_bytes(
            pcm_values(retained(new, capacity)),
        ),
{
    up_to_date_reader_gets_what_arrives(recording, new, capacity);
}

/// That many frames fit exactly when their samples do.
proof fn lemma_frames(count: nat, size: nat, k: nat)
    requires
        size > 0,
    ensures
        k <= count / size <==> k * size <= count,
{
    let q = count / size;
    vstd::arithmetic::div_mod::lemma_fundamental_div_mod(count as int, size as int);
    if k <= q {
        assert(k * size <= size * q) by (nonlinear_arith)
            requires
                k <= q,
        ;
    } else {
        assert(k * size >= size * q + size) by (nonlinear_arith)
            requires
                k >= q + 1,
        ;
    }
}

/// Frames follow one another without a gap from the first sample on, all have the same size, and
/// fewer samples than fill a frame are left over.
pub proof fn frames_tile_the_samples(count: usize, frame_size: usize, k: int)
    requires
        frame_size > 0,
        0 <= k < count / frame_size,
    ensures
        frame_bounds(frame_size as nat, 0).0 == 0,
        frame_bounds(frame_size as nat, k).1 - frame_bounds(frame_size as nat, k).0 == frame_size,
        frame_bounds(frame_size as nat, k).1 <= count,
        frame_bounds(frame_size as nat, k + 1).0 == frame_bounds(frame_size as nat, k).1,
        k + 1 == count / frame_size ==> count - frame_bounds(frame_size as nat, k).1 < frame_size,
{
    let size = frame_size as nat;
    lemma_frames(count as nat, size, (k + 1) as nat);
    lemma_frames(count as nat, size, (k + 2) as nat);
    assert(0 * size == 0) by (nonlinear_arith);
    assert(0 <= k * size && (k + 1) * size == k * size + size && (k + 2) * size == k * size + 2
        * size) by (nonlinear_arith)
        requires
            k >= 0,
    ;
}

/// Says from what the detector made of the frames whether the user has finished, and shows the
/// state that it is in now.
pub fn frames_processed(outcomes: &[VadState], state: VadState) -> (r: (Vec<Effect>, bool))
    ensures
        r.0@ == seq![Effect::VadState(state)],
        r.1 == outcomes@.contains(VadState::SpeechEnded),
{
    let mut speech_ended: bool = false;
    let mut i: usize = 0;
    while i < outcomes.len()
        invariant
            i <= outcomes@.len(),
            speech_ended == outcomes@.take(i as int).contains(VadState::SpeechEnded),
        decreases outcomes@.len() - i,
    {
        let ghost before = outcomes@.take(i as int);
        assert(outcomes@.take(i + 1) =~= before.push(outcomes@[i as int]));
        match outcomes[i] {
            VadState::SpeechEnded => {
                speech_ended = true;
                assert(outcomes@.take(i + 1)[i as int] == VadState::SpeechEnded);
            },
            _ => {
                assert(before.push(outcomes@[i as int]).contains(VadState::SpeechEnded)
                    ==> before.contains(VadState::SpeechEnded));
                if speech_ended {
                    assert(exists|j: int|
                        0 <= j < before.len() && before[j] == VadState::SpeechEnded);
                    assert(forall|j: int|
                        0 <= j < before.len() ==> outcomes@.take(i + 1)[j] == before[j]);
                }
            },
        }
        i = i + 1;
    }
    assert(outcomes@.take(i as int) =~= outcomes@);
    (vec![Effect::VadState(state)], speech_ended)
}

/// What has happened in a turn.
#[derive(Debug)]
pub enum TurnEvent {
    /// It began; an engine and a recording are there or not.
    Begun { engine: bool, recorder: bool },
    /// The recording was encoded.
    Encoded(Result<Vec<u8>, String>),
    /// The audio was transcribed.
    Transcribed(Result<String, String>),
    /// The question was answered.
    Answered,
}

/// What a turn needs next.
#[derive(Debug)]
pub enum TurnRequest {
    Encode,
    Transcribe(Vec<u8>),
    Ask(String),
    /// Nothing: the turn is over.
    Done,
}

/// What an event leads to.
pub open spec fn turn_effects(event: TurnEvent) -> Seq<Effect> {
    match event {
        TurnEvent::Begun { engine: false, .. } => seq![
            Effect::StatusText(Status::NoEngine),
            Effect::StatusType(StatusKind::Error),
            Effect::Busy(false),
        ],
        TurnEvent::Begun { engine: true, recorder: false } => seq![Effect::Busy(false)],
        TurnEvent::Begun { engine: true, recorder: true } => Seq::empty(),
        TurnEvent::Encoded(Ok(_)) => Seq::empty(),
        TurnEvent::Encoded(Err(cause)) => seq![
            Effect::StatusText(Status::RecordingFailed(cause)),
            Effect::StatusType(StatusKind::Error),
            Effect::Busy(false),
        ],
        TurnEvent::Transcribed(Ok(words)) => seq![
            Effect::Transcription(Transcription::Heard(words)),
        ],
        TurnEvent::Transcribed(Err(cause)) => seq![
            Effect::Transcription(Transcription::Failed(cause)),
            Effect::Busy(false),
            Effect::StatusText(Status::Ready),
            Effect::StatusType(StatusKind::Ready),
            Effect::StartListening,
        ],
        TurnEvent::Answered => seq![Effect::Busy(false), Effect::StartListening],
    }
}

/// What the turn needs after an event.
pub open spec fn turn_request(event: TurnEvent) -> TurnRequest {
    match event {
        TurnEvent::Begun { engine: true, recorder: true } => TurnRequest::Encode,
        TurnEvent::Encoded(Ok(audio)) => TurnRequest::Transcribe(audio),
        TurnEvent::Transcribed(Ok(words)) => TurnRequest::Ask(words),
        _ => TurnRequest::Done,
    }
}

/// Moves a turn on.
pub fn turn_step(event: TurnEvent) -> (r: (Vec<Effect>, TurnRequest))
    ensures
        r.0@ == turn_effects(event),
        r.1 == turn_request(event),
{
    match event {
        TurnEvent::Begun { engine, recorder } => {
            if !engine {
                (
                    vec![
                        Effect::StatusText(Status::NoEngine),
                        Effect::StatusType(StatusKind::Error),
                        Effect::Busy(false),
                    ],
                    TurnRequest::Done,
                )
            } else if !recorder {
                (vec![Effect::Busy(false)], TurnRequest::Done)
            } else {
                (Vec::new(), TurnRequest::Encode)
            }
        },
        TurnEvent::Encoded(Ok(audio)) => (Vec::new(), TurnRequest::Transcribe(audio)),
        TurnEvent::Encoded(Err(cause)) => (
            vec![
                Effect::StatusText(Status::RecordingFailed(cause)),
                Effect::StatusType(StatusKind::Error),
                Effect::Busy(false),
            ],
            TurnRequest::Done,
        ),
        TurnEvent::Transcribed(Ok(words)) => (
            vec![Effect::Transcription(Transcription::Heard(words.clone()))],
            TurnRequest::Ask(words),
        ),
        TurnEvent::Transcribed(Err(cause)) => (
            vec![
                Effect::Transcription(Transcription::Failed(cause)),
                Effect::Busy(false),
                Effect::StatusText(Status::Ready),
                Effect::StatusType(StatusKind::Ready),
                Effect::StartListening,
            ],
            TurnRequest::Done,
        ),
        TurnEvent::Answered => (
            vec![Effect::Busy(false), Effect::StartListening],
            TurnRequest::Done,
        ),
    }
}

/// The window is busy until the turn is over, and then no longer.
pub proof fn turns_leave_the_window_idle(event: TurnEvent)
    ensures
        busy_after(true, turn_effects(event)) == !(turn_request(event) is Done),
{
    reveal_with_fuel(busy_after, 6);
}

/// A turn listens again exactly when it ends with a failed transcription or with an answer.
pub proof fn turns_listen_again(event: TurnEvent)
    ensures
        turn_effects(event).contains(Effect::StartListening) <==> (event is Answered
            || event matches TurnEvent::Transcribed(Err(_))),
{
    let effects = turn_effects(event);
    match event {
        TurnEvent::Answered => {
            assert(effects[1] == Effect::StartListening);
        },
        TurnEvent::Transcribed(Err(_)) => {
            assert(effects[4] == Effect::StartListening);
        },
        _ => {},
    }
}

/// Every status that a turn shows comes with its kind.
pub proof fn turn_statuses_have_their_kind(event: TurnEvent)
    ensures
        kinds_match(turn_effects(event)),
{
}

/// A turn in which nothing fails goes on to the answer: what was recorded is transcribed as it is,
/// and the words that were heard are shown and asked as they are.
pub proof fn turns_go_on_to_the_answer(audio: Vec<u8>, words: String)
    ensures
        turn_request(TurnEvent::Begun { engine: true, recorder: true }) is Encode,
        turn_request(TurnEvent::Encoded(Ok(audio))) == TurnRequest::Transcribe(audio),
        turn_request(TurnEvent::Transcribed(Ok(words))) == TurnRequest::Ask(words),
        turn_effects(TurnEvent::Begun { engine: true, recorder: true }).len() == 0,
        turn_effects(TurnEvent::Encoded(Ok(audio))).len() == 0,
        turn_effects(TurnEvent::Transcribed(Ok(words))).len() == 1,
        turn_effects(TurnEvent::Transcribed(Ok(words)))[0] == Effect::Transcription(
            Transcription::Heard(words),
        ),
{
}

/// A turn is over only once it was answered or something is missing or has failed.
pub proof fn turns_end_for_a_reason(event: TurnEvent)
    ensures
        turn_request(event) is Done <==> match event {
            TurnEvent::Begun { engine, recorder } => !(engine && recorder),
            TurnEvent::Encoded(result) => result is Err,
            TurnEvent::Transcribed(result) => result is Err,
            TurnEvent::Answered => true,
        },
{
}

/// A turn that ends early says why: the cause is reported as it was given, and nothing else is
/// reported.
pub proof fn turns_say_why_they_end(cause: String, recorder: bool)
    ensures
        ({
            let missing = turn_effects(TurnEvent::Begun { engine: false, recorder });
            let silent = turn_effects(TurnEvent::Begun { engine: true, recorder: false });
            let unrecorded = turn_effects(TurnEvent::Encoded(Err(cause)));
            let unheard = turn_effects(TurnEvent::Transcribed(Err(cause)));
            let answered = turn_effects(TurnEvent::Answered);
            &&& missing.len() == 3 && missing.contains(Effect::StatusText(Status::NoEngine))
            &&& silent.len() == 1 && silent.contains(Effect::Busy(false))
            &&& unrecorded.len() == 3 && unrecorded.contains(
                Effect::StatusText(Status::RecordingFailed(cause)),
            )
            &&& unheard.len() == 5 && unheard.contains(
                Effect::Transcription(Transcription::Failed(cause)),
            ) && unheard.contains(Effect::StatusText(Status::Ready)) && unheard.last()
                == Effect::StartListening
            &&& answered.len() == 2 && answered.last() == Effect::StartListening
        }),
{
    assert(turn_effects(TurnEvent::Begun { engine: false, recorder })[0] == Effect::StatusText(
        Status::NoEngine,
    ));
    assert(turn_effects(TurnEvent::Begun { engine: true, recorder: false })[0] == Effect::Busy(
        false,
    ));
    assert(turn_effects(TurnEvent::Encoded(Err(cause)))[0] == Effect::StatusText(
        Status::RecordingFailed(cause),
    ));
    let unheard = turn_effects(TurnEvent::Transcribed(Err(cause)));
    assert(unheard[0] == Effect::Transcription(Transcription::Failed(cause)));
    assert(unheard[2] == Effect::StatusText(Status::Ready));
}

/// The picture that goes with a question is encoded with quality 80.
pub proof fn questions_go_with_good_pictures(frame: FrameView)
    ensures
        frame_jpeg(frame, PICTURE_QUALITY) == frame_jpeg(frame, 80),
{
}

} // verus!
