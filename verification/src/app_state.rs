//! State of the application.

use vstd::prelude::*;

use crate::settings::{apply_config_to_app, shown, AppConfig};
use crate::ui::{kinds_match, Effect, Status, StatusKind, VadState};

verus! {

/// Frames handed to the voice activity detector per second.
pub const FRAMES_PER_SECOND: usize = 50;

/// The things that the state holds on to without looking inside.
pub trait Handles {
    type Engine;

    type Recorder;

    type Instant;

    type ScreenCapture;

    type Automation;

    type Camera;

    type Plan;
}

/// The settings of the voice activity detector that depend on the microphone.
#[derive(Debug, Clone, Copy, PartialEq, Eq)]
pub struct VadConfig {
    pub sample_rate: u32,
    pub frame_size: usize,
}

/// State of the application.
pub struct AppState<H: Handles> {
    pub engine: Option<H::Engine>,
    pub recorder: Option<H::Recorder>,
    pub recording_started: Option<H::Instant>,
    pub vad_sample_offset: usize,
    pub auto_speak: bool,
    pub vad: VadConfig,
    pub vad_active: bool,
    pub screen_capture: Option<H::ScreenCapture>,
    pub automation: Option<H::Automation>,
    pub camera: Option<H::Camera>,
    pub pending_plan: Option<H::Plan>,
}

/// The engine as it was found.
#[derive(Debug, Clone, Copy, PartialEq, Eq)]
pub enum EngineProbe {
    /// There is none.
    Missing,
    /// It is in use.
    Busy,
    Free { supports_speech: bool },
}

/// The engine is there, is free and takes speech.
pub open spec fn takes_speech(probe: EngineProbe) -> bool {
    probe == (EngineProbe::Free { supports_speech: true })
}

/// Says whether the engine is there, is free and takes speech.
pub fn engine_supports_speech(probe: EngineProbe) -> (r: bool)
    ensures
        r == takes_speech(probe),
{
    match probe {
        EngineProbe::Free { supports_speech } => supports_speech,
        _ => false,
    }
}

/// What could be started on the platform.
pub enum PlatformServices<H: Handles> {
    Desktop { screen_capture: Option<H::ScreenCapture>, automation: Option<H::Automation> },
    Android { camera: Option<H::Camera> },
}

/// Number of samples in a frame, all channels together: a fiftieth of a second, and at least one.
pub open spec fn frame_size(sample_rate: u32, channels: u16) -> int {
    let samples = (sample_rate * channels) / (FRAMES_PER_SECOND as int);
    if samples < 1 {
        1
    } else {
        samples
    }
}

/// What is there once the microphone is open.
pub struct Microphone<H: Handles> {
    pub recorder: H::Recorder,
    pub opened_at: H::Instant,
    pub sample_rate: u32,
    pub channels: u16,
}

impl<H: Handles> AppState<H> {
    /// While the state says that speech is listened to, there is a recording, and frames have a
    /// size.
    pub open spec fn wf(&self) -> bool {
        self.vad_active ==> self.recorder is Some && self.vad.frame_size > 0
    }

    /// Speech is being listened to.
    pub open spec fn is_listening(&self) -> bool {
        self.vad_active && self.recorder is Some
    }

    /// A state without an engine, in which nothing goes on; answers are to be spoken.
    pub fn new(vad: VadConfig) -> (r: Self)
        ensures
            r == (AppState::<H> {
                engine: None,
                recorder: None,
                recording_started: None,
                vad_sample_offset: 0,
                auto_speak: true,
                vad,
                vad_active: false,
                screen_capture: None,
                automation: None,
                camera: None,
                pending_plan: None,
            }),
            r.wf(),
    {
        AppState {
            engine: None,
            recorder: None,
            recording_started: None,
            vad_sample_offset: 0,
            auto_speak: true,
            vad,
            vad_active: false,
            screen_capture: None,
            automation: None,
            camera: None,
            pending_plan: None,
        }
    }

    /// Takes in an engine that was created, and shows its settings and where they are kept.
    pub fn engine_created(
        &mut self,
        engine: H::Engine,
        config: &AppConfig,
        config_path: String,
    ) -> (r: Vec<Effect>)
        requires
            old(self).wf(),
        ensures
            final(self).wf(),
            *final(self) == (AppState::<H> { engine: Some(engine), ..*old(self) }),
            r@.len() == 5,
            r@[0] matches Effect::Settings(form) && form@ == shown(config@),
            r@.skip(1) == seq![
                Effect::ConfigPath(config_path),
                Effect::EngineReady(true),
                Effect::StatusText(Status::Ready),
                Effect::StatusType(StatusKind::Ready),
            ],
            kinds_match(r@),
    {
        self.engine = Some(engine);
        let form = apply_config_to_app(config);
        let effects = vec![
            Effect::Settings(form),
            Effect::ConfigPath(config_path),
            Effect::EngineReady(true),
            Effect::StatusText(Status::Ready),
            Effect::StatusType(StatusKind::Ready),
        ];
        effects
    }

    /// Keeps what could be started on the platform, and says whether there is a camera.
    pub fn initialize_platform_services(&mut self, services: PlatformServices<H>) -> (r: bool)
        requires
            old(self).wf(),
        ensures
            final(self).wf(),
            match services {
                PlatformServices::Desktop { screen_capture, automation } => {
                    &&& !r
                    &&& *final(self) == (AppState::<H> {
                        screen_capture: if screen_capture is Some {
                            screen_capture
                        } else {
                            old(self).screen_capture
                        },
                        automation: if automation is Some {
                            automation
                        } else {
                            old(self).automation
                        },
                        ..*old(self)
                    })
                },
                PlatformServices::Android { camera } => {
                    &&& r == camera is Some
                    &&& *final(self) == (AppState::<H> {
                        camera: if camera is Some {
                            camera
                        } else {
                            old(self).camera
                        },
                        ..*old(self)
                    })
                },
            },
    {
        match services {
            PlatformServices::Desktop { screen_capture, automation } => {
                if screen_capture.is_some() {
                    self.screen_capture = screen_capture;
                }
                if automation.is_some() {
                    self.automation = automation;
                }
                false
            },
            PlatformServices::Android { camera } => {
                if camera.is_some() {
                    self.camera = camera;
                    true
                } else {
                    false
                }
            },
        }
    }

    /// Gives up the recording and stops listening.
    pub fn stop_continuous_listening(&mut self) -> (r: Vec<Effect>)
        ensures
            final(self).wf(),
            *final(self) == (AppState::<H> {
                recorder: None,
                recording_started: None,
                vad_sample_offset: 0,
                vad_active: false,
                ..*old(self)
            }),
            !final(self).is_listening(),
            r@ == seq![Effect::ResetDetector],
    {
        self.recorder = None;
        self.recording_started = None;
        self.vad_sample_offset = 0;
        self.vad_active = false;
        vec![Effect::ResetDetector]
    }

    /// Asks for the microphone, or stops listening when the engine takes no speech.
    pub fn start_continuous_listening(&mut self, probe: EngineProbe) -> (r: Vec<Effect>)
        requires
            old(self).wf(),
        ensures
            final(self).wf(),
            takes_speech(probe) ==> *final(self) == *old(self) && r@ == seq![
                Effect::OpenMicrophone,
            ],
            !takes_speech(probe) ==> {
                &&& *final(self) == (AppState::<H> {
                    recorder: None,
                    recording_started: None,
                    vad_sample_offset: 0,
                    vad_active: false,
                    ..*old(self)
                })
                &&& r@ == seq![
                    Effect::ResetDetector,
                    Effect::VadState(VadState::Silent),
                    Effect::StatusText(Status::NoSpeechInput),
                    Effect::StatusType(StatusKind::Ready),
                ]
            },
            kinds_match(r@),
    {
        if !engine_supports_speech(probe) {
            let mut effects: Vec<Effect> = self.stop_continuous_listening();
            effects.push(Effect::VadState(VadState::Silent));
            effects.push(Effect::StatusText(Status::NoSpeechInput));
            effects.push(Effect::StatusType(StatusKind::Ready));
            return effects;
        }
        vec![Effect::OpenMicrophone]
    }

    /// Starts listening with an open microphone, or says why it could not be opened.
    pub fn microphone_opened(&mut self, opened: Result<Microphone<H>, String>) -> (r: Vec<Effect>)
        requires
            old(self).wf(),
            opened matches Ok(microphone) ==> microphone.sample_rate * microphone.channels
                <= usize::MAX,
        ensures
            final(self).wf(),
            match opened {
                Ok(microphone) => {
                    &&& *final(self) == (AppState::<H> {
                        recorder: Some(microphone.recorder),
                        recording_started: Some(microphone.opened_at),
                        vad_sample_offset: 0,
                        vad: VadConfig {
                            sample_rate: microphone.sample_rate,
                            frame_size: frame_size(
                                microphone.sample_rate,
                                microphone.channels,
                            ) as usize,
                        },
                        vad_active: true,
                        ..*old(self)
                    })
                    &&& r@ == seq![Effect::ResetDetector, Effect::VadState(VadState::Silent)]
                },
                Err(cause) => {
                    &&& *final(self) == *old(self)
                    &&& r@ == seq![
                        Effect::StatusText(Status::MicrophoneFailed(cause)),
                        Effect::StatusType(StatusKind::Error),
                    ]
                },
            },
            opened is Ok ==> final(self).is_listening(),
            kinds_match(r@),
    {
        match opened {
            Ok(microphone) => {
                let per_second: usize = microphone.sample_rate as usize * microphone.channels as usize;
                let samples: usize = per_second / FRAMES_PER_SECOND;
                self.recorder = Some(microphone.recorder);
                self.recording_started = Some(microphone.opened_at);
                self.vad_sample_offset = 0;
                self.vad = VadConfig {
                    sample_rate: microphone.sample_rate,
                    frame_size: if samples < 1 {
                        1
                    } else {
                        samples
                    },
                };
                self.vad_active = true;
                vec![Effect::ResetDetector, Effect::VadState(VadState::Silent)]
            },
            Err(cause) => vec![
                Effect::StatusText(Status::MicrophoneFailed(cause)),
                Effect::StatusType(StatusKind::Error),
            ],
        }
    }
}

/// A frame is the largest number of samples of which fifty fit into a second, but one at least.
pub proof fn frames_last_a_fiftieth_of_a_second(sample_rate: u32, channels: u16)
    ensures
        frame_size(sample_rate, channels) >= 1,
        sample_rate * channels >= 50 ==> 50 * frame_size(sample_rate, channels) <= sample_rate
            * channels < 50 * (frame_size(sample_rate, channels) + 1),
        sample_rate * channels < 50 ==> frame_size(sample_rate, channels) == 1,
{
}

/// Speech is listened to exactly while the detector is active and there is a recording.
pub proof fn listening_takes_a_recording<H: Handles>(state: AppState<H>)
    ensures
        state.is_listening() <==> state.vad_active && state.recorder is Some,
        state.wf() && state.vad_active ==> state.is_listening() && state.vad.frame_size > 0,
{
}

/// Only a free engine that takes speech is spoken to.
pub proof fn only_free_engines_take_speech(supports_speech: bool)
    ensures
        takes_speech(EngineProbe::Free { supports_speech }) == supports_speech,
        !takes_speech(EngineProbe::Missing),
        !takes_speech(EngineProbe::Busy),
{
}

} // verus!
