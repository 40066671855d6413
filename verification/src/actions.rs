//! What the user does at the window, and what comes of it.

use vstd::prelude::*;
use vstd::string::*;

use crate::app_state::{engine_supports_speech, takes_speech, AppState, EngineProbe, Handles};
use crate::settings::{apply_config_to_app, shown, AppConfig};
use crate::text::join;
use crate::ui::{busy_after, kinds_match, Effect, Status, StatusKind, Transcription};

verus! {

/// Says that no engine could be created.
pub fn engine_failed(cause: String) -> (r: Vec<Effect>)
    ensures
        r@ == seq![
            Effect::StatusText(Status::InitFailed(cause)),
            Effect::StatusType(StatusKind::Error),
        ],
        kinds_match(r@),
{
    vec![Effect::StatusText(Status::InitFailed(cause)), Effect::StatusType(StatusKind::Error)]
}

/// Shows whether there is a camera and starts to listen if the engine takes speech.
pub fn services_ready(camera_available: bool, probe: EngineProbe) -> (r: Vec<Effect>)
    ensures
        r@ == if takes_speech(probe) {
            seq![Effect::CameraAvailable(camera_available), Effect::StartListening]
        } else {
            seq![Effect::CameraAvailable(camera_available)]
        },
{
    let mut effects: Vec<Effect> = vec![Effect::CameraAvailable(camera_available)];
    if engine_supports_speech(probe) {
        effects.push(Effect::StartListening);
    }
    effects
}

/// Takes a question that was typed in; an empty one is ignored, and so is any while there is no
/// engine.
pub fn text_submitted(question: String, engine: bool) -> (r: Option<(Vec<Effect>, String)>)
    ensures
        r is Some <==> question@.len() > 0 && engine,
        r matches Some((effects, asked)) ==> {
            &&& asked == question
            &&& effects@ == seq![
                Effect::Transcription(Transcription::Heard(question)),
                Effect::Busy(true),
                Effect::StatusText(Status::Analyzing),
                Effect::StatusType(StatusKind::Processing),
            ]
            &&& kinds_match(effects@)
            &&& busy_after(false, effects@)
        },
{
    if question.as_str().unicode_len() == 0 || !engine {
        return None;
    }
    let effects = vec![
        Effect::Transcription(Transcription::Heard(question.clone())),
        Effect::Busy(true),
        Effect::StatusText(Status::Analyzing),
        Effect::StatusType(StatusKind::Processing),
    ];
    proof {
        reveal_with_fuel(busy_after, 4);
    }
    Some((effects, question))
}

/// Ends a question that was typed in.
pub fn text_answered() -> (r: Vec<Effect>)
    ensures
        r@ == seq![Effect::Busy(false)],
        !busy_after(true, r@),
{
    vec![Effect::Busy(false)]
}

/// What is to become of a plan that the user has confirmed.
pub enum Confirmation<P> {
    /// There was none.
    Nothing,
    /// Nothing here carries plans out.
    Unavailable,
    /// It is to be carried out.
    Execute(P),
    /// It cannot be carried out on this platform.
    Unsupported(P),
}

impl<H: Handles> AppState<H> {
    /// What is to become of the pending plan.
    pub open spec fn confirmation(&self, on_android: bool) -> Confirmation<H::Plan> {
        match self.pending_plan {
            None => Confirmation::Nothing,
            Some(plan) => if on_android {
                Confirmation::Unsupported(plan)
            } else if self.automation is None {
                Confirmation::Unavailable
            } else {
                Confirmation::Execute(plan)
            },
        }
    }

    /// Takes the pending plan, which the user has confirmed.
    pub fn confirm_action(&mut self, on_android: bool) -> (r: Confirmation<H::Plan>)
        requires
            old(self).wf(),
        ensures
            final(self).wf(),
            r == old(self).confirmation(on_android),
            *final(self) == (AppState::<H> { pending_plan: None, ..*old(self) }),
    {
        match self.pending_plan.take() {
            None => Confirmation::Nothing,
            Some(plan) => {
                if on_android {
                    Confirmation::Unsupported(plan)
                } else if self.automation.is_none() {
                    Confirmation::Unavailable
                } else {
                    Confirmation::Execute(plan)
                }
            },
        }
    }

    /// Remembers whether answers are to be spoken.
    pub fn auto_speak_changed(&mut self, value: bool) -> (r: Vec<Effect>)
        requires
            old(self).wf(),
        ensures
            final(self).wf(),
            *final(self) == (AppState::<H> { auto_speak: value, ..*old(self) }),
            r@ == seq![Effect::AutoSpeak(value)],
    {
        self.auto_speak = value;
        vec![Effect::AutoSpeak(value)]
    }

    /// Shows settings that were saved, and listens from now on or no longer; or says why they could
    /// not be saved.
    pub fn settings_saved(
        &mut self,
        saved: Result<AppConfig, String>,
        probe: EngineProbe,
    ) -> (r: Vec<Effect>)
        requires
            old(self).wf(),
        ensures
            final(self).wf(),
            match saved {
                Ok(config) => {
                    &&& r@.len() == 6
                    &&& r@[0] matches Effect::Settings(form)
                    &&& form@ == shown(config@)
                    &&& r@.skip(1) == seq![
                        Effect::StatusText(Status::Ready),
                        Effect::StatusType(StatusKind::Ready),
                        Effect::ShowSettings(false),
                        if takes_speech(probe) {
                            Effect::StartListening
                        } else {
                            Effect::ResetDetector
                        },
                        Effect::Busy(false),
                    ]
                    &&& takes_speech(probe) ==> *final(self) == *old(self)
                    &&& !takes_speech(probe) ==> *final(self) == (AppState::<H> {
                        recorder: None,
                        recording_started: None,
                        vad_sample_offset: 0,
                        vad_active: false,
                        ..*old(self)
                    })
                },
                Err(cause) => {
                    &&& r@ == seq![
                        Effect::StatusText(Status::SaveFailed(cause)),
                        Effect::StatusType(StatusKind::Error),
                        Effect::Busy(false),
                    ]
                    &&& *final(self) == *old(self)
                },
            },
            kinds_match(r@),
            !busy_after(true, r@),
    {
        match saved {
            Ok(config) => {
                let form = apply_config_to_app(&config);
                let mut effects: Vec<Effect> = vec![
                    Effect::Settings(form),
                    Effect::StatusText(Status::Ready),
                    Effect::StatusType(StatusKind::Ready),
                    Effect::ShowSettings(false),
                ];
                if engine_supports_speech(probe) {
                    effects.push(Effect::StartListening);
                } else {
                    let mut stopped: Vec<Effect> = self.stop_continuous_listening();
                    effects.append(&mut stopped);
                }
                effects.push(Effect::Busy(false));
                effects
            },
            Err(cause) => vec![
                Effect::StatusText(Status::SaveFailed(cause)),
                Effect::StatusType(StatusKind::Error),
                Effect::Busy(false),
            ],
        }
    }
}

/// Says that nothing carries plans out.
pub fn plan_unavailable() -> (r: Vec<Effect>)
    ensures
        r@ == seq![
            Effect::ShowConfirmation(false),
            Effect::StatusText(Status::NoAutomation),
            Effect::StatusType(StatusKind::Error),
        ],
        kinds_match(r@),
{
    vec![
        Effect::ShowConfirmation(false),
        Effect::StatusText(Status::NoAutomation),
        Effect::StatusType(StatusKind::Error),
    ]
}

/// Says that a plan of so many actions cannot be carried out on this platform.
pub fn plan_unsupported(actions: usize) -> (r: Vec<Effect>)
    ensures
        r@ == seq![
            Effect::ShowConfirmation(false),
            Effect::StatusText(Status::UnsupportedActions(actions)),
        ],
{
    vec![
        Effect::ShowConfirmation(false),
        Effect::StatusText(Status::UnsupportedActions(actions)),
    ]
}

/// The result of carrying a plan out in a task of its own, which may itself have failed.
pub fn task_result(
    joined: Result<Result<usize, String>, String>,
) -> (r: Result<usize, String>)
    ensures
        match joined {
            Ok(result) => r == result,
            Err(cause) => r is Err && r->Err_0@ == "Automation task failed: "@ + cause@,
        },
{
    match joined {
        Ok(result) => result,
        Err(cause) => Err(join("Automation task failed: ", cause.as_str())),
    }
}

/// Says how many steps of a plan were carried out, or why it failed.
pub fn plan_executed(result: Result<usize, String>) -> (r: Vec<Effect>)
    ensures
        r@ == match result {
            Ok(steps) => seq![
                Effect::ShowConfirmation(false),
                Effect::StatusText(Status::Executed(steps)),
                Effect::StatusType(StatusKind::Ready),
            ],
            Err(cause) => seq![
                Effect::ShowConfirmation(false),
                Effect::StatusText(Status::ExecutionFailed(cause)),
                Effect::StatusType(StatusKind::Error),
            ],
        },
        kinds_match(r@),
{
    match result {
        Ok(steps) => vec![
            Effect::ShowConfirmation(false),
            Effect::StatusText(Status::Executed(steps)),
            Effect::StatusType(StatusKind::Ready),
        ],
        Err(cause) => vec![
            Effect::ShowConfirmation(false),
            Effect::StatusText(Status::ExecutionFailed(cause)),
            Effect::StatusType(StatusKind::Error),
        ],
    }
}

/// Takes the question back whether to carry a plan out.
pub fn cancel_action() -> (r: Vec<Effect>)
    ensures
        r@ == seq![Effect::ShowConfirmation(false), Effect::ClearConfirmationText],
{
    vec![Effect::ShowConfirmation(false), Effect::ClearConfirmationText]
}

/// Opens the settings, filled in from those of the engine if there is one.
pub fn open_settings(config: Option<&AppConfig>) -> (r: Vec<Effect>)
    ensures
        match config {
            Some(config) => {
                &&& r@.len() == 2
                &&& r@[0] matches Effect::Settings(form)
                &&& form@ == shown(config@)
                &&& r@[1] == Effect::ShowSettings(true)
            },
            None => r@ == seq![Effect::ShowSettings(true)],
        },
{
    match config {
        Some(config) => {
            let form = apply_config_to_app(config);
            vec![Effect::Settings(form), Effect::ShowSettings(true)]
        },
        None => vec![Effect::ShowSettings(true)],
    }
}

/// Closes the settings.
pub fn close_settings() -> (r: Vec<Effect>)
    ensures
        r@ == seq![Effect::ShowSettings(false)],
{
    vec![Effect::ShowSettings(false)]
}

/// Shows the access key, or hides it.
pub fn toggle_api_key_visible(visible: bool) -> (r: Vec<Effect>)
    ensures
        r@ == seq![Effect::ShowApiKey(!visible)],
{
    vec![Effect::ShowApiKey(!visible)]
}

/// Begins to save the settings or to test the connection; neither is done without an engine.
pub fn engine_task_begun(engine: bool) -> (r: Option<Vec<Effect>>)
    ensures
        r is Some <==> engine,
        r matches Some(effects) ==> effects@ == seq![Effect::Busy(true)],
{
    if !engine {
        return None;
    }
    Some(vec![Effect::Busy(true)])
}

/// Says how the test of the connection came out.
pub fn connection_tested(result: Result<bool, String>) -> (r: Vec<Effect>)
    ensures
        r@ == match result {
            Ok(connected) => if connected {
                seq![
                    Effect::StatusText(Status::Connected),
                    Effect::StatusType(StatusKind::Ready),
                    Effect::Busy(false),
                ]
            } else {
                seq![
                    Effect::StatusText(Status::NotConnected),
                    Effect::StatusType(StatusKind::Error),
                    Effect::Busy(false),
                ]
            },
            Err(cause) => seq![
                Effect::StatusText(Status::ConnectionTestFailed(cause)),
                Effect::StatusType(StatusKind::Error),
                Effect::Busy(false),
            ],
        },
        kinds_match(r@),
        !busy_after(true, r@),
{
    match result {
        Ok(true) => vec![
            Effect::StatusText(Status::Connected),
            Effect::StatusType(StatusKind::Ready),
            Effect::Busy(false),
        ],
        Ok(false) => vec![
            Effect::StatusText(Status::NotConnected),
            Effect::StatusType(StatusKind::Error),
            Effect::Busy(false),
        ],
        Err(cause) => vec![
            Effect::StatusText(Status::ConnectionTestFailed(cause)),
            Effect::StatusType(StatusKind::Error),
            Effect::Busy(false),
        ],
    }
}

/// A plan is handed out once, however often it is confirmed.
pub proof fn plans_are_handed_out_once<H: Handles>(state: AppState<H>, on_android: bool)
    ensures
        (AppState::<H> { pending_plan: None, ..state }).confirmation(on_android) is Nothing,
{
}

/// A confirmed plan is carried out wherever plans are carried out, and is handed on as it was made.
pub proof fn confirmed_plans_are_carried_out<H: Handles>(state: AppState<H>, plan: H::Plan)
    requires
        state.pending_plan == Some(plan),
    ensures
        state.confirmation(true) == Confirmation::<H::Plan>::Unsupported(plan),
        state.automation is Some ==> state.confirmation(false) == Confirmation::<H::Plan>::Execute(
            plan,
        ),
        state.automation is None ==> state.confirmation(false) is Unavailable,
{
}

/// Without a pending plan there is nothing to confirm.
pub proof fn nothing_is_confirmed_without_a_plan<H: Handles>(state: AppState<H>, on_android: bool)
    ensures
        state.confirmation(on_android) is Nothing <==> state.pending_plan is None,
{
}

} // verus!
