use ale_gui::actions::{
    cancel_action, close_settings, connection_tested, engine_failed, engine_task_begun, open_settings,
    plan_executed, plan_unavailable, plan_unsupported, services_ready, task_result, text_answered,
    text_submitted, toggle_api_key_visible, Confirmation,
};
use ale_gui::app_state::{
    engine_supports_speech, AppState, EngineProbe, Handles, Microphone, PlatformServices, VadConfig,
};
use ale_gui::recorder::{Input, Recorder};
use ale_gui::settings::{AppConfig, CloudApiConfig, UiConfig};
use ale_gui::turn::{frames_processed, turn_step, TurnEvent, TurnRequest};
use ale_gui::ui::{Effect, Status, StatusKind, Transcription, VadState};

struct Names;

impl Handles for Names {
    type Engine = &'static str;
    type Recorder = &'static str;
    type Instant = u64;
    type ScreenCapture = &'static str;
    type Automation = &'static str;
    type Camera = &'static str;
    type Plan = &'static str;
}

const SPEECH: EngineProbe = EngineProbe::Free { supports_speech: true };

const NO_SPEECH: EngineProbe = EngineProbe::Free { supports_speech: false };

fn fresh() -> AppState<Names> {
    AppState::new(VadConfig { sample_rate: 16_000, frame_size: 320 })
}

fn listening() -> AppState<Names> {
    let mut state = fresh();
    state.microphone_opened(Ok(Microphone {
        recorder: "recorder",
        opened_at: 5,
        sample_rate: 100,
        channels: 1,
    }));
    state
}

fn settings() -> AppConfig {
    AppConfig {
        cloud_api: CloudApiConfig {
            provider: "p".to_string(),
            api_key: "k".to_string(),
            api_url: "u".to_string(),
            model: "m".to_string(),
            max_tokens: 12,
        },
        ui: UiConfig { auto_speak: true },
    }
}

/// The effects as text.
fn spelled(effects: &[Effect]) -> Vec<String> {
    effects
        .iter()
        .map(|effect| match effect {
            Effect::Settings(form) => format!("settings {}", form.max_tokens_str),
            Effect::StatusText(status) => status.text(),
            Effect::StatusType(kind) => kind.label().to_string(),
            Effect::VadState(state) => state.label().to_string(),
            Effect::Transcription(words) => words.text(),
            other => format!("{other:?}"),
        })
        .collect()
}

#[test]
fn fresh_state_is_idle() {
    let state = fresh();
    assert!(state.engine.is_none() && state.recorder.is_none() && state.recording_started.is_none());
    assert!(state.screen_capture.is_none() && state.automation.is_none() && state.camera.is_none());
    assert!(state.pending_plan.is_none() && !state.vad_active && state.auto_speak);
    assert_eq!(state.vad_sample_offset, 0);
    assert_eq!(state.vad, VadConfig { sample_rate: 16_000, frame_size: 320 });
}

#[test]
fn speech_needs_a_free_engine() {
    assert!(engine_supports_speech(SPEECH));
    for probe in [NO_SPEECH, EngineProbe::Busy, EngineProbe::Missing] {
        assert!(!engine_supports_speech(probe));
    }
}

#[test]
fn an_engine_is_taken_in() {
    let mut state = fresh();
    let effects = state.engine_created("engine", &settings(), "/path".to_string());
    assert_eq!(state.engine, Some("engine"));
    assert_eq!(
        spelled(&effects),
        ["settings 12", "ConfigPath(\"/path\")", "EngineReady(true)", "就绪", "ready"]
    );
    assert_eq!(spelled(&engine_failed("no net".to_string())), ["初始化失败: no net", "error"]);
}

#[test]
fn platform_services_are_kept() {
    let mut desktop = fresh();
    assert!(!desktop.initialize_platform_services(PlatformServices::Desktop {
        screen_capture: Some("screen"),
        automation: None,
    }));
    assert_eq!((desktop.screen_capture, desktop.automation), (Some("screen"), None));
    assert!(!desktop.initialize_platform_services(PlatformServices::Desktop {
        screen_capture: None,
        automation: Some("automation"),
    }));
    assert_eq!((desktop.screen_capture, desktop.automation), (Some("screen"), Some("automation")));

    let mut android = fresh();
    assert!(!android.initialize_platform_services(PlatformServices::Android { camera: None }));
    assert!(android.camera.is_none());
    assert!(android.initialize_platform_services(PlatformServices::Android { camera: Some("cam") }));
    assert_eq!(android.camera, Some("cam"));
}

#[test]
fn listening_starts_after_the_services() {
    assert_eq!(spelled(&services_ready(true, SPEECH)), ["CameraAvailable(true)", "StartListening"]);
    assert_eq!(spelled(&services_ready(false, NO_SPEECH)), ["CameraAvailable(false)"]);
}

#[test]
fn listening_needs_speech_support() {
    let mut state = listening();
    state.vad_sample_offset = 9;
    assert_eq!(spelled(&state.start_continuous_listening(SPEECH)), ["OpenMicrophone"]);
    assert!(state.vad_active && state.vad_sample_offset == 9);
    assert_eq!(
        spelled(&state.start_continuous_listening(NO_SPEECH)),
        ["ResetDetector", "silent", "当前云服务不支持语音输入，请使用文本输入", "ready"]
    );
    assert!(!state.vad_active && state.recorder.is_none() && state.recording_started.is_none());
    assert_eq!(state.vad_sample_offset, 0);
}

#[test]
fn an_open_microphone_is_listened_to() {
    let mut state = fresh();
    let effects = state.microphone_opened(Ok(Microphone {
        recorder: "recorder",
        opened_at: 5,
        sample_rate: 44_100,
        channels: 2,
    }));
    assert_eq!(spelled(&effects), ["ResetDetector", "silent"]);
    assert!(state.vad_active);
    assert_eq!((state.recorder, state.recording_started), (Some("recorder"), Some(5)));
    assert_eq!(state.vad, VadConfig { sample_rate: 44_100, frame_size: 1764 });

    state.microphone_opened(Ok(Microphone {
        recorder: "slow",
        opened_at: 6,
        sample_rate: 40,
        channels: 1,
    }));
    assert_eq!(state.vad.frame_size, 1);
}

#[test]
fn a_microphone_that_does_not_open_changes_nothing() {
    let mut state = listening();
    let effects = state.microphone_opened(Err("busy".to_string()));
    assert_eq!(spelled(&effects), ["麦克风启动失败: busy", "error"]);
    assert!(state.vad_active && state.recorder == Some("recorder"));
}

#[test]
fn stopping_forgets_the_recording() {
    let mut state = listening();
    assert_eq!(spelled(&state.stop_continuous_listening()), ["ResetDetector"]);
    assert!(!state.vad_active && state.recorder.is_none() && state.recording_started.is_none());
}

#[test]
fn polling_reads_what_is_new() {
    let mut recording = Recorder::new(100, 1);
    recording.push_input(Input::F32(&[1f32.to_bits(), (-1f32).to_bits()]), 100, 1);
    let mut idle = fresh();
    assert_eq!(idle.poll_samples(&recording), None);
    assert_eq!(idle.vad_sample_offset, 0);

    let mut state = listening();
    assert_eq!(state.poll_samples(&recording), Some(vec![0xFF, 0x7F, 0x01, 0x80]));
    assert_eq!(state.vad_sample_offset, 2);
    assert_eq!(state.poll_samples(&recording), None);
    recording.push_input(Input::F32(&[0.5f32.to_bits()]), 100, 1);
    assert_eq!(state.poll_samples(&recording), Some(vec![0xFF, 0x3F]));
}

#[test]
fn samples_are_divided_into_full_frames() {
    let state = listening();
    assert_eq!(state.vad.frame_size, 2);
    assert_eq!(state.frames_to_process(7), Some(vec![(0, 2), (2, 4), (4, 6)]));
    assert_eq!(state.frames_to_process(6), Some(vec![(0, 2), (2, 4), (4, 6)]));
    assert_eq!(state.frames_to_process(1), Some(vec![]));
    assert_eq!(fresh().frames_to_process(7), None);
}

#[test]
fn the_end_of_speech_is_noticed() {
    let (effects, ended) = frames_processed(&[VadState::Silent, VadState::Speaking], VadState::Speaking);
    assert_eq!((spelled(&effects), ended), (vec!["speaking".to_string()], false));
    let (effects, ended) =
        frames_processed(&[VadState::SpeechEnded, VadState::Silent], VadState::Silent);
    assert_eq!((spelled(&effects), ended), (vec!["silent".to_string()], true));
    assert!(!frames_processed(&[], VadState::SpeechEnded).1);
    assert_eq!(VadState::SpeechEnded.label(), "speech_ended");
}

#[test]
fn a_turn_takes_the_recording() {
    let mut state = listening();
    state.auto_speak_changed(false);
    let start = state.begin_turn();
    assert_eq!((start.recorder, start.auto_speak), (Some("recorder"), false));
    assert_eq!(spelled(&start.effects), ["Busy(true)", "处理中...", "processing"]);
    assert!(!state.vad_active && state.recorder.is_none() && state.recording_started.is_none());
    assert!(state.begin_turn().recorder.is_none());
}

#[test]
fn a_turn_goes_its_way() {
    let (effects, request) = turn_step(TurnEvent::Begun { engine: true, recorder: true });
    assert!(effects.is_empty() && matches!(request, TurnRequest::Encode));
    let (effects, request) = turn_step(TurnEvent::Encoded(Ok(vec![1, 2])));
    assert!(effects.is_empty());
    match request {
        TurnRequest::Transcribe(audio) => assert_eq!(audio, vec![1, 2]),
        other => panic!("{other:?}"),
    }
    let (effects, request) = turn_step(TurnEvent::Transcribed(Ok("what?".to_string())));
    assert_eq!(spelled(&effects), ["what?"]);
    match request {
        TurnRequest::Ask(question) => assert_eq!(question, "what?"),
        other => panic!("{other:?}"),
    }
    let (effects, request) = turn_step(TurnEvent::Answered);
    assert_eq!(spelled(&effects), ["Busy(false)", "StartListening"]);
    assert!(matches!(request, TurnRequest::Done));
}

#[test]
fn turns_that_fail_end_idle() {
    let (effects, request) = turn_step(TurnEvent::Begun { engine: false, recorder: true });
    assert_eq!(spelled(&effects), ["引擎未初始化", "error", "Busy(false)"]);
    assert!(matches!(request, TurnRequest::Done));
    let (effects, request) = turn_step(TurnEvent::Begun { engine: true, recorder: false });
    assert_eq!(spelled(&effects), ["Busy(false)"]);
    assert!(matches!(request, TurnRequest::Done));
    let (effects, request) = turn_step(TurnEvent::Encoded(Err("没有录到音频".to_string())));
    assert_eq!(spelled(&effects), ["录音失败: 没有录到音频", "error", "Busy(false)"]);
    assert!(matches!(request, TurnRequest::Done));
    let (effects, request) = turn_step(TurnEvent::Transcribed(Err("timeout".to_string())));
    assert_eq!(
        spelled(&effects),
        ["转写失败: timeout", "Busy(false)", "就绪", "ready", "StartListening"]
    );
    assert!(matches!(request, TurnRequest::Done));
}

#[test]
fn typed_questions() {
    assert!(text_submitted(String::new(), true).is_none());
    assert!(text_submitted("why?".to_string(), false).is_none());
    let (effects, question) = text_submitted("why?".to_string(), true).unwrap();
    assert_eq!(question, "why?");
    assert_eq!(spelled(&effects), ["why?", "Busy(true)", "分析中...", "processing"]);
    assert_eq!(spelled(&text_answered()), ["Busy(false)"]);
    assert_eq!(Transcription::Failed("x".to_string()).text(), "转写失败: x");
}

#[test]
fn plans_are_confirmed_once() {
    let mut state = fresh();
    assert!(matches!(state.confirm_action(false), Confirmation::Nothing));
    state.pending_plan = Some("plan");
    assert!(matches!(state.confirm_action(false), Confirmation::Unavailable));
    assert!(state.pending_plan.is_none());
    state.automation = Some("automation");
    state.pending_plan = Some("plan");
    assert!(matches!(state.confirm_action(true), Confirmation::Unsupported("plan")));
    state.pending_plan = Some("plan");
    assert!(matches!(state.confirm_action(false), Confirmation::Execute("plan")));
    assert!(matches!(state.confirm_action(false), Confirmation::Nothing));
}

#[test]
fn plans_report_what_became_of_them() {
    assert_eq!(
        spelled(&plan_unavailable()),
        ["ShowConfirmation(false)", "自动化引擎不可用", "error"]
    );
    assert_eq!(
        spelled(&plan_unsupported(3)),
        ["ShowConfirmation(false)", "Android 暂不支持执行 3 个桌面自动化动作"]
    );
    assert_eq!(
        spelled(&plan_executed(task_result(Ok(Ok(12))))),
        ["ShowConfirmation(false)", "执行完成: 12 步", "ready"]
    );
    assert_eq!(
        spelled(&plan_executed(task_result(Ok(Err("stuck".to_string()))))),
        ["ShowConfirmation(false)", "执行失败: stuck", "error"]
    );
    assert_eq!(
        spelled(&plan_executed(task_result(Err("panicked".to_string())))),
        ["ShowConfirmation(false)", "执行失败: Automation task failed: panicked", "error"]
    );
    assert_eq!(spelled(&cancel_action()), ["ShowConfirmation(false)", "ClearConfirmationText"]);
}

#[test]
fn settings_open_and_close() {
    assert_eq!(spelled(&open_settings(Some(&settings()))), ["settings 12", "ShowSettings(true)"]);
    assert_eq!(spelled(&open_settings(None)), ["ShowSettings(true)"]);
    assert_eq!(spelled(&close_settings()), ["ShowSettings(false)"]);
    assert_eq!(spelled(&toggle_api_key_visible(false)), ["ShowApiKey(true)"]);
    assert_eq!(spelled(&toggle_api_key_visible(true)), ["ShowApiKey(false)"]);
}

#[test]
fn saved_settings_decide_about_listening() {
    assert!(engine_task_begun(false).is_none());
    assert_eq!(spelled(&engine_task_begun(true).unwrap()), ["Busy(true)"]);

    let mut state = listening();
    assert_eq!(
        spelled(&state.settings_saved(Ok(settings()), SPEECH)),
        ["settings 12", "就绪", "ready", "ShowSettings(false)", "StartListening", "Busy(false)"]
    );
    assert!(state.vad_active);
    assert_eq!(
        spelled(&state.settings_saved(Err("disk".to_string()), SPEECH)),
        ["保存失败: disk", "error", "Busy(false)"]
    );
    assert!(state.vad_active);
    assert_eq!(
        spelled(&state.settings_saved(Ok(settings()), NO_SPEECH)),
        ["settings 12", "就绪", "ready", "ShowSettings(false)", "ResetDetector", "Busy(false)"]
    );
    assert!(!state.vad_active && state.recorder.is_none());
}

#[test]
fn connection_tests_report() {
    assert_eq!(spelled(&connection_tested(Ok(true))), ["连接成功", "ready", "Busy(false)"]);
    assert_eq!(spelled(&connection_tested(Ok(false))), ["连接失败", "error", "Busy(false)"]);
    assert_eq!(
        spelled(&connection_tested(Err("API key 未配置".to_string()))),
        ["测试失败: API key 未配置", "error", "Busy(false)"]
    );
    assert_eq!(StatusKind::Processing.label(), "processing");
    assert_eq!(Status::NoSpeechInput.text(), "当前云服务不支持语音输入，请使用文本输入");
}
