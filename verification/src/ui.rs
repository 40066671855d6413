//! What the window is told.

use vstd::prelude::*;

use crate::settings::SettingsForm;
use crate::text::{decimal, join, to_decimal};

verus! {

/// What the voice activity detector hears.
#[derive(Debug, Clone, Copy, PartialEq, Eq)]
pub enum VadState {
    Silent,
    Speaking,
    SpeechEnded,
}

impl VadState {
    /// The word by which the window knows the state.
    pub open spec fn word(self) -> Seq<char> {
        match self {
            VadState::Silent => "silent"@,
            VadState::Speaking => "speaking"@,
            VadState::SpeechEnded => "speech_ended"@,
        }
    }

    /// Gives the word by which the window knows the state.
    pub fn label(self) -> (r: &'static str)
        ensures
            r@ == self.word(),
    {
        match self {
            VadState::Silent => "silent",
            VadState::Speaking => "speaking",
            VadState::SpeechEnded => "speech_ended",
        }
    }
}

/// How a status is displayed.
#[derive(Debug, Clone, Copy, PartialEq, Eq)]
pub enum StatusKind {
    Ready,
    Processing,
    Error,
}

impl StatusKind {
    /// The word by which the window knows the kind.
    pub open spec fn word(self) -> Seq<char> {
        match self {
            StatusKind::Ready => "ready"@,
            StatusKind::Processing => "processing"@,
            StatusKind::Error => "error"@,
        }
    }

    /// Gives the word by which the window knows the kind.
    pub fn label(self) -> (r: &'static str)
        ensures
            r@ == self.word(),
    {
        match self {
            StatusKind::Ready => "ready",
            StatusKind::Processing => "processing",
            StatusKind::Error => "error",
        }
    }
}

/// What the status line says.
#[derive(Debug, PartialEq, Eq)]
pub enum Status {
    Ready,
    InitFailed(String),
    Processing,
    NoEngine,
    RecordingFailed(String),
    Analyzing,
    NoAutomation,
    /// Number of steps that were carried out.
    Executed(usize),
    ExecutionFailed(String),
    /// Number of actions that cannot be carried out here.
    UnsupportedActions(usize),
    SaveFailed(String),
    Connected,
    NotConnected,
    ConnectionTestFailed(String),
    NoSpeechInput,
    MicrophoneFailed(String),
}

impl Status {
    /// The text of the status line.
    pub open spec fn message(self) -> Seq<char> {
        match self {
            Status::Ready => "就绪"@,
            Status::InitFailed(cause) => "初始化失败: "@ + cause@,
            Status::Processing => "处理中..."@,
            Status::NoEngine => "引擎未初始化"@,
            Status::RecordingFailed(cause) => "录音失败: "@ + cause@,
            Status::Analyzing => "分析中..."@,
            Status::NoAutomation => "自动化引擎不可用"@,
            Status::Executed(steps) => "执行完成: "@ + decimal(steps as nat) + " 步"@,
            Status::ExecutionFailed(cause) => "执行失败: "@ + cause@,
            Status::UnsupportedActions(actions) => "Android 暂不支持执行 "@ + decimal(actions as nat)
                + " 个桌面自动化动作"@,
            Status::SaveFailed(cause) => "保存失败: "@ + cause@,
            Status::Connected => "连接成功"@,
            Status::NotConnected => "连接失败"@,
            Status::ConnectionTestFailed(cause) => "测试失败: "@ + cause@,
            Status::NoSpeechInput => "当前云服务不支持语音输入，请使用文本输入"@,
            Status::MicrophoneFailed(cause) => "麦克风启动失败: "@ + cause@,
        }
    }

    /// Spells the status out.
    pub fn text(&self) -> (r: String)
        ensures
            r@ == self.message(),
    {
        match self {
            Status::Ready => "就绪".to_owned(),
            Status::InitFailed(cause) => join("初始化失败: ", cause.as_str()),
            Status::Processing => "处理中...".to_owned(),
            Status::NoEngine => "引擎未初始化".to_owned(),
            Status::RecordingFailed(cause) => join("录音失败: ", cause.as_str()),
            Status::Analyzing => "分析中...".to_owned(),
            Status::NoAutomation => "自动化引擎不可用".to_owned(),
            Status::Executed(steps) => join(
                join("执行完成: ", to_decimal(*steps).as_str()).as_str(),
                " 步",
            ),
            Status::ExecutionFailed(cause) => join("执行失败: ", cause.as_str()),
            Status::UnsupportedActions(actions) => join(
                join("Android 暂不支持执行 ", to_decimal(*actions).as_str()).as_str(),
                " 个桌面自动化动作",
            ),
            Status::SaveFailed(cause) => join("保存失败: ", cause.as_str()),
            Status::Connected => "连接成功".to_owned(),
            Status::NotConnected => "连接失败".to_owned(),
            Status::ConnectionTestFailed(cause) => join("测试失败: ", cause.as_str()),
            Status::NoSpeechInput => "当前云服务不支持语音输入，请使用文本输入".to_owned(),
            Status::MicrophoneFailed(cause) => join("麦克风启动失败: ", cause.as_str()),
        }
    }
}

/// What is shown of the user's words.
#[derive(Debug, PartialEq, Eq)]
pub enum Transcription {
    Heard(String),
    Failed(String),
}

impl Transcription {
    /// The text that is shown.
    pub open spec fn message(self) -> Seq<char> {
        match self {
            Transcription::Heard(words) => words@,
            Transcription::Failed(cause) => "转写失败: "@ + cause@,
        }
    }

    /// Spells out what is shown.
    pub fn text(&self) -> (r: String)
        ensures
            r@ == self.message(),
    {
        match self {
            Transcription::Heard(words) => words.clone(),
            Transcription::Failed(cause) => join("转写失败: ", cause.as_str()),
        }
    }
}

/// Something to be done, mostly to the window.
#[derive(Debug)]
pub enum Effect {
    /// Fill in the settings.
    Settings(SettingsForm),
    ConfigPath(String),
    EngineReady(bool),
    StatusText(Status),
    StatusType(StatusKind),
    CameraAvailable(bool),
    VadState(VadState),
    Busy(bool),
    Transcription(Transcription),
    ShowConfirmation(bool),
    ClearConfirmationText,
    ShowSettings(bool),
    ShowApiKey(bool),
    AutoSpeak(bool),
    /// Make the voice activity detector forget what it heard.
    ResetDetector,
    /// Try to listen continuously.
    StartListening,
    /// Open the microphone.
    OpenMicrophone,
}

/// Whether the window is marked as busy after the effects, when it was or was not before.
pub open spec fn busy_after(busy: bool, effects: Seq<Effect>) -> bool
    decreases effects.len(),
{
    if effects.len() == 0 {
        busy
    } else {
        match effects.last() {
            Effect::Busy(value) => value,
            _ => busy_after(busy, effects.drop_last()),
        }
    }
}

/// The kind in which a status is displayed, where one is set along with it.
pub open spec fn kind_of(status: Status) -> Option<StatusKind> {
    match status {
        Status::Ready
        | Status::Executed(_)
        | Status::Connected
        | Status::NoSpeechInput => Some(StatusKind::Ready),
        Status::Processing | Status::Analyzing => Some(StatusKind::Processing),
        Status::UnsupportedActions(_) => None,
        _ => Some(StatusKind::Error),
    }
}

/// Every status text among the effects comes with its kind right after it.
pub open spec fn kinds_match(effects: Seq<Effect>) -> bool {
    forall|i: int|
        0 <= i < effects.len() ==> match #[trigger] effects[i] {
            Effect::StatusText(status) => match kind_of(status) {
                Some(kind) => i + 1 < effects.len() && effects[i + 1] == Effect::StatusType(kind),
                None => true,
            },
            _ => true,
        }
}

/// A status that has a cause or a number says so in full: first what happened, then the cause as it
/// was reported, or the number in decimal.
pub proof fn statuses_name_their_cause(cause: String, count: usize)
    ensures
        Status::InitFailed(cause).message() == "初始化失败: "@ + cause@,
        Status::RecordingFailed(cause).message() == "录音失败: "@ + cause@,
        Status::ExecutionFailed(cause).message() == "执行失败: "@ + cause@,
        Status::SaveFailed(cause).message() == "保存失败: "@ + cause@,
        Status::ConnectionTestFailed(cause).message() == "测试失败: "@ + cause@,
        Status::MicrophoneFailed(cause).message() == "麦克风启动失败: "@ + cause@,
        Status::Executed(count).message() == "执行完成: "@ + decimal(count as nat) + " 步"@,
        Status::UnsupportedActions(count).message() == "Android 暂不支持执行 "@ + decimal(
            count as nat,
        ) + " 个桌面自动化动作"@,
        Transcription::Heard(cause).message() == cause@,
        Transcription::Failed(cause).message() == "转写失败: "@ + cause@,
{
}

/// The last effect on the busy mark decides, and others leave it alone.
pub proof fn the_last_busy_mark_counts(busy: bool, effects: Seq<Effect>, last: Effect)
    ensures
        busy_after(busy, Seq::empty()) == busy,
        busy_after(busy, effects.push(last)) == match last {
            Effect::Busy(value) => value,
            _ => busy_after(busy, effects),
        },
{
    assert(effects.push(last).drop_last() =~= effects);
}

} // verus!
