//! Opening the microphone.
//!
//! The steps say what to ask of the audio system next; the replies are handed in.

use vstd::prelude::*;

use crate::text::join;

verus! {

/// How the audio system delivers samples.
#[derive(Debug, PartialEq, Eq)]
pub enum SampleFormat {
    F32,
    I16,
    U16,
    /// Some other format, by its name.
    Other(String),
}

/// The formats in which samples can be taken.
#[derive(Debug, Clone, Copy, PartialEq, Eq)]
pub enum InputKind {
    F32,
    I16,
    U16,
}

/// Samples per second and channel, and number of channels.
#[derive(Debug, Clone, Copy, PartialEq, Eq)]
pub struct InputFormat {
    pub sample_rate: u32,
    pub channels: u16,
}

/// Why the microphone cannot be opened.
#[derive(Debug)]
pub enum MicrophoneError {
    NoDevice,
    Config(String),
    UnsupportedFormat(String),
    CreateStream(String),
    OpenStream(String),
    Start(String),
}

impl MicrophoneError {
    /// What the error says.
    pub open spec fn message(&self) -> Seq<char> {
        match self {
            MicrophoneError::NoDevice => "没有找到可用麦克风"@,
            MicrophoneError::Config(cause) => "获取麦克风配置失败: "@ + cause@,
            MicrophoneError::UnsupportedFormat(name) => "不支持的麦克风采样格式: "@ + name@,
            MicrophoneError::CreateStream(cause) => "创建录音流失败: "@ + cause@,
            MicrophoneError::OpenStream(cause) => "打开音频流失败: "@ + cause@,
            MicrophoneError::Start(cause) => "启动录音失败: "@ + cause@,
        }
    }

    /// Spells the error out.
    pub fn text(&self) -> (r: String)
        ensures
            r@ == self.message(),
    {
        match self {
            MicrophoneError::NoDevice => "没有找到可用麦克风".to_owned(),
            MicrophoneError::Config(cause) => join("获取麦克风配置失败: ", cause.as_str()),
            MicrophoneError::UnsupportedFormat(name) => join(
                "不支持的麦克风采样格式: ",
                name.as_str(),
            ),
            MicrophoneError::CreateStream(cause) => join("创建录音流失败: ", cause.as_str()),
            MicrophoneError::OpenStream(cause) => join("打开音频流失败: ", cause.as_str()),
            MicrophoneError::Start(cause) => join("启动录音失败: ", cause.as_str()),
        }
    }
}

/// What to ask of the audio system.  On the desktop a device is found, asked for its configuration
/// and given a stream; on Android a stream is opened right away, for single-precision samples on one
/// channel.
#[derive(Debug)]
pub enum MicrophoneStep {
    FindDevice,
    GetConfig,
    BuildStream { kind: InputKind, format: InputFormat },
    Play { format: InputFormat },
    OpenStream,
    StartStream,
    GetSampleRate,
    Finish(Result<InputFormat, MicrophoneError>),
}

/// What the audio system replied.
#[derive(Debug)]
pub enum MicrophoneReply {
    Done,
    Failed(String),
    /// There is no device.
    Missing,
    Config { sample_format: SampleFormat, format: InputFormat },
    SampleRate(i32),
}

/// Where opening the microphone begins.
pub open spec fn first_step(on_android: bool) -> MicrophoneStep {
    if on_android {
        MicrophoneStep::OpenStream
    } else {
        MicrophoneStep::FindDevice
    }
}

/// The reply is one that the step can get.
pub open spec fn fits(step: MicrophoneStep, reply: MicrophoneReply) -> bool {
    match step {
        MicrophoneStep::FindDevice => reply is Done || reply is Missing,
        MicrophoneStep::GetConfig => reply is Config || reply is Failed,
        MicrophoneStep::GetSampleRate => reply is SampleRate,
        MicrophoneStep::Finish(_) => false,
        _ => reply is Done || reply is Failed,
    }
}

/// The step after a reply with a configuration.
pub open spec fn build_step(sample_format: SampleFormat, format: InputFormat) -> MicrophoneStep {
    match sample_format {
        SampleFormat::F32 => MicrophoneStep::BuildStream { kind: InputKind::F32, format },
        SampleFormat::I16 => MicrophoneStep::BuildStream { kind: InputKind::I16, format },
        SampleFormat::U16 => MicrophoneStep::BuildStream { kind: InputKind::U16, format },
        SampleFormat::Other(name) => MicrophoneStep::Finish(
            Err(MicrophoneError::UnsupportedFormat(name)),
        ),
    }
}

/// The step after a reply.
pub open spec fn next_step(step: MicrophoneStep, reply: MicrophoneReply) -> MicrophoneStep {
    match (step, reply) {
        (MicrophoneStep::FindDevice, MicrophoneReply::Done) => MicrophoneStep::GetConfig,
        (MicrophoneStep::FindDevice, _) => MicrophoneStep::Finish(Err(MicrophoneError::NoDevice)),
        (
            MicrophoneStep::GetConfig,
            MicrophoneReply::Config { sample_format, format },
        ) => build_step(sample_format, format),
        (MicrophoneStep::GetConfig, MicrophoneReply::Failed(cause)) => MicrophoneStep::Finish(
            Err(MicrophoneError::Config(cause)),
        ),
        (
            MicrophoneStep::BuildStream { format, .. },
            MicrophoneReply::Done,
        ) => MicrophoneStep::Play { format },
        (
            MicrophoneStep::BuildStream { .. },
            MicrophoneReply::Failed(cause),
        ) => MicrophoneStep::Finish(Err(MicrophoneError::CreateStream(cause))),
        (MicrophoneStep::Play { format }, MicrophoneReply::Done) => MicrophoneStep::Finish(
            Ok(format),
        ),
        (MicrophoneStep::Play { .. }, MicrophoneReply::Failed(cause)) => MicrophoneStep::Finish(
            Err(MicrophoneError::Start(cause)),
        ),
        (MicrophoneStep::OpenStream, MicrophoneReply::Done) => MicrophoneStep::StartStream,
        (MicrophoneStep::OpenStream, MicrophoneReply::Failed(cause)) => MicrophoneStep::Finish(
            Err(MicrophoneError::OpenStream(cause)),
        ),
        (MicrophoneStep::StartStream, MicrophoneReply::Done) => MicrophoneStep::GetSampleRate,
        (MicrophoneStep::StartStream, MicrophoneReply::Failed(cause)) => MicrophoneStep::Finish(
            Err(MicrophoneError::Start(cause)),
        ),
        (MicrophoneStep::GetSampleRate, MicrophoneReply::SampleRate(rate)) => MicrophoneStep::Finish(
            Ok(InputFormat { sample_rate: rate as u32, channels: 1 }),
        ),
        (step, _) => step,
    }
}

impl MicrophoneStep {
    /// Begins to open the microphone.
    pub fn first(on_android: bool) -> (r: MicrophoneStep)
        ensures
            r == first_step(on_android),
    {
        if on_android {
            MicrophoneStep::OpenStream
        } else {
            MicrophoneStep::FindDevice
        }
    }

    /// Moves on after a reply.
    pub fn next(self, reply: MicrophoneReply) -> (r: MicrophoneStep)
        requires
            fits(self, reply),
        ensures
            r == next_step(self, reply),
    {
        match (self, reply) {
            (MicrophoneStep::FindDevice, MicrophoneReply::Done) => MicrophoneStep::GetConfig,
            (MicrophoneStep::FindDevice, _) => MicrophoneStep::Finish(
                Err(MicrophoneError::NoDevice),
            ),
            (
                MicrophoneStep::GetConfig,
                MicrophoneReply::Config { sample_format, format },
            ) => match sample_format {
                SampleFormat::F32 => MicrophoneStep::BuildStream { kind: InputKind::F32, format },
                SampleFormat::I16 => MicrophoneStep::BuildStream { kind: InputKind::I16, format },
                SampleFormat::U16 => MicrophoneStep::BuildStream { kind: InputKind::U16, format },
                SampleFormat::Other(name) => MicrophoneStep::Finish(
                    Err(MicrophoneError::UnsupportedFormat(name)),
                ),
            },
            (
                MicrophoneStep::BuildStream { format, .. },
                MicrophoneReply::Done,
            ) => MicrophoneStep::Play { format },
            (MicrophoneStep::Play { format }, MicrophoneReply::Done) => MicrophoneStep::Finish(
                Ok(format),
            ),
            (MicrophoneStep::OpenStream, MicrophoneReply::Done) => MicrophoneStep::StartStream,
            (MicrophoneStep::StartStream, MicrophoneReply::Done) => MicrophoneStep::GetSampleRate,
            (
                MicrophoneStep::GetSampleRate,
                MicrophoneReply::SampleRate(rate),
            ) => MicrophoneStep::Finish(Ok(InputFormat { sample_rate: rate as u32, channels: 1 })),
            (step, MicrophoneReply::Failed(cause)) => {
                let error = match step {
                    MicrophoneStep::GetConfig => MicrophoneError::Config(cause),
                    MicrophoneStep::BuildStream { .. } => MicrophoneError::CreateStream(cause),
                    MicrophoneStep::OpenStream => MicrophoneError::OpenStream(cause),
                    _ => MicrophoneError::Start(cause),
                };
                MicrophoneStep::Finish(Err(error))
            },
            (step, _) => step,
        }
    }
}

/// How many more replies there can be.
pub open spec fn steps_left(step: MicrophoneStep) -> nat {
    match step {
        MicrophoneStep::FindDevice => 4,
        MicrophoneStep::GetConfig => 3,
        MicrophoneStep::BuildStream { .. } => 2,
        MicrophoneStep::Play { .. } => 1,
        MicrophoneStep::OpenStream => 3,
        MicrophoneStep::StartStream => 2,
        MicrophoneStep::GetSampleRate => 1,
        MicrophoneStep::Finish(_) => 0,
    }
}

/// Every reply brings the end nearer.
pub proof fn opening_ends(step: MicrophoneStep, reply: MicrophoneReply)
    requires
        fits(step, reply),
    ensures
        steps_left(next_step(step, reply)) < steps_left(step),
{
}

/// A reply that reports a failure ends in an error.
pub proof fn failures_are_reported(step: MicrophoneStep, reply: MicrophoneReply)
    requires
        fits(step, reply),
        reply is Failed || reply is Missing,
    ensures
        next_step(step, reply) matches MicrophoneStep::Finish(Err(_)),
{
}

/// The microphone is open only once the stream plays, and then with the format that the device was
/// configured for; on Android, once the stream runs and its rate is known.
pub proof fn open_microphones_play(step: MicrophoneStep, reply: MicrophoneReply, format: InputFormat)
    requires
        fits(step, reply),
        next_step(step, reply) == MicrophoneStep::Finish(Ok(format)),
    ensures
        (step == (MicrophoneStep::Play { format }) && reply is Done) || (step is GetSampleRate
            && format.channels == 1),
        step is GetSampleRate ==> (reply matches MicrophoneReply::SampleRate(rate)
            && format.sample_rate == rate as u32),
{
}

/// On the desktop a device that delivers samples in a known format is recorded in just that format,
/// with the rate and the channels that it is configured for; one in another format is refused by
/// its name.
pub proof fn desktop_microphones_keep_their_format(format: InputFormat, name: String)
    ensures
        first_step(false) is FindDevice,
        ({
            let asked = next_step(first_step(false), MicrophoneReply::Done);
            let floats = next_step(
                asked,
                MicrophoneReply::Config { sample_format: SampleFormat::F32, format },
            );
            let signed = next_step(
                asked,
                MicrophoneReply::Config { sample_format: SampleFormat::I16, format },
            );
            let unsigned = next_step(
                asked,
                MicrophoneReply::Config { sample_format: SampleFormat::U16, format },
            );
            let unknown = next_step(
                asked,
                MicrophoneReply::Config { sample_format: SampleFormat::Other(name), format },
            );
            &&& asked is GetConfig
            &&& floats matches MicrophoneStep::BuildStream { kind: a, format: b } && a is F32 && b
                == format
            &&& signed matches MicrophoneStep::BuildStream { kind: a, format: b } && a is I16 && b
                == format
            &&& unsigned matches MicrophoneStep::BuildStream { kind: a, format: b } && a is U16 && b
                == format
            &&& unknown == MicrophoneStep::Finish(Err(MicrophoneError::UnsupportedFormat(name)))
        }),
{
}

/// A stream that is built and plays has the format that it was built for.
pub proof fn playing_streams_keep_their_format(kind: InputKind, format: InputFormat)
    ensures
        ({
            let built = next_step(
                MicrophoneStep::BuildStream { kind, format },
                MicrophoneReply::Done,
            );
            next_step(built, MicrophoneReply::Done) == MicrophoneStep::Finish(Ok(format))
        }),
{
}

/// On Android the recording has the rate that the running stream reports, and one channel.
pub proof fn android_microphones_take_the_rate_of_the_stream(rate: i32)
    ensures
        ({
            let opened = next_step(first_step(true), MicrophoneReply::Done);
            let started = next_step(opened, MicrophoneReply::Done);
            &&& first_step(true) is OpenStream
            &&& opened is StartStream
            &&& started is GetSampleRate
            &&& next_step(started, MicrophoneReply::SampleRate(rate)) matches MicrophoneStep::Finish(
                Ok(format),
            ) && format.sample_rate == rate as u32 && format.channels == 1
        }),
{
}

/// Whatever fails is reported with its own cause, and by what failed.
pub proof fn failures_name_their_cause(step: MicrophoneStep, cause: String)
    requires
        fits(step, MicrophoneReply::Failed(cause)),
    ensures
        next_step(step, MicrophoneReply::Failed(cause)) matches MicrophoneStep::Finish(Err(error))
            && match step {
            MicrophoneStep::GetConfig => error == MicrophoneError::Config(cause),
            MicrophoneStep::BuildStream { .. } => error == MicrophoneError::CreateStream(cause),
            MicrophoneStep::OpenStream => error == MicrophoneError::OpenStream(cause),
            _ => error == MicrophoneError::Start(cause),
        },
        next_step(MicrophoneStep::FindDevice, MicrophoneReply::Missing) == MicrophoneStep::Finish(
            Err(MicrophoneError::NoDevice),
        ),
{
}

/// An error says what failed and then the cause as it was reported.
pub proof fn microphone_errors_say_their_cause(cause: String)
    ensures
        MicrophoneError::Config(cause).message() == "获取麦克风配置失败: "@ + cause@,
        MicrophoneError::UnsupportedFormat(cause).message() == "不支持的麦克风采样格式: "@ + cause@,
        MicrophoneError::CreateStream(cause).message() == "创建录音流失败: "@ + cause@,
        MicrophoneError::OpenStream(cause).message() == "打开音频流失败: "@ + cause@,
        MicrophoneError::Start(cause).message() == "启动录音失败: "@ + cause@,
{
}

} // verus!
