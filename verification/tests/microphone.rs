use ale_gui::microphone::{
    InputFormat, InputKind, MicrophoneReply, MicrophoneStep, SampleFormat,
};

const FORMAT: InputFormat = InputFormat { sample_rate: 44_100, channels: 2 };

fn configured(sample_format: SampleFormat) -> MicrophoneStep {
    MicrophoneStep::first(false)
        .next(MicrophoneReply::Done)
        .next(MicrophoneReply::Config { sample_format, format: FORMAT })
}

fn failed(step: MicrophoneStep) -> String {
    message(step.next(MicrophoneReply::Failed("why".to_string())))
}

fn message(step: MicrophoneStep) -> String {
    match step {
        MicrophoneStep::Finish(Err(error)) => error.text(),
        other => panic!("{other:?}"),
    }
}

#[test]
fn desktop_microphone_opens() {
    for (sample_format, expected) in [
        (SampleFormat::F32, InputKind::F32),
        (SampleFormat::I16, InputKind::I16),
        (SampleFormat::U16, InputKind::U16),
    ] {
        let step = configured(sample_format);
        match &step {
            MicrophoneStep::BuildStream { kind, format } => {
                assert_eq!((*kind, *format), (expected, FORMAT))
            }
            other => panic!("{other:?}"),
        }
        let step = step.next(MicrophoneReply::Done).next(MicrophoneReply::Done);
        assert!(matches!(step, MicrophoneStep::Finish(Ok(FORMAT))));
    }
}

#[test]
fn android_microphone_opens() {
    let step = MicrophoneStep::first(true).next(MicrophoneReply::Done).next(MicrophoneReply::Done);
    match step.next(MicrophoneReply::SampleRate(48_000)) {
        MicrophoneStep::Finish(Ok(format)) => {
            assert_eq!(format, InputFormat { sample_rate: 48_000, channels: 1 })
        }
        other => panic!("{other:?}"),
    }
}

#[test]
fn microphone_errors_are_told_apart() {
    assert_eq!(
        message(MicrophoneStep::first(false).next(MicrophoneReply::Missing)),
        "没有找到可用麦克风"
    );
    let found = MicrophoneStep::first(false).next(MicrophoneReply::Done);
    assert_eq!(failed(found), "获取麦克风配置失败: why");
    assert_eq!(
        message(configured(SampleFormat::Other("F64".to_string()))),
        "不支持的麦克风采样格式: F64"
    );
    assert_eq!(failed(configured(SampleFormat::F32)), "创建录音流失败: why");
    assert_eq!(
        failed(configured(SampleFormat::F32).next(MicrophoneReply::Done)),
        "启动录音失败: why"
    );
    assert_eq!(failed(MicrophoneStep::first(true)), "打开音频流失败: why");
    assert_eq!(
        failed(MicrophoneStep::first(true).next(MicrophoneReply::Done)),
        "启动录音失败: why"
    );
}
