use ale_gui::camera::{frame_to_jpeg, rgba_frame_pixels, AndroidCamera, CameraConfig};
use ale_gui::camera_session::{
    session_frame, CameraSession, Plane, Reply, Request, SessionError, EMPTY_PAUSE_MS, FORMAT_YUV,
    FRAME_PAUSE_MS, OPEN_TIMEOUT_NS, TEMPLATE_PREVIEW,
};
use ale_gui::yuv::{convert_pixel, yuv420_to_rgba};

fn plane(data: &[u8], row_stride: i32) -> Plane {
    Plane { data: data.to_vec(), row_stride }
}

/// The reply that keeps a session going.
fn good_reply(request: &Request) -> Reply {
    match request {
        Request::CountCameras => Reply::Count(2),
        Request::CountPlanes => Reply::Count(3),
        Request::AwaitCamera { .. } | Request::AwaitSession { .. } => Reply::InTime(true),
        Request::TakeDevice => Reply::Device(true),
        Request::CheckRunning => Reply::Running(true),
        Request::AcquireImage => Reply::Image(true),
        Request::ReadY | Request::ReadU { .. } | Request::ReadV { .. } => {
            Reply::Plane(plane(&[1, 2, 3], 7))
        }
        _ => Reply::Done,
    }
}

fn streaming() -> CameraSession {
    let mut session = CameraSession::new(64, 48);
    while !matches!(session.request, Request::CheckRunning) {
        let reply = good_reply(&session.request);
        session.step(reply);
    }
    session
}

fn message(session: &CameraSession) -> String {
    match &session.request {
        Request::Finish(Err(error)) => error.text(),
        other => panic!("{other:?}"),
    }
}

#[test]
fn setup_asks_for_everything_in_order() {
    let mut session = CameraSession::new(64, 48);
    let mut asked = Vec::new();
    while !matches!(session.request, Request::CheckRunning) {
        asked.push(format!("{:?}", session.request));
        let reply = good_reply(&session.request);
        session.step(reply);
    }
    let expected = vec![
        "AttachThread".to_string(),
        "GetCameraManager".to_string(),
        "ListCameras".to_string(),
        "CountCameras".to_string(),
        "GetCamera { index: 0 }".to_string(),
        "PrepareCallbacks".to_string(),
        "OpenCamera".to_string(),
        "GetTimeUnit".to_string(),
        format!("AwaitCamera {{ timeout_ns: {OPEN_TIMEOUT_NS} }}"),
        "TakeDevice".to_string(),
        format!("CreateReader {{ width: 64, height: 48, format: {FORMAT_YUV} }}"),
        "GetSurface".to_string(),
        "CollectSurfaces".to_string(),
        "PrepareSession".to_string(),
        "CreateSession".to_string(),
        format!("AwaitSession {{ timeout_ns: {OPEN_TIMEOUT_NS} }}"),
        format!("CreateRequest {{ template: {TEMPLATE_PREVIEW} }}"),
        "AddTarget".to_string(),
        "BuildRequest".to_string(),
        "PrepareCapture".to_string(),
        "StartRepeating".to_string(),
    ];
    assert_eq!(asked, expected);
    assert_eq!((OPEN_TIMEOUT_NS, FORMAT_YUV, TEMPLATE_PREVIEW), (5_000_000_000, 0x23, 1));
}

#[test]
fn every_request_of_the_setup_can_fail() {
    for fail_at in 0..21 {
        let mut session = CameraSession::new(64, 48);
        for _ in 0..fail_at {
            let reply = good_reply(&session.request);
            session.step(reply);
        }
        session.step(Reply::Failed("broken".to_string()));
        assert_eq!(message(&session), "broken");
    }
}

#[test]
fn setup_errors_are_told_apart() {
    let mut session = CameraSession::new(64, 48);
    while !matches!(session.request, Request::CountCameras) {
        session.step(Reply::Done);
    }
    session.step(Reply::Count(0));
    assert_eq!(message(&session), "No cameras found");

    let mut session = CameraSession::new(64, 48);
    while !matches!(session.request, Request::AwaitCamera { .. }) {
        let reply = good_reply(&session.request);
        session.step(reply);
    }
    session.step(Reply::InTime(false));
    assert_eq!(message(&session), "Camera open timed out");

    let mut session = CameraSession::new(64, 48);
    while !matches!(session.request, Request::TakeDevice) {
        let reply = good_reply(&session.request);
        session.step(reply);
    }
    session.step(Reply::Device(false));
    assert_eq!(message(&session), "Camera device not available");

    let mut session = CameraSession::new(64, 48);
    while !matches!(session.request, Request::AwaitSession { .. }) {
        let reply = good_reply(&session.request);
        session.step(reply);
    }
    session.step(Reply::InTime(false));
    assert_eq!(message(&session), "Session creation timed out");
}

#[test]
fn a_round_stores_a_frame_and_closes_the_image() {
    let mut session = streaming();
    session.step(Reply::Running(true));
    assert!(matches!(session.request, Request::AcquireImage));
    session.step(Reply::Image(true));
    assert!(matches!(session.request, Request::GetPlanes));
    session.step(Reply::Done);
    session.step(Reply::Count(3));
    assert!(matches!(session.request, Request::ReadY));
    session.step(Reply::Plane(plane(&[1, 2, 3, 4], 20)));
    assert!(matches!(session.request, Request::ReadU { .. }));
    session.step(Reply::Plane(plane(&[5], 21)));
    assert!(matches!(session.request, Request::ReadV { .. }));
    session.step(Reply::Plane(plane(&[6], 22)));
    match &session.request {
        Request::StoreFrame { y, u, v } => {
            assert_eq!(*y, plane(&[1, 2, 3, 4], 20));
            assert_eq!(*u, plane(&[5], 21));
            assert_eq!(*v, plane(&[6], 22));
        }
        other => panic!("{other:?}"),
    }
    session.step(Reply::Done);
    assert!(matches!(session.request, Request::CloseImage));
    session.step(Reply::Done);
    assert!(matches!(session.request, Request::Sleep { ms: FRAME_PAUSE_MS }));
    session.step(Reply::Done);
    assert!(matches!(session.request, Request::CheckRunning));
}

#[test]
fn rounds_without_a_picture() {
    let mut session = streaming();
    session.step(Reply::Running(true));
    session.step(Reply::Image(false));
    assert!(matches!(session.request, Request::Sleep { ms: EMPTY_PAUSE_MS }));
    session.step(Reply::Done);
    session.step(Reply::Running(true));
    session.step(Reply::Image(true));
    session.step(Reply::Done);
    session.step(Reply::Count(2));
    assert!(matches!(session.request, Request::CloseImage));
    assert_eq!((EMPTY_PAUSE_MS, FRAME_PAUSE_MS), (10, 33));
}

#[test]
fn stopping_closes_camera_and_reader() {
    let mut session = streaming();
    session.step(Reply::Running(false));
    assert!(matches!(session.request, Request::CloseCamera));
    session.step(Reply::Done);
    assert!(matches!(session.request, Request::CloseReader));
    session.step(Reply::Done);
    assert!(matches!(session.request, Request::Finish(Ok(()))));
}

#[test]
fn an_unreadable_flag_ends_the_session_quietly() {
    let mut session = streaming();
    session.step(Reply::RunningUnknown);
    assert!(matches!(session.request, Request::Finish(Ok(()))));
}

#[test]
fn failures_while_streaming_end_the_session() {
    let mut session = streaming();
    session.step(Reply::Running(true));
    session.step(Reply::Failed("Failed to acquire image: x".to_string()));
    assert_eq!(message(&session), "Failed to acquire image: x");
    assert_eq!(SessionError::Call("c".to_string()).text(), "c");
}

#[test]
fn frames_show_what_the_planes_hold() {
    let frame = session_frame(1, 1, &[200], &[128], &[128], 1, 1);
    assert_eq!((frame.width, frame.height, frame.is_placeholder), (1, 1, false));
    assert_eq!(frame.rgba_data, vec![200, 200, 200, 255]);

    let (y, u, v) = ([10, 60, 99, 110, 160], [90], [200]);
    let frame = session_frame(2, 2, &y, &u, &v, 3, 1);
    let mut expected = Vec::new();
    for luma in [10, 60, 110, 160] {
        let (r, g, b) = convert_pixel(luma, 90, 200);
        expected.extend([r, g, b, 255]);
    }
    assert_eq!(frame.rgba_data, expected);
    assert_eq!(frame.rgba_data, yuv420_to_rgba(&y, &u, &v, 2, 2, 3, 1));
}

#[test]
fn an_image_becomes_the_latest_frame() {
    let mut camera = AndroidCamera::new(CameraConfig { width: 2, height: 1, fps: 30 });
    camera.start(true).unwrap();
    let mut session = CameraSession::new(2, 1);
    while !matches!(session.request, Request::CountPlanes) {
        let reply = good_reply(&session.request);
        session.step(reply);
    }
    session.step(Reply::Count(4));
    session.step(Reply::Plane(plane(&[50, 250], 2)));
    session.step(Reply::Plane(plane(&[128], 1)));
    session.step(Reply::Plane(plane(&[255], 77)));
    match &session.request {
        Request::StoreFrame { y, u, v } => {
            camera.store_image(session.width, session.height, y, u, v)
        }
        other => panic!("{other:?}"),
    }
    let latest = camera.latest_frame().unwrap();
    assert_eq!((latest.width, latest.height, latest.is_placeholder), (2, 1, false));
    assert_eq!(latest.rgba_data, yuv420_to_rgba(&[50, 250], &[128], &[255], 2, 1, 2, 1));
    assert_eq!(latest.rgba_data, vec![228, 0, 50, 255, 255, 159, 250, 255]);
    assert!(camera.running);
    assert!(camera.latest_frame_jpeg(80).is_some());
}

#[test]
fn frames_of_a_session_can_be_encoded_and_displayed() {
    let y: Vec<u8> = (0..40).map(|i| i * 6).collect();
    let frame = session_frame(5, 4, &y, &[3, 130, 250], &[77], 10, 3);
    assert!(frame_to_jpeg(&frame, 80).is_ok());
    let pixels = rgba_frame_pixels(5, 4, &frame.rgba_data);
    assert_eq!(pixels.len(), 20);
    for (pixel, bytes) in pixels.iter().zip(frame.rgba_data.chunks(4)) {
        assert_eq!([pixel.r, pixel.g, pixel.b, pixel.a], bytes);
        assert_eq!(pixel.a, 255);
    }
}
