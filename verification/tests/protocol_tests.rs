use iced_layout_inspector::client::{ack_result, decode_screenshot, dump_result, ping_result, screenshot_result};
use iced_layout_inspector::server::{
    encode_screenshot_jpeg, layout_reply, result_reply, route_request, screenshot_reply, CommandKind,
    Delivery, Request, Response, Route, ScreenshotData,
};

fn error_text(r: &Response) -> Option<&str> {
    match r {
        Response::Error(e) => Some(e.as_str()),
        _ => None,
    }
}

#[test]
fn ping_is_answered_by_the_server() {
    assert!(matches!(route_request(Request::Ping), Route::Reply(Response::Pong)));
    assert_eq!(ping_result(Response::Pong), Ok(()));
}

#[test]
fn requests_are_forwarded_with_their_timeouts() {
    assert!(matches!(
        route_request(Request::Dump),
        Route::Forward { command: CommandKind::Dump, timeout_secs: 5 }
    ));
    assert!(matches!(
        route_request(Request::Screenshot),
        Route::Forward { command: CommandKind::Screenshot, timeout_secs: 5 }
    ));
    assert!(matches!(
        route_request(Request::Submit),
        Route::Forward { command: CommandKind::Submit, timeout_secs: 2 }
    ));
    match route_request(Request::Input { field: "Name".to_string(), value: "Ada".to_string() }) {
        Route::Forward { command: CommandKind::Input { field, value }, timeout_secs: 2 } => {
            assert_eq!(field, "Name");
            assert_eq!(value, "Ada");
        }
        other => panic!("unexpected route {:?}", other),
    }
    match route_request(Request::Click { label: "+".to_string() }) {
        Route::Forward { command: CommandKind::Click { label }, timeout_secs: 2 } => assert_eq!(label, "+"),
        other => panic!("unexpected route {:?}", other),
    }
    match route_request(Request::Key { key: "Enter".to_string() }) {
        Route::Forward { command: CommandKind::Key { key }, timeout_secs: 2 } => assert_eq!(key, "Enter"),
        other => panic!("unexpected route {:?}", other),
    }
}

#[test]
fn command_outcomes_become_responses() {
    assert!(matches!(result_reply(Delivery::Answered(Ok(()))), Response::Done));
    assert_eq!(error_text(&result_reply(Delivery::Answered(Err("no such field".to_string())))), Some("no such field"));
    assert_eq!(error_text(&result_reply(Delivery::AppClosed)), Some("App closed"));
    assert_eq!(error_text(&result_reply(Delivery::NoAnswer)), Some("Timeout"));

    match layout_reply(Delivery::Answered("tree".to_string())) {
        Response::Layout(s) => assert_eq!(s, "tree"),
        other => panic!("unexpected response {:?}", other),
    }
    assert_eq!(error_text(&layout_reply(Delivery::AppClosed)), Some("App closed"));
    assert_eq!(error_text(&layout_reply(Delivery::NoAnswer)), Some("Timeout"));

    assert_eq!(error_text(&screenshot_reply(Delivery::AppClosed)), Some("App closed"));
    assert_eq!(error_text(&screenshot_reply(Delivery::NoAnswer)), Some("Timeout"));
    assert_eq!(
        error_text(&screenshot_reply(Delivery::Answered(Err("no window".to_string())))),
        Some("no window")
    );
}

#[test]
fn client_reads_each_response_kind() {
    assert_eq!(dump_result(Response::Layout("x".to_string())), Ok("x".to_string()));
    assert_eq!(dump_result(Response::Error("e".to_string())), Err("e".to_string()));
    assert_eq!(dump_result(Response::Pong), Err("Unexpected response".to_string()));

    assert_eq!(ack_result(Response::Done), Ok(()));
    assert_eq!(ack_result(Response::Error("e".to_string())), Err("e".to_string()));
    assert_eq!(ack_result(Response::Layout("x".to_string())), Err("Unexpected response".to_string()));

    assert_eq!(ping_result(Response::Error("e".to_string())), Err("Unexpected response".to_string()));

    assert_eq!(screenshot_result(Response::Screenshot("AAAA".to_string())), Ok("AAAA".to_string()));
    assert_eq!(screenshot_result(Response::Error("e".to_string())), Err("e".to_string()));
    assert_eq!(screenshot_result(Response::Done), Err("Unexpected response".to_string()));
}

#[test]
fn answered_dump_reaches_client_unchanged() {
    let text = "[Viewport: 1x1]\n\nFound 0 widgets, no warnings\n\n".to_string();
    assert_eq!(dump_result(layout_reply(Delivery::Answered(text.clone()))), Ok(text));
    assert_eq!(ack_result(result_reply(Delivery::Answered(Err("busy".to_string())))), Err("busy".to_string()));
    assert_eq!(ack_result(result_reply(Delivery::Answered(Ok(())))), Ok(()));
}

#[test]
fn screenshot_is_base64_jpeg() {
    let data = ScreenshotData { width: 2, height: 2, pixels: vec![255, 0, 0, 255].repeat(4) };
    let text = encode_screenshot_jpeg(&data, 15).expect("encodes");
    assert!(text.starts_with("/9j/"));
    let bytes = decode_screenshot(&text).expect("decodes");
    assert_eq!(&bytes[..2], &[0xFF, 0xD8]);
    assert_eq!(&bytes[bytes.len() - 2..], &[0xFF, 0xD9]);

    match screenshot_reply(Delivery::Answered(Ok(data))) {
        Response::Screenshot(s) => assert_eq!(s, text),
        other => panic!("unexpected response {:?}", other),
    }
}

#[test]
fn screenshot_with_too_few_pixels_is_refused() {
    let data = ScreenshotData { width: 2, height: 2, pixels: vec![0; 15] };
    assert_eq!(encode_screenshot_jpeg(&data, 15), Err("Invalid image dimensions".to_string()));
}

#[test]
fn screenshot_of_zero_width_is_refused_by_the_encoder() {
    let data = ScreenshotData { width: 0, height: 2, pixels: Vec::new() };
    let message = "Format error encoding Jpeg:\nInvalid image size (0 x 2) to encode as JPEG: \
width and height must be >= 1 and <= 65535";
    let err = encode_screenshot_jpeg(&data, 15).expect_err("zero width");
    assert_eq!(err, message);
    assert_eq!(error_text(&screenshot_reply(Delivery::Answered(Ok(data)))), Some(message));
}

#[test]
fn screenshot_too_wide_for_jpeg_carries_the_encoder_message() {
    let data = ScreenshotData { width: 65536, height: 1, pixels: vec![0; 4 * 65536] };
    assert_eq!(
        encode_screenshot_jpeg(&data, 15),
        Err("Format error encoding Jpeg:\nInvalid image size (65536 x 1) to encode as JPEG: \
width and height must be >= 1 and <= 65535"
            .to_string())
    );
}

#[test]
fn invalid_base64_is_refused() {
    assert!(decode_screenshot("not base64!").is_err());
    assert!(decode_screenshot("aGVsbG9=").is_err());
    assert!(decode_screenshot("aGVsbG8").is_err());
    assert_eq!(decode_screenshot("").unwrap(), Vec::<u8>::new());
    assert_eq!(decode_screenshot("aGVsbG8=").unwrap(), b"hello".to_vec());
}
