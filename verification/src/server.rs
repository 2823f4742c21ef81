//! The debug server's protocol: requests, responses, and the decisions the
//! server takes between reading a request and writing its response.
//!
//! The socket, the channel to the application and the timers live outside
//! this module; they hand it what happened and it says what to answer.

use vstd::prelude::*;

use crate::codec::{
    base64_encode, base64_text, encode_jpeg, jpeg_encoding, jpeg_size_error, rgba_fits,
    rgba_image_from_raw,
};

verus! {

/// Request types sent over IPC
#[derive(Debug)]
pub enum Request {
    /// Dump the current layout tree
    Dump,
    /// Set text in a text input field (identified by placeholder)
    Input { field: String, value: String },
    /// Click a button (identified by label text)
    Click { label: String },
    /// Press Enter / submit the current form
    Submit,
    /// Send a key press event
    Key { key: String },
    /// Ping to check if server is alive
    Ping,
    /// Take a screenshot (returns base64-encoded JPEG)
    Screenshot,
}

/// Response types sent over IPC
#[derive(Debug)]
pub enum Response {
    /// Layout dump as text
    Layout(String),
    /// Operation succeeded (`Ok` on the wire)
    Done,
    /// Pong response
    Pong,
    /// Error message
    Error(String),
    /// Screenshot as base64-encoded JPEG
    Screenshot(String),
}

/// Raw screenshot data from the application
#[derive(Debug)]
pub struct ScreenshotData {
    pub width: u32,
    pub height: u32,
    pub pixels: Vec<u8>, // RGBA format
}

/// What the application is asked to do for a request.
#[derive(Debug)]
pub enum CommandKind {
    /// Dump layout
    Dump,
    /// Set text input value
    Input { field: String, value: String },
    /// Click a button
    Click { label: String },
    /// Submit form (press Enter)
    Submit,
    /// Send a key press event
    Key { key: String },
    /// Take screenshot
    Screenshot,
}

/// How the server handles a request: answer at once, or hand a command to
/// the application and wait at most `timeout_secs` for its answer.
#[derive(Debug)]
pub enum Route {
    Reply(Response),
    Forward { command: CommandKind, timeout_secs: u64 },
}

/// What became of a command handed to the application.
#[derive(Debug)]
pub enum Delivery<T> {
    /// The application's receiver is gone; the command was not sent.
    AppClosed,
    /// No answer came before the timeout, or the reply channel closed.
    NoAnswer,
    /// The application answered.
    Answered(T),
}

/// How each request is handled: a ping is answered at once; a dump or
/// screenshot goes to the application with 5 seconds to answer; input,
/// click, submit and key go to it with 2 seconds.
pub open spec fn routes(req: Request, r: Route) -> bool {
    match req {
        Request::Ping => r == Route::Reply(Response::Pong),
        Request::Dump => r == (Route::Forward { command: CommandKind::Dump, timeout_secs: 5 }),
        Request::Screenshot => r == (Route::Forward { command: CommandKind::Screenshot, timeout_secs: 5 }),
        Request::Input { field, value } => r == (Route::Forward {
            command: CommandKind::Input { field, value },
            timeout_secs: 2,
        }),
        Request::Click { label } => r == (Route::Forward { command: CommandKind::Click { label }, timeout_secs: 2 }),
        Request::Submit => r == (Route::Forward { command: CommandKind::Submit, timeout_secs: 2 }),
        Request::Key { key } => r == (Route::Forward { command: CommandKind::Key { key }, timeout_secs: 2 }),
    }
}

/// Route a parsed request to the appropriate handler.
pub fn route_request(req: Request) -> (r: Route)
    ensures
        routes(req, r),
{
    match req {
        Request::Dump => Route::Forward { command: CommandKind::Dump, timeout_secs: 5 },
        Request::Input { field, value } => Route::Forward {
            command: CommandKind::Input { field, value },
            timeout_secs: 2,
        },
        Request::Click { label } => Route::Forward { command: CommandKind::Click { label }, timeout_secs: 2 },
        Request::Submit => Route::Forward { command: CommandKind::Submit, timeout_secs: 2 },
        Request::Key { key } => Route::Forward { command: CommandKind::Key { key }, timeout_secs: 2 },
        Request::Ping => Route::Reply(Response::Pong),
        Request::Screenshot => Route::Forward { command: CommandKind::Screenshot, timeout_secs: 5 },
    }
}

/// An error response with the given text.
pub open spec fn error_with(r: Response, text: Seq<char>) -> bool {
    r matches Response::Error(e) && e@ == text
}

fn error_response(text: &str) -> (r: Response)
    ensures
        error_with(r, text@),
{
    let mut s = String::new();
    s.append(text);
    Response::Error(s)
}

/// `r` is what the server answers when a command that reports success
/// or failure ended as `delivery`.
pub open spec fn answers_result(delivery: Delivery<Result<(), String>>, r: Response) -> bool {
    match delivery {
        Delivery::AppClosed => error_with(r, "App closed"@),
        Delivery::NoAnswer => error_with(r, "Timeout"@),
        Delivery::Answered(Ok(())) => r == Response::Done,
        Delivery::Answered(Err(e)) => r == Response::Error(e),
    }
}

/// `r` is what the server answers when a dump command ended as `delivery`.
pub open spec fn answers_layout(delivery: Delivery<String>, r: Response) -> bool {
    match delivery {
        Delivery::AppClosed => error_with(r, "App closed"@),
        Delivery::NoAnswer => error_with(r, "Timeout"@),
        Delivery::Answered(layout) => r == Response::Layout(layout),
    }
}

/// `r` is what the server answers when a screenshot command ended as
/// `delivery`: the pixels encoded as JPEG at quality 15 and then as Base64.
pub open spec fn answers_screenshot(delivery: Delivery<Result<ScreenshotData, String>>, r: Response) -> bool {
    match delivery {
        Delivery::AppClosed => error_with(r, "App closed"@),
        Delivery::NoAnswer => error_with(r, "Timeout"@),
        Delivery::Answered(Err(e)) => r == Response::Error(e),
        Delivery::Answered(Ok(data)) => {
            if !rgba_fits(data.width, data.height, data.pixels@.len()) {
                error_with(r, "Invalid image dimensions"@)
            } else if 1 <= data.width <= 65535 && 1 <= data.height <= 65535 {
                r matches Response::Screenshot(text) && text@ == base64_text(
                    jpeg_encoding(data.width, data.height, data.pixels@, 15),
                )
            } else {
                error_with(r, jpeg_size_error(data.width, data.height))
            }
        },
    }
}

/// The response to a command that answers with success or an error message.
pub fn result_reply(delivery: Delivery<Result<(), String>>) -> (r: Response)
    ensures
        answers_result(delivery, r),
{
    match delivery {
        Delivery::AppClosed => error_response("App closed"),
        Delivery::NoAnswer => error_response("Timeout"),
        Delivery::Answered(Ok(())) => Response::Done,
        Delivery::Answered(Err(e)) => Response::Error(e),
    }
}

/// The response to a dump command.
pub fn layout_reply(delivery: Delivery<String>) -> (r: Response)
    ensures
        answers_layout(delivery, r),
{
    match delivery {
        Delivery::AppClosed => error_response("App closed"),
        Delivery::NoAnswer => error_response("Timeout"),
        Delivery::Answered(layout) => Response::Layout(layout),
    }
}

/// Encode screenshot data as JPEG and return it as Base64 text.
///
/// The pixels must hold `4 * width * height` bytes; the JPEG encoder then
/// accepts sides from 1 to 65535 pixels and reports other sizes with its
/// own message.
pub fn encode_screenshot_jpeg(data: &ScreenshotData, quality: u8) -> (r: Result<String, String>)
    ensures
        !rgba_fits(data.width, data.height, data.pixels@.len()) ==> (r matches Err(e) && e@
            == "Invalid image dimensions"@),
        rgba_fits(data.width, data.height, data.pixels@.len()) ==> (r is Ok <==> (1 <= data.width
            <= 65535 && 1 <= data.height <= 65535)),
        rgba_fits(data.width, data.height, data.pixels@.len()) ==> (r matches Err(e) ==> e@
            == jpeg_size_error(data.width, data.height)),
        r matches Ok(text) ==> text@ == base64_text(
            jpeg_encoding(data.width, data.height, data.pixels@, quality),
        ),
{
    let image = match rgba_image_from_raw(data.width, data.height, data.pixels.clone()) {
        Some(image) => image,
        None => {
            let mut s = String::new();
            s.append("Invalid image dimensions");
            return Err(s);
        },
    };
    let jpeg = encode_jpeg(image, quality)?;
    Ok(base64_encode(jpeg.as_slice()))
}

/// The response to a screenshot command: the pixels as Base64 JPEG
/// (quality 15), or the error that stopped it.
pub fn screenshot_reply(delivery: Delivery<Result<ScreenshotData, String>>) -> (r: Response)
    ensures
        answers_screenshot(delivery, r),
{
    match delivery {
        Delivery::AppClosed => error_response("App closed"),
        Delivery::NoAnswer => error_response("Timeout"),
        Delivery::Answered(Ok(data)) => match encode_screenshot_jpeg(&data, 15) {
            Ok(text) => Response::Screenshot(text),
            Err(e) => Response::Error(e),
        },
        Delivery::Answered(Err(e)) => Response::Error(e),
    }
}

} // verus!
