//! What the client makes of the server's responses.

use vstd::prelude::*;

use crate::codec::{
    base64_decode, base64_text, is_base64, lemma_base64_injective, jpeg_encoding, jpeg_size_error, rgba_fits,
};
use crate::server::{
    answers_layout, answers_result, answers_screenshot, routes, Delivery, Request, Response, Route,
    ScreenshotData,
};

verus! {

/// The message the client reports for a response of the wrong kind.
pub open spec fn unexpected() -> Seq<char> {
    "Unexpected response"@
}

/// An error result with the given text.
pub open spec fn fails_with<T>(res: Result<T, String>, text: Seq<char>) -> bool {
    res matches Err(e) && e@ == text
}

/// How the client reads the response to a dump request.
pub open spec fn reads_layout(r: Response, res: Result<String, String>) -> bool {
    match r {
        Response::Layout(s) => res == Ok::<String, String>(s),
        Response::Error(e) => res == Err::<String, String>(e),
        _ => fails_with(res, unexpected()),
    }
}

/// How the client reads the response to input, click, submit and key
/// requests.
pub open spec fn reads_ack(r: Response, res: Result<(), String>) -> bool {
    match r {
        Response::Done => res == Ok::<(), String>(()),
        Response::Error(e) => res == Err::<(), String>(e),
        _ => fails_with(res, unexpected()),
    }
}

/// How the client reads the response to a ping: only `Pong` counts.
pub open spec fn reads_pong(r: Response, res: Result<(), String>) -> bool {
    match r {
        Response::Pong => res == Ok::<(), String>(()),
        _ => fails_with(res, unexpected()),
    }
}

/// How the client reads the response to a screenshot request.
pub open spec fn reads_screenshot(r: Response, res: Result<String, String>) -> bool {
    match r {
        Response::Screenshot(s) => res == Ok::<String, String>(s),
        Response::Error(e) => res == Err::<String, String>(e),
        _ => fails_with(res, unexpected()),
    }
}

fn unexpected_error<T>() -> (res: Result<T, String>)
    ensures
        fails_with(res, unexpected()),
{
    let mut s = String::new();
    s.append("Unexpected response");
    Err(s)
}

/// The layout text of a dump response.
pub fn dump_result(r: Response) -> (res: Result<String, String>)
    ensures
        reads_layout(r, res),
{
    match r {
        Response::Layout(s) => Ok(s),
        Response::Error(e) => Err(e),
        _ => unexpected_error(),
    }
}

/// The outcome of an input, click, submit or key request.
pub fn ack_result(r: Response) -> (res: Result<(), String>)
    ensures
        reads_ack(r, res),
{
    match r {
        Response::Done => Ok(()),
        Response::Error(e) => Err(e),
        _ => unexpected_error(),
    }
}

/// The outcome of a ping.
pub fn ping_result(r: Response) -> (res: Result<(), String>)
    ensures
        reads_pong(r, res),
{
    match r {
        Response::Pong => Ok(()),
        _ => unexpected_error(),
    }
}

/// The Base64 JPEG text of a screenshot response.
pub fn screenshot_result(r: Response) -> (res: Result<String, String>)
    ensures
        reads_screenshot(r, res),
{
    match r {
        Response::Screenshot(data) => Ok(data),
        Response::Error(e) => Err(e),
        _ => unexpected_error(),
    }
}

/// `res` is what decoding the Base64 text `text` gives: the bytes whose
/// standard encoding it is, or an error when it is no such encoding.
pub open spec fn decodes_to(text: Seq<char>, res: Result<Vec<u8>, String>) -> bool {
    &&& res is Ok <==> is_base64(text)
    &&& res matches Ok(bytes) ==> base64_text(bytes@) == text
}

/// The JPEG bytes of a screenshot's Base64 text; the decoder's message
/// when the text is not valid Base64.
pub fn decode_screenshot(text: &str) -> (res: Result<Vec<u8>, String>)
    ensures
        decodes_to(text@, res),
{
    base64_decode(text)
}

/// A dump answered by the application reaches the client unchanged; a
/// dump that was never delivered or never answered reaches it as the
/// server's error text.
pub proof fn lemma_dump_reaches_client(delivery: Delivery<String>, r: Response, res: Result<String, String>)
    requires
        answers_layout(delivery, r),
        reads_layout(r, res),
    ensures
        match delivery {
            Delivery::Answered(layout) => res == Ok::<String, String>(layout),
            Delivery::AppClosed => fails_with(res, "App closed"@),
            Delivery::NoAnswer => fails_with(res, "Timeout"@),
        },
{
}

/// The application's verdict on an input, click, submit or key command
/// reaches the client unchanged: success as `Ok(())`, refusal as the
/// application's own message.
pub proof fn lemma_ack_reaches_client(delivery: Delivery<Result<(), String>>, r: Response, res: Result<(), String>)
    requires
        answers_result(delivery, r),
        reads_ack(r, res),
    ensures
        match delivery {
            Delivery::Answered(verdict) => res == verdict,
            Delivery::AppClosed => fails_with(res, "App closed"@),
            Delivery::NoAnswer => fails_with(res, "Timeout"@),
        },
{
    match delivery {
        Delivery::Answered(Ok(u)) => {
            assert(u == ());
        },
        _ => {},
    }
}

/// A screenshot that the application answered reaches the client as the
/// Base64 text of its JPEG encoding; otherwise the client gets the error
/// that stopped it: the application's own, the pixel-count check's, or the
/// JPEG encoder's size message.
pub proof fn lemma_screenshot_reaches_client(
    delivery: Delivery<Result<ScreenshotData, String>>,
    r: Response,
    res: Result<String, String>,
)
    requires
        answers_screenshot(delivery, r),
        reads_screenshot(r, res),
    ensures
        match delivery {
            Delivery::Answered(Ok(data)) => if !rgba_fits(data.width, data.height, data.pixels@.len()) {
                fails_with(res, "Invalid image dimensions"@)
            } else if 1 <= data.width <= 65535 && 1 <= data.height <= 65535 {
                res matches Ok(text) && text@ == base64_text(
                    jpeg_encoding(data.width, data.height, data.pixels@, 15),
                )
            } else {
                fails_with(res, jpeg_size_error(data.width, data.height))
            },
            Delivery::Answered(Err(e)) => res == Err::<String, String>(e),
            Delivery::AppClosed => fails_with(res, "App closed"@),
            Delivery::NoAnswer => fails_with(res, "Timeout"@),
        },
{
}

/// A ping is answered by the server itself, and the client takes that
/// answer as success.
pub proof fn lemma_ping_succeeds(route: Route, res: Result<(), String>)
    requires
        routes(Request::Ping, route),
        route matches Route::Reply(r) ==> reads_pong(r, res),
    ensures
        route == Route::Reply(Response::Pong),
        res == Ok::<(), String>(()),
{
}

/// The bytes the client decodes from a screenshot response are exactly the
/// JPEG bytes the server encoded from the application's pixels.
pub proof fn lemma_screenshot_bytes_reach_client(
    data: ScreenshotData,
    r: Response,
    text: Result<String, String>,
    bytes: Result<Vec<u8>, String>,
)
    requires
        answers_screenshot(Delivery::Answered(Ok(data)), r),
        rgba_fits(data.width, data.height, data.pixels@.len()),
        1 <= data.width <= 65535 && 1 <= data.height <= 65535,
        reads_screenshot(r, text),
        text matches Ok(t) ==> decodes_to(t@, bytes),
    ensures
        bytes matches Ok(b) && b@ == jpeg_encoding(data.width, data.height, data.pixels@, 15),
{
    let jpeg = jpeg_encoding(data.width, data.height, data.pixels@, 15);
    let t = text->Ok_0;
    assert(base64_text(jpeg) == t@);
    assert(is_base64(t@));
    let b = bytes->Ok_0;
    lemma_base64_injective(b@, jpeg);
}

} // verus!
