//! The screenshot portal's request options and its answer.
use vstd::prelude::*;
use crate::selection::Action;

verus! {

/// Portal response status: the request succeeded.
pub const PORTAL_RESPONSE_SUCCESS: u32 = 0;

/// Portal response status: the user cancelled.
pub const PORTAL_RESPONSE_CANCELLED: u32 = 1;

/// Portal response status: the request failed for another reason.
pub const PORTAL_RESPONSE_OTHER: u32 = 2;

/// D-Bus service name for the portal
pub const DBUS_NAME: &'static str = "org.freedesktop.impl.portal.blazingshot";

/// D-Bus object path for the portal
pub const DBUS_PATH: &'static str = "/org/freedesktop/portal/desktop";

/// Portal response: the result on success, or why there is none.
#[derive(Debug)]
pub enum PortalResponse<T> {
    Success(T),
    Cancelled,
    Other,
}

impl<T> PortalResponse<T> {
    /// The status code sent on the bus with this response.
    pub fn code(&self) -> (c: u32)
        ensures
            c == match self {
                PortalResponse::Success(_) => PORTAL_RESPONSE_SUCCESS,
                PortalResponse::Cancelled => PORTAL_RESPONSE_CANCELLED,
                PortalResponse::Other => PORTAL_RESPONSE_OTHER,
            },
    {
        match self {
            PortalResponse::Success(_) => PORTAL_RESPONSE_SUCCESS,
            PortalResponse::Cancelled => PORTAL_RESPONSE_CANCELLED,
            PortalResponse::Other => PORTAL_RESPONSE_OTHER,
        }
    }
}

/// Options passed from the portal request.
#[derive(Clone, Copy, Debug, PartialEq, Eq, Structural)]
pub struct ScreenshotOptions {
    pub modal: Option<bool>,
    pub interactive: Option<bool>,
    pub choose_destination: Option<bool>,
}

/// Result returned from a successful screenshot.
#[derive(Debug)]
pub struct ScreenshotResult {
    pub uri: String,
}

impl ScreenshotResult {
    pub fn new(uri: String) -> (r: Self)
        ensures
            r.uri == uri,
    {
        ScreenshotResult { uri }
    }
}

/// Whether the caller asked to choose where the screenshot goes (absent means
/// no).
pub open spec fn wants_destination(options: ScreenshotOptions) -> bool {
    options.choose_destination == Some(true)
}

/// The action a new screenshot session starts with: copy to the clipboard when
/// the caller asked to choose a destination, else hand back a file path.
pub fn initial_action(options: &ScreenshotOptions) -> (a: Action)
    ensures
        a == (if wants_destination(*options) {
            Action::SaveToClipboard
        } else {
            Action::ReturnPath
        }),
{
    let choose = match options.choose_destination {
        Some(b) => b,
        None => false,
    };
    if choose {
        Action::SaveToClipboard
    } else {
        Action::ReturnPath
    }
}

/// The URI answered for an image saved at `path`.
pub open spec fn file_uri(path: Seq<char>) -> Seq<char> {
    "file:///"@ + path
}

/// The URI answered when the image went to the clipboard only.
pub open spec fn clipboard_uri() -> Seq<char> {
    "clipboard:///"@
}

/// The portal's answer once a screenshot is done: the saved file's URI, the
/// clipboard URI when it was only copied, or a failure.
pub fn screenshot_response(success: bool, image_path: Option<String>) -> (r: PortalResponse<
    ScreenshotResult,
>)
    ensures
        !success ==> r is Other,
        success ==> match image_path {
            Some(p) => r matches PortalResponse::Success(res) && res.uri@ == file_uri(p@),
            None => r matches PortalResponse::Success(res) && res.uri@ == clipboard_uri(),
        },
{
    if !success {
        return PortalResponse::Other;
    }
    match image_path {
        Some(p) => {
            let mut uri = String::from_str("file:///");
            uri.append(p.as_str());
            PortalResponse::Success(ScreenshotResult::new(uri))
        },
        None => PortalResponse::Success(ScreenshotResult::new(String::from_str("clipboard:///"))),
    }
}

} // verus!
