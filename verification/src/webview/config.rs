//! Configuration and errors of an embedded view.

use crate::webview::platform_handle::PlatformHandleError;
use vstd::prelude::*;

verus! {

/// Position and size of a view, in logical units.
#[derive(Debug, Clone, Copy, PartialEq, Eq, Structural)]
pub struct WebViewBounds {
    pub x: i32,
    pub y: i32,
    pub width: u32,
    pub height: u32,
}

impl WebViewBounds {
    /// The bounds with the given corner and size.
    pub fn new(x: i32, y: i32, width: u32, height: u32) -> (b: Self)
        ensures
            b == (WebViewBounds { x, y, width, height }),
    {
        WebViewBounds { x, y, width, height }
    }
}

/// The bounds of a rectangle with its top left corner at `(x, y)`: width
/// and height are at least one unit.
pub open spec fn rect_bounds(x: i32, y: i32, width: u32, height: u32) -> WebViewBounds {
    WebViewBounds {
        x,
        y,
        width: if width < 1 {
            1
        } else {
            width
        },
        height: if height < 1 {
            1
        } else {
            height
        },
    }
}

impl WebViewBounds {
    /// The bounds to give a view that covers a laid-out rectangle.
    pub fn for_rect(x: i32, y: i32, width: u32, height: u32) -> (b: Self)
        ensures
            b == rect_bounds(x, y, width, height),
    {
        WebViewBounds {
            x,
            y,
            width: if width < 1 {
                1
            } else {
                width
            },
            height: if height < 1 {
                1
            } else {
                height
            },
        }
    }
}

impl Default for WebViewBounds {
    /// The empty rectangle at the origin.
    fn default() -> (b: Self)
        ensures
            b == (WebViewBounds { x: 0, y: 0, width: 0, height: 0 }),
    {
        WebViewBounds { x: 0, y: 0, width: 0, height: 0 }
    }
}

/// What a view is built with.
#[derive(Debug)]
pub struct WebViewConfig {
    /// Initial URL to load.
    pub url: String,
    /// Initial position and size.
    pub bounds: WebViewBounds,
    /// Enable developer tools.
    pub devtools: bool,
    /// Transparent background.
    pub transparent: bool,
    /// Custom user agent.
    pub user_agent: Option<String>,
}

/// The mathematical content of a [`WebViewConfig`].
pub struct ConfigModel {
    pub url: Seq<char>,
    pub bounds: WebViewBounds,
    pub devtools: bool,
    pub transparent: bool,
    pub user_agent: Option<Seq<char>>,
}

impl View for WebViewConfig {
    type V = ConfigModel;

    open spec fn view(&self) -> ConfigModel {
        ConfigModel {
            url: self.url@,
            bounds: self.bounds,
            devtools: self.devtools,
            transparent: self.transparent,
            user_agent: match self.user_agent {
                Some(agent) => Some(agent@),
                None => None,
            },
        }
    }
}

impl Clone for WebViewConfig {
    fn clone(&self) -> (c: Self)
        ensures
            c@ == self@,
    {
        WebViewConfig {
            url: self.url.clone(),
            bounds: self.bounds,
            devtools: self.devtools,
            transparent: self.transparent,
            user_agent: match &self.user_agent {
                Some(agent) => Some(agent.clone()),
                None => None,
            },
        }
    }
}

impl Default for WebViewConfig {
    /// A blank page in the empty rectangle, opaque, without developer tools
    /// and with the platform's user agent.
    fn default() -> (c: Self)
        ensures
            c@ == (ConfigModel {
                url: "about:blank"@,
                bounds: WebViewBounds { x: 0, y: 0, width: 0, height: 0 },
                devtools: false,
                transparent: false,
                user_agent: None,
            }),
    {
        WebViewConfig {
            url: "about:blank".to_owned(),
            bounds: WebViewBounds::default(),
            devtools: false,
            transparent: false,
            user_agent: None,
        }
    }
}

/// Why a view operation failed.
#[derive(Debug)]
pub enum WebViewError {
    /// No native surface handle could be had.
    PlatformHandle(PlatformHandleError),
    /// The platform refused to build or drive the view; the text is the
    /// platform's description.
    WryError(String),
    /// The view was not initialized yet.
    NotInitialized,
    /// The view was initialized before.
    AlreadyInitialized,
}

/// The mathematical content of a [`WebViewError`].
pub enum ErrorModel {
    PlatformHandle(PlatformHandleError),
    WryError(Seq<char>),
    NotInitialized,
    AlreadyInitialized,
}

impl View for WebViewError {
    type V = ErrorModel;

    open spec fn view(&self) -> ErrorModel {
        match self {
            WebViewError::PlatformHandle(e) => ErrorModel::PlatformHandle(*e),
            WebViewError::WryError(text) => ErrorModel::WryError(text@),
            WebViewError::NotInitialized => ErrorModel::NotInitialized,
            WebViewError::AlreadyInitialized => ErrorModel::AlreadyInitialized,
        }
    }
}

/// The description of an error.
pub open spec fn error_text(e: ErrorModel) -> Seq<char> {
    match e {
        ErrorModel::PlatformHandle(inner) => "Platform handle error: "@
            + crate::webview::platform_handle::handle_error_text(inner),
        ErrorModel::WryError(text) => "Wry error: "@ + text,
        ErrorModel::NotInitialized => "WebView not initialized"@,
        ErrorModel::AlreadyInitialized => "WebView already initialized"@,
    }
}

impl WebViewError {
    /// The error's description.
    pub fn to_string(&self) -> (text: String)
        ensures
            text@ == error_text(self@),
    {
        match self {
            WebViewError::PlatformHandle(e) => {
                let mut text = "Platform handle error: ".to_owned();
                text.append(e.to_string().as_str());
                text
            },
            WebViewError::WryError(inner) => {
                let mut text = "Wry error: ".to_owned();
                text.append(inner.as_str());
                text
            },
            WebViewError::NotInitialized => "WebView not initialized".to_owned(),
            WebViewError::AlreadyInitialized => "WebView already initialized".to_owned(),
        }
    }
}

impl From<PlatformHandleError> for WebViewError {
    fn from(e: PlatformHandleError) -> (r: Self) {
        WebViewError::PlatformHandle(e)
    }
}

impl vstd::std_specs::convert::FromSpecImpl<PlatformHandleError> for WebViewError {
    open spec fn obeys_from_spec() -> bool {
        true
    }

    open spec fn from_spec(e: PlatformHandleError) -> Self {
        WebViewError::PlatformHandle(e)
    }
}

} // verus!
