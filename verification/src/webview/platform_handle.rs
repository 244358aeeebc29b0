//! Choosing the window whose drawable surface hosts a view.

use vstd::prelude::*;

verus! {

/// Why no native surface handle could be had.
#[derive(Debug, Clone, Copy, PartialEq, Eq, Structural)]
pub enum PlatformHandleError {
    NoWindow,
    NotOnMainThread,
    UnsupportedPlatform,
}

/// The description of a handle error.
pub open spec fn handle_error_text(e: PlatformHandleError) -> Seq<char> {
    match e {
        PlatformHandleError::NoWindow => "No window available"@,
        PlatformHandleError::NotOnMainThread => "Must be called from main thread"@,
        PlatformHandleError::UnsupportedPlatform => "Unsupported platform"@,
    }
}

impl PlatformHandleError {
    /// The error's description.
    pub fn to_string(&self) -> (text: String)
        ensures
            text@ == handle_error_text(*self),
    {
        match self {
            PlatformHandleError::NoWindow => "No window available".to_owned(),
            PlatformHandleError::NotOnMainThread => "Must be called from main thread".to_owned(),
            PlatformHandleError::UnsupportedPlatform => "Unsupported platform".to_owned(),
        }
    }
}

/// The window that `choose_window` picks.
pub open spec fn chosen_window<W>(
    on_main_thread: bool,
    focused: Option<W>,
    main: Option<W>,
    first: Option<W>,
) -> Result<W, PlatformHandleError> {
    if !on_main_thread {
        Err(PlatformHandleError::NotOnMainThread)
    } else if let Some(w) = focused {
        Ok(w)
    } else if let Some(w) = main {
        Ok(w)
    } else if let Some(w) = first {
        Ok(w)
    } else {
        Err(PlatformHandleError::NoWindow)
    }
}

/// Picks the window to host a view: the focused window, else the designated
/// main window, else the first window in creation order. Fails off the thread
/// that owns the event loop, and where there is no window at all.
pub fn choose_window<W>(
    on_main_thread: bool,
    focused: Option<W>,
    main: Option<W>,
    first: Option<W>,
) -> (r: Result<W, PlatformHandleError>)
    ensures
        r == chosen_window(on_main_thread, focused, main, first),
{
    if !on_main_thread {
        Err(PlatformHandleError::NotOnMainThread)
    } else if let Some(w) = focused {
        Ok(w)
    } else if let Some(w) = main {
        Ok(w)
    } else if let Some(w) = first {
        Ok(w)
    } else {
        Err(PlatformHandleError::NoWindow)
    }
}

} // verus!
