//! The state of one embedded view and the commands that drive its platform
//! view.
//!
//! The platform view itself lives with the host. Each operation here decides
//! whether the view may be driven, records what the view now holds, and hands
//! back the command that the host forwards to the platform view.

use crate::webview::config::{ConfigModel, ErrorModel, WebViewBounds, WebViewConfig, WebViewError};
use vstd::prelude::*;

verus! {

/// A call that the host forwards to the platform view.
#[derive(Debug)]
pub enum ViewCommand {
    /// Reposition and resize the view.
    SetBounds(WebViewBounds),
    /// Navigate to a URL.
    LoadUrl(String),
    /// Evaluate a script in the hosted content.
    Eval(String),
    /// Show or hide the view.
    SetVisible(bool),
    /// Tear the platform view down.
    Destroy,
}

/// The mathematical content of a [`ViewCommand`].
pub enum CommandModel {
    SetBounds(WebViewBounds),
    LoadUrl(Seq<char>),
    Eval(Seq<char>),
    SetVisible(bool),
    Destroy,
}

impl View for ViewCommand {
    type V = CommandModel;

    open spec fn view(&self) -> CommandModel {
        match self {
            ViewCommand::SetBounds(b) => CommandModel::SetBounds(*b),
            ViewCommand::LoadUrl(url) => CommandModel::LoadUrl(url@),
            ViewCommand::Eval(js) => CommandModel::Eval(js@),
            ViewCommand::SetVisible(v) => CommandModel::SetVisible(*v),
            ViewCommand::Destroy => CommandModel::Destroy,
        }
    }
}

/// The content of a command or an error, whichever a result holds.
pub open spec fn command_result(r: Result<ViewCommand, WebViewError>) -> Result<
    CommandModel,
    ErrorModel,
> {
    match r {
        Ok(c) => Ok(c@),
        Err(e) => Err(e@),
    }
}

/// The content of a command, where there is one.
pub open spec fn command_option(r: Option<ViewCommand>) -> Option<CommandModel> {
    match r {
        Some(c) => Some(c@),
        None => None,
    }
}

/// The script that delivers `data` to the callbacks that hosted content
/// registered for `channel`. `data` is written into the script as it is: it
/// must be a script expression.
pub open spec fn send_script(channel: Seq<char>, data: Seq<char>) -> Seq<char> {
    "\n            if (window.__mofa_ipc && window.__mofa_ipc.receive) {\n                window.__mofa_ipc.receive(\""@
        + channel + "\", "@ + data + ");\n            }\n            "@
}

/// The script that sets the messaging convention up in hosted content:
/// `send(channel, data)` posts a message to the host, `on(channel, callback)`
/// registers a callback, and `receive(channel, data)` calls the callbacks of a
/// channel.
pub open spec fn bridge_script() -> Seq<char> {
    BRIDGE_SCRIPT@
}

/// The text of the bridge script.
pub const BRIDGE_SCRIPT: &'static str =
    "\n            window.__mofa_ipc = {\n                callbacks: {},\n\n                // Send message to Rust\n                send: function(channel, data) {\n                    window.ipc.postMessage(JSON.stringify({\n                        channel: channel,\n                        data: data\n                    }));\n                },\n\n                // Register callback for messages from Rust\n                on: function(channel, callback) {\n                    if (!this.callbacks[channel]) {\n                        this.callbacks[channel] = [];\n                    }\n                    this.callbacks[channel].push(callback);\n                },\n\n                // Called by Rust to deliver messages\n                receive: function(channel, data) {\n                    if (this.callbacks[channel]) {\n                        this.callbacks[channel].forEach(function(cb) {\n                            try { cb(data); } catch(e) { console.error(e); }\n                        });\n                    }\n                }\n            };\n            console.log('[MoFA] IPC bridge initialized');\n        ";

/// The state of one embedded view.
#[derive(Debug)]
pub struct ManagedWebView {
    initialized: bool,
    config: WebViewConfig,
    visible: bool,
}

/// The mathematical content of a [`ManagedWebView`].
pub struct ViewModel {
    /// Whether the platform view exists.
    pub initialized: bool,
    /// What the view was built with; the bounds are those set last.
    pub config: ConfigModel,
    /// Whether the view is shown.
    pub visible: bool,
}

impl View for ManagedWebView {
    type V = ViewModel;

    closed spec fn view(&self) -> ViewModel {
        ViewModel { initialized: self.initialized, config: self.config@, visible: self.visible }
    }
}

impl ManagedWebView {
    /// A view that is not initialized yet; it counts as shown.
    pub fn new(config: WebViewConfig) -> (v: Self)
        ensures
            v@ == (ViewModel { initialized: false, config: config@, visible: true }),
    {
        ManagedWebView { initialized: false, config, visible: true }
    }

    /// What to build the platform view with. Fails with `AlreadyInitialized`
    /// once the view is initialized.
    pub fn build_config(&self) -> (r: Result<WebViewConfig, WebViewError>)
        ensures
            match r {
                Ok(c) => !self@.initialized && c@ == self@.config,
                Err(e) => self@.initialized && e@ == ErrorModel::AlreadyInitialized,
            },
    {
        if self.initialized {
            Err(WebViewError::AlreadyInitialized)
        } else {
            Ok(self.config.clone())
        }
    }

    /// Records how building the platform view ended. Fails with
    /// `AlreadyInitialized` on an initialized view, whatever `built` says; else
    /// with the error in `built`; else the view is initialized from now on.
    /// A failure leaves the view as it was.
    pub fn initialize(&mut self, built: Result<(), WebViewError>) -> (r: Result<(), WebViewError>)
        ensures
            match r {
                Ok(_) => !old(self)@.initialized && built is Ok && final(self)@ == (ViewModel {
                    initialized: true,
                    ..old(self)@
                }),
                Err(e) => final(self)@ == old(self)@ && (if old(self)@.initialized {
                    e@ == ErrorModel::AlreadyInitialized
                } else {
                    built matches Err(b) && e@ == b@
                }),
            },
    {
        if self.initialized {
            return Err(WebViewError::AlreadyInitialized);
        }
        match built {
            Ok(_) => {
                self.initialized = true;
                Ok(())
            },
            Err(e) => Err(e),
        }
    }

    /// Whether the platform view exists.
    pub fn is_initialized(&self) -> (b: bool)
        ensures
            b == self@.initialized,
    {
        self.initialized
    }

    /// Repositions and resizes the view. On an initialized view the bounds
    /// are recorded and the command is handed back; else nothing changes and
    /// `NotInitialized` tells the caller so.
    pub fn set_bounds(&mut self, bounds: WebViewBounds) -> (r: Result<ViewCommand, WebViewError>)
        ensures
            old(self)@.initialized ==> command_result(r) == Ok::<CommandModel, ErrorModel>(
                CommandModel::SetBounds(bounds),
            ) && final(self)@ == (ViewModel {
                config: ConfigModel { bounds, ..old(self)@.config },
                ..old(self)@
            }),
            !old(self)@.initialized ==> command_result(r) == Err::<CommandModel, ErrorModel>(
                ErrorModel::NotInitialized,
            ) && final(self)@ == old(self)@,
    {
        if self.initialized {
            self.config.bounds = bounds;
            Ok(ViewCommand::SetBounds(bounds))
        } else {
            Err(WebViewError::NotInitialized)
        }
    }

    /// The bounds set last.
    pub fn bounds(&self) -> (b: WebViewBounds)
        ensures
            b == self@.config.bounds,
    {
        self.config.bounds
    }

    /// Navigates to a URL.
    pub fn load_url(&self, url: &str) -> (r: Result<ViewCommand, WebViewError>)
        ensures
            command_result(r) == (if self@.initialized {
                Ok(CommandModel::LoadUrl(url@))
            } else {
                Err(ErrorModel::NotInitialized)
            }),
    {
        if self.initialized {
            Ok(ViewCommand::LoadUrl(url.to_owned()))
        } else {
            Err(WebViewError::NotInitialized)
        }
    }

    /// Evaluates a script in the hosted content.
    pub fn eval(&self, js: &str) -> (r: Result<ViewCommand, WebViewError>)
        ensures
            command_result(r) == (if self@.initialized {
                Ok(CommandModel::Eval(js@))
            } else {
                Err(ErrorModel::NotInitialized)
            }),
    {
        if self.initialized {
            Ok(ViewCommand::Eval(js.to_owned()))
        } else {
            Err(WebViewError::NotInitialized)
        }
    }

    /// Goes back in the navigation history.
    pub fn go_back(&self) -> (r: Result<ViewCommand, WebViewError>)
        ensures
            command_result(r) == (if self@.initialized {
                Ok(CommandModel::Eval("history.back()"@))
            } else {
                Err(ErrorModel::NotInitialized)
            }),
    {
        self.eval("history.back()")
    }

    /// Goes forward in the navigation history.
    pub fn go_forward(&self) -> (r: Result<ViewCommand, WebViewError>)
        ensures
            command_result(r) == (if self@.initialized {
                Ok(CommandModel::Eval("history.forward()"@))
            } else {
                Err(ErrorModel::NotInitialized)
            }),
    {
        self.eval("history.forward()")
    }

    /// Reloads the current page.
    pub fn reload(&self) -> (r: Result<ViewCommand, WebViewError>)
        ensures
            command_result(r) == (if self@.initialized {
                Ok(CommandModel::Eval("location.reload()"@))
            } else {
                Err(ErrorModel::NotInitialized)
            }),
    {
        self.eval("location.reload()")
    }

    /// Shows or hides the view. On an initialized view the flag is recorded
    /// and the command is handed back; else nothing changes.
    pub fn set_visible(&mut self, visible: bool) -> (r: Option<ViewCommand>)
        ensures
            old(self)@.initialized ==> command_option(r) == Some(CommandModel::SetVisible(visible))
                && final(self)@ == (ViewModel { visible, ..old(self)@ }),
            !old(self)@.initialized ==> r is None && final(self)@ == old(self)@,
    {
        if self.initialized {
            self.visible = visible;
            Some(ViewCommand::SetVisible(visible))
        } else {
            None
        }
    }

    /// Whether the view is shown.
    pub fn is_visible(&self) -> (b: bool)
        ensures
            b == self@.visible,
    {
        self.visible
    }

    /// Sends a message to hosted content: the command evaluates
    /// `send_script(channel, data)`.
    pub fn send_to_js(&self, channel: &str, data: &str) -> (r: Result<ViewCommand, WebViewError>)
        ensures
            command_result(r) == (if self@.initialized {
                Ok(CommandModel::Eval(send_script(channel@, data@)))
            } else {
                Err(ErrorModel::NotInitialized)
            }),
    {
        let mut js =
            "\n            if (window.__mofa_ipc && window.__mofa_ipc.receive) {\n                window.__mofa_ipc.receive(\"".to_owned();
        js.append(channel);
        js.append("\", ");
        js.append(data);
        js.append(");\n            }\n            ");
        self.eval(js.as_str())
    }

    /// Sets the messaging convention up in hosted content.
    pub fn inject_ipc_bridge(&self) -> (r: Result<ViewCommand, WebViewError>)
        ensures
            command_result(r) == (if self@.initialized {
                Ok(CommandModel::Eval(bridge_script()))
            } else {
                Err(ErrorModel::NotInitialized)
            }),
    {
        self.eval(BRIDGE_SCRIPT)
    }

    /// Ends the view's life. An initialized view hands back the command that
    /// tears the platform view down and is uninitialized from now on; a view
    /// that never was initialized hands back nothing.
    pub fn teardown(&mut self) -> (r: Option<ViewCommand>)
        ensures
            final(self)@ == (ViewModel { initialized: false, ..old(self)@ }),
            old(self)@.initialized ==> command_option(r) == Some(CommandModel::Destroy),
            !old(self)@.initialized ==> r is None,
    {
        if self.initialized {
            self.initialized = false;
            Some(ViewCommand::Destroy)
        } else {
            None
        }
    }
}

} // verus!
