//! The lifecycle of one surface: when its view is built, retried, shown,
//! hidden and resized.
//!
//! The host drives a surface with frame ticks, layout results and the outcome
//! of each attempt to build the platform view. The surface answers with what
//! the host has to do next. It never builds anything itself, so every rule on
//! attempts and bounds is a statement about the answers it gives.

use crate::ipc::IpcMessage;
use crate::webview::config::{
    error_text, ConfigModel, ErrorModel, WebViewBounds, WebViewConfig, WebViewError,
};
use crate::webview::view::{
    bridge_script, command_result, send_script, CommandModel, ManagedWebView, ViewCommand,
    ViewModel,
};
use vstd::prelude::*;

verus! {

/// How often a surface tries to build its view.
pub const MAX_INIT_ATTEMPTS: u32 = 10;

/// The frames that pass between a failed attempt and the next one.
pub const RETRY_INTERVAL: u64 = 30;

/// The frames that pass before the first attempt.
pub const INITIAL_DELAY: u64 = 10;

/// Where a surface stands.
#[derive(Debug, Clone, Copy, PartialEq, Eq, Structural)]
pub enum SurfaceLifecycle {
    /// Not active: nothing is attempted and no bounds are forwarded.
    Inactive,
    /// Active, waiting for the first attempt.
    PendingInitialAttempt,
    /// Active, after a failed attempt or during one.
    Retrying,
    /// The view exists.
    Initialized,
    /// Every attempt failed; none will follow.
    Exhausted,
}

/// A notification for the code that uses a surface.
#[derive(Debug)]
pub enum WebViewAction {
    /// Nothing to tell.
    Nothing,
    /// The view was built.
    Initialized,
    /// The last attempt failed; the text says why.
    InitFailed(String),
    /// Hosted content sent a message.
    IpcMessage { channel: String, data: String },
    /// The view was told to load a URL.
    UrlChanged(String),
}

/// The mathematical content of a [`WebViewAction`].
pub enum ActionModel {
    Nothing,
    Initialized,
    InitFailed(Seq<char>),
    IpcMessage { channel: Seq<char>, data: Seq<char> },
    UrlChanged(Seq<char>),
}

impl View for WebViewAction {
    type V = ActionModel;

    open spec fn view(&self) -> ActionModel {
        match self {
            WebViewAction::Nothing => ActionModel::Nothing,
            WebViewAction::Initialized => ActionModel::Initialized,
            WebViewAction::InitFailed(reason) => ActionModel::InitFailed(reason@),
            WebViewAction::IpcMessage { channel, data } => ActionModel::IpcMessage {
                channel: channel@,
                data: data@,
            },
            WebViewAction::UrlChanged(url) => ActionModel::UrlChanged(url@),
        }
    }
}

/// What the host does after a frame tick.
#[derive(Debug)]
pub enum FrameStep {
    /// Nothing.
    Idle,
    /// Build the platform view with this configuration, then report how it
    /// ended.
    Attempt(WebViewConfig),
    /// Show the view.
    Show,
}

/// The mathematical content of a [`FrameStep`].
pub enum FrameStepModel {
    Idle,
    Attempt(ConfigModel),
    Show,
}

impl View for FrameStep {
    type V = FrameStepModel;

    open spec fn view(&self) -> FrameStepModel {
        match self {
            FrameStep::Idle => FrameStepModel::Idle,
            FrameStep::Attempt(config) => FrameStepModel::Attempt(config@),
            FrameStep::Show => FrameStepModel::Show,
        }
    }
}

/// What the host does after a change of the active flag.
#[derive(Debug, Clone, Copy, PartialEq, Eq, Structural)]
pub enum ActivationStep {
    /// Nothing.
    Idle,
    /// Ask for the next frame tick.
    RequestFrame,
    /// Hide the view.
    Hide,
}

/// What the host does and tells after an attempt ended.
#[derive(Debug)]
pub struct AttemptOutcome {
    /// The notification to emit.
    pub action: WebViewAction,
    /// Whether to evaluate the bridge script in the new view.
    pub inject_bridge: bool,
    /// Whether to hide the new view: the surface went inactive meanwhile.
    pub hide: bool,
}

/// The mathematical content of an [`AttemptOutcome`].
pub struct OutcomeModel {
    pub action: ActionModel,
    pub inject_bridge: bool,
    pub hide: bool,
}

impl View for AttemptOutcome {
    type V = OutcomeModel;

    open spec fn view(&self) -> OutcomeModel {
        OutcomeModel { action: self.action@, inject_bridge: self.inject_bridge, hide: self.hide }
    }
}

/// The mathematical content of a [`WebViewContainer`].
pub struct SurfaceModel {
    /// The URL that the view is built with; empty for a blank page.
    pub url: Seq<char>,
    pub devtools: bool,
    pub transparent: bool,
    /// Whether the surface may build, show and resize its view.
    pub active: bool,
    /// The view, once it is built.
    pub view: Option<ViewModel>,
    /// What the running attempt builds the view with.
    pub in_flight: Option<ConfigModel>,
    /// The attempts made so far.
    pub attempts: nat,
    /// The bounds that the layout reported last.
    pub cached_bounds: Option<WebViewBounds>,
    /// The frame ticks so far.
    pub frame_count: nat,
    /// The frame of the last attempt.
    pub last_attempt_frame: nat,
}

/// The bounds of a surface whose layout is not known yet.
pub open spec fn default_bounds() -> WebViewBounds {
    WebViewBounds { x: 0, y: 0, width: 800, height: 600 }
}

/// What an attempt builds the view with: the surface's URL, or a blank page
/// where it has none; the bounds reported last, or the default bounds.
pub open spec fn attempt_config(s: SurfaceModel) -> ConfigModel {
    ConfigModel {
        url: if s.url.len() == 0 {
            "about:blank"@
        } else {
            s.url
        },
        bounds: match s.cached_bounds {
            Some(b) => b,
            None => default_bounds(),
        },
        devtools: s.devtools,
        transparent: s.transparent,
        user_agent: None,
    }
}

/// Whether every attempt was made and failed.
pub open spec fn exhausted(s: SurfaceModel) -> bool {
    s.view is None && s.in_flight is None && s.attempts >= MAX_INIT_ATTEMPTS
}

/// Whether an attempt is due: the first one once `INITIAL_DELAY` frames have
/// passed, a later one `RETRY_INTERVAL` frames after the one before.
pub open spec fn attempt_due(s: SurfaceModel) -> bool {
    if s.attempts == 0 {
        s.frame_count >= INITIAL_DELAY
    } else {
        s.frame_count >= s.last_attempt_frame + RETRY_INTERVAL
    }
}

/// Where a surface stands.
pub open spec fn lifecycle(s: SurfaceModel) -> SurfaceLifecycle {
    if exhausted(s) {
        SurfaceLifecycle::Exhausted
    } else if !s.active {
        SurfaceLifecycle::Inactive
    } else if s.view is Some {
        SurfaceLifecycle::Initialized
    } else if s.attempts == 0 {
        SurfaceLifecycle::PendingInitialAttempt
    } else {
        SurfaceLifecycle::Retrying
    }
}

/// What holds of every surface: no more than `MAX_INIT_ATTEMPTS` attempts
/// were made, the view is initialized if it exists, and no attempt runs
/// beside a view or before the first attempt was counted.
pub open spec fn valid(s: SurfaceModel) -> bool {
    &&& s.attempts <= MAX_INIT_ATTEMPTS
    &&& s.last_attempt_frame <= s.frame_count <= u64::MAX
    &&& (s.view matches Some(v) ==> v.initialized)
    &&& (s.in_flight is Some ==> s.view is None && s.attempts >= 1)
}

/// The frame count after one more tick. It stops at the largest count that
/// the surface can hold.
pub open spec fn next_frame_count(n: nat) -> nat {
    if n < u64::MAX {
        n + 1
    } else {
        n
    }
}

/// The surface after a frame tick, and what the host does.
pub open spec fn after_frame(s: SurfaceModel) -> (SurfaceModel, FrameStepModel) {
    let t = SurfaceModel { frame_count: next_frame_count(s.frame_count), ..s };
    if !t.active {
        (t, FrameStepModel::Idle)
    } else if let Some(v) = t.view {
        (SurfaceModel { view: Some(ViewModel { visible: true, ..v }), ..t }, FrameStepModel::Show)
    } else if t.in_flight is None && t.attempts < MAX_INIT_ATTEMPTS && attempt_due(t) {
        (
            SurfaceModel {
                attempts: t.attempts + 1,
                last_attempt_frame: t.frame_count,
                in_flight: Some(attempt_config(t)),
                ..t
            },
            FrameStepModel::Attempt(attempt_config(t)),
        )
    } else {
        (t, FrameStepModel::Idle)
    }
}

/// The surface after an attempt ended, and what the host does and tells.
///
/// Without a running attempt nothing changes. A built view is initialized and
/// gets the bridge script; it is hidden if the surface went inactive meanwhile.
/// A failure is told once, when it was the last attempt.
pub open spec fn after_attempt(s: SurfaceModel, built: Result<(), ErrorModel>) -> (
    SurfaceModel,
    OutcomeModel,
) {
    match s.in_flight {
        None => (s, OutcomeModel { action: ActionModel::Nothing, inject_bridge: false, hide: false }),
        Some(config) => match built {
            Ok(_) => (
                SurfaceModel {
                    in_flight: None,
                    view: Some(ViewModel { initialized: true, config, visible: s.active }),
                    ..s
                },
                OutcomeModel {
                    action: ActionModel::Initialized,
                    inject_bridge: true,
                    hide: !s.active,
                },
            ),
            Err(e) => (
                SurfaceModel { in_flight: None, ..s },
                OutcomeModel {
                    action: if s.attempts >= MAX_INIT_ATTEMPTS {
                        ActionModel::InitFailed(error_text(e))
                    } else {
                        ActionModel::Nothing
                    },
                    inject_bridge: false,
                    hide: false,
                },
            ),
        },
    }
}

/// The surface after the active flag was set, and what the host does.
pub open spec fn after_set_active(s: SurfaceModel, active: bool) -> (SurfaceModel, ActivationStep) {
    if s.active == active {
        (s, ActivationStep::Idle)
    } else if active {
        (SurfaceModel { active: true, ..s }, ActivationStep::RequestFrame)
    } else {
        match s.view {
            Some(v) => (
                SurfaceModel { active: false, view: Some(ViewModel { visible: false, ..v }), ..s },
                ActivationStep::Hide,
            ),
            None => (SurfaceModel { active: false, ..s }, ActivationStep::Idle),
        }
    }
}

/// The surface after the layout reported bounds, and the bounds to forward
/// to the view, if any: those reported, where they differ from the bounds
/// reported before and the surface is active with a view.
pub open spec fn after_bounds(s: SurfaceModel, bounds: WebViewBounds) -> (
    SurfaceModel,
    Option<WebViewBounds>,
) {
    if s.cached_bounds == Some(bounds) {
        (s, None)
    } else {
        let t = SurfaceModel { cached_bounds: Some(bounds), ..s };
        match t.view {
            Some(v) if t.active => (
                SurfaceModel {
                    view: Some(ViewModel { config: ConfigModel { bounds, ..v.config }, ..v }),
                    ..t
                },
                Some(bounds),
            ),
            _ => (t, None),
        }
    }
}

/// The surface after its view was shown or hidden on request: nothing
/// changes without a view.
pub open spec fn after_set_visible(s: SurfaceModel, visible: bool) -> SurfaceModel {
    match s.view {
        Some(v) => SurfaceModel { view: Some(ViewModel { visible, ..v }), ..s },
        None => s,
    }
}

/// The surface after its view was torn down: without view and without a
/// running attempt.
pub open spec fn after_teardown(s: SurfaceModel) -> SurfaceModel {
    SurfaceModel { view: None, in_flight: None, ..s }
}

/// One surface and its view.
#[derive(Debug)]
pub struct WebViewContainer {
    url: String,
    devtools: bool,
    transparent: bool,
    active: bool,
    webview: Option<ManagedWebView>,
    pending: Option<ManagedWebView>,
    init_attempts: u32,
    cached_rect: Option<WebViewBounds>,
    frame_count: u64,
    last_init_frame: u64,
}

impl View for WebViewContainer {
    type V = SurfaceModel;

    closed spec fn view(&self) -> SurfaceModel {
        SurfaceModel {
            url: self.url@,
            devtools: self.devtools,
            transparent: self.transparent,
            active: self.active,
            view: match self.webview {
                Some(v) => Some(v@),
                None => None,
            },
            in_flight: match self.pending {
                Some(v) => Some(v@.config),
                None => None,
            },
            attempts: self.init_attempts as nat,
            cached_bounds: self.cached_rect,
            frame_count: self.frame_count as nat,
            last_attempt_frame: self.last_init_frame as nat,
        }
    }
}

impl WebViewContainer {
    /// What holds of every surface that this module hands out.
    pub closed spec fn wf(&self) -> bool {
        &&& valid(self@)
        &&& (self.pending matches Some(v) ==> v@ == (ViewModel {
            initialized: false,
            config: v@.config,
            visible: true,
        }))
    }

    /// Every surface that this module hands out is valid; in particular no
    /// more than `MAX_INIT_ATTEMPTS` attempts were made.
    pub proof fn lemma_wf_valid(&self)
        requires
            self.wf(),
        ensures
            valid(self@),
            self@.attempts <= MAX_INIT_ATTEMPTS,
    {
    }

    /// An inactive surface without a view, before its first frame.
    pub fn new(url: String, devtools: bool, transparent: bool) -> (c: Self)
        ensures
            c.wf(),
            c@ == (SurfaceModel {
                url: url@,
                devtools,
                transparent,
                active: false,
                view: None,
                in_flight: None,
                attempts: 0,
                cached_bounds: None,
                frame_count: 0,
                last_attempt_frame: 0,
            }),
    {
        WebViewContainer {
            url,
            devtools,
            transparent,
            active: false,
            webview: None,
            pending: None,
            init_attempts: 0,
            cached_rect: None,
            frame_count: 0,
            last_init_frame: 0,
        }
    }

    /// What the next attempt builds the view with.
    fn attempt_config(&self) -> (config: WebViewConfig)
        ensures
            config@ == attempt_config(self@),
    {
        let bounds = match self.cached_rect {
            Some(b) => b,
            None => WebViewBounds { x: 0, y: 0, width: 800, height: 600 },
        };
        let url = if self.url.as_str().is_empty() {
            "about:blank".to_owned()
        } else {
            self.url.clone()
        };
        WebViewConfig {
            url,
            bounds,
            devtools: self.devtools,
            transparent: self.transparent,
            user_agent: None,
        }
    }

    /// Counts a frame tick and says what the host does: build the view where
    /// an attempt is due, show the view where it exists, else nothing. An
    /// inactive surface only counts the tick.
    pub fn next_frame(&mut self) -> (step: FrameStep)
        requires
            old(self).wf(),
        ensures
            final(self).wf(),
            (final(self)@, step@) == after_frame(old(self)@),
    {
        if self.frame_count < u64::MAX {
            self.frame_count = self.frame_count + 1;
        }
        if !self.active {
            return FrameStep::Idle;
        }
        if self.webview.is_some() {
            let mut webview = self.webview.take().unwrap();
            let _ = webview.set_visible(true);
            self.webview = Some(webview);
            return FrameStep::Show;
        }
        if self.pending.is_none() && self.init_attempts < MAX_INIT_ATTEMPTS {
            let due = if self.init_attempts == 0 {
                self.frame_count >= INITIAL_DELAY
            } else {
                self.frame_count - self.last_init_frame >= RETRY_INTERVAL
            };
            if due {
                let config = self.attempt_config();
                self.init_attempts = self.init_attempts + 1;
                self.last_init_frame = self.frame_count;
                self.pending = Some(ManagedWebView::new(config.clone()));
                return FrameStep::Attempt(config);
            }
        }
        FrameStep::Idle
    }

    /// Records how the attempt that `next_frame` asked for ended.
    pub fn initialize_webview(&mut self, built: Result<(), WebViewError>) -> (outcome:
        AttemptOutcome)
        requires
            old(self).wf(),
        ensures
            final(self).wf(),
            (final(self)@, outcome@) == after_attempt(
                old(self)@,
                match built {
                    Ok(_) => Ok(()),
                    Err(e) => Err(e@),
                },
            ),
    {
        if self.pending.is_none() {
            return AttemptOutcome { action: WebViewAction::Nothing, inject_bridge: false, hide: false };
        }
        let mut webview = self.pending.take().unwrap();
        match webview.initialize(built) {
            Ok(_) => {
                let hide = !self.active;
                if hide {
                    let _ = webview.set_visible(false);
                }
                self.webview = Some(webview);
                AttemptOutcome { action: WebViewAction::Initialized, inject_bridge: true, hide }
            },
            Err(e) => {
                let action = if self.init_attempts >= MAX_INIT_ATTEMPTS {
                    WebViewAction::InitFailed(e.to_string())
                } else {
                    WebViewAction::Nothing
                };
                AttemptOutcome { action, inject_bridge: false, hide: false }
            },
        }
    }

    /// Sets the active flag. Going inactive hides the view, if there is one;
    /// going active asks for a frame tick. The attempts made are kept.
    pub fn set_active(&mut self, active: bool) -> (step: ActivationStep)
        requires
            old(self).wf(),
        ensures
            final(self).wf(),
            (final(self)@, step) == after_set_active(old(self)@, active),
    {
        if self.active == active {
            return ActivationStep::Idle;
        }
        self.active = active;
        if active {
            ActivationStep::RequestFrame
        } else if self.webview.is_some() {
            let mut webview = self.webview.take().unwrap();
            let _ = webview.set_visible(false);
            self.webview = Some(webview);
            ActivationStep::Hide
        } else {
            ActivationStep::Idle
        }
    }

    /// Whether the surface is active.
    pub fn is_active(&self) -> (b: bool)
        ensures
            b == self@.active,
    {
        self.active
    }

    /// Whether the surface waits for a frame tick to build its view.
    pub fn wants_frame(&self) -> (b: bool)
        ensures
            b == (self@.active && self@.view is None && self@.attempts < MAX_INIT_ATTEMPTS),
    {
        self.active && self.webview.is_none() && self.init_attempts < MAX_INIT_ATTEMPTS
    }

    /// Takes the bounds that the layout or a change of the window's geometry
    /// reports, and hands back the command to forward, if any.
    pub fn sync_bounds(&mut self, bounds: WebViewBounds) -> (command: Option<ViewCommand>)
        requires
            old(self).wf(),
        ensures
            final(self).wf(),
            final(self)@ == after_bounds(old(self)@, bounds).0,
            match command {
                Some(c) => after_bounds(old(self)@, bounds).1 matches Some(b) && c@
                    == CommandModel::SetBounds(b),
                None => after_bounds(old(self)@, bounds).1 is None,
            },
    {
        let same = match self.cached_rect {
            Some(b) => b == bounds,
            None => false,
        };
        if same {
            return None;
        }
        self.cached_rect = Some(bounds);
        if self.active && self.webview.is_some() {
            let mut webview = self.webview.take().unwrap();
            let r = webview.set_bounds(bounds);
            self.webview = Some(webview);
            match r {
                Ok(c) => Some(c),
                Err(_) => None,
            }
        } else {
            None
        }
    }

    /// Where the surface stands.
    pub fn state(&self) -> (st: SurfaceLifecycle)
        ensures
            st == lifecycle(self@),
    {
        if self.webview.is_none() && self.pending.is_none() && self.init_attempts
            >= MAX_INIT_ATTEMPTS {
            SurfaceLifecycle::Exhausted
        } else if !self.active {
            SurfaceLifecycle::Inactive
        } else if self.webview.is_some() {
            SurfaceLifecycle::Initialized
        } else if self.init_attempts == 0 {
            SurfaceLifecycle::PendingInitialAttempt
        } else {
            SurfaceLifecycle::Retrying
        }
    }

    /// Whether the view exists.
    pub fn is_initialized(&self) -> (b: bool)
        ensures
            b == (self@.view is Some),
    {
        self.webview.is_some()
    }

    /// Navigates the view to a URL: the command to forward and the
    /// notification to emit, or `NotInitialized` while there is no view.
    pub fn load_url(&self, url: &str) -> (r: Result<(ViewCommand, WebViewAction), WebViewError>)
        requires
            self.wf(),
        ensures
            match r {
                Ok((command, action)) => self@.view is Some && command@ == CommandModel::LoadUrl(
                    url@,
                ) && action@ == ActionModel::UrlChanged(url@),
                Err(e) => self@.view is None && e@ == ErrorModel::NotInitialized,
            },
    {
        match &self.webview {
            Some(webview) => match webview.load_url(url) {
                Ok(command) => Ok((command, WebViewAction::UrlChanged(url.to_owned()))),
                Err(e) => Err(e),
            },
            None => Err(WebViewError::NotInitialized),
        }
    }

    /// Evaluates a script in the view, or fails with `NotInitialized` while
    /// there is no view.
    pub fn eval(&self, js: &str) -> (r: Result<ViewCommand, WebViewError>)
        requires
            self.wf(),
        ensures
            command_result(r) == (if self@.view is Some {
                Ok(CommandModel::Eval(js@))
            } else {
                Err(ErrorModel::NotInitialized)
            }),
    {
        match &self.webview {
            Some(webview) => webview.eval(js),
            None => Err(WebViewError::NotInitialized),
        }
    }

    /// Sends a message to hosted content, or fails with `NotInitialized` while
    /// there is no view.
    pub fn send_to_js(&self, channel: &str, data: &str) -> (r: Result<ViewCommand, WebViewError>)
        requires
            self.wf(),
        ensures
            command_result(r) == (if self@.view is Some {
                Ok(CommandModel::Eval(send_script(channel@, data@)))
            } else {
                Err(ErrorModel::NotInitialized)
            }),
    {
        match &self.webview {
            Some(webview) => webview.send_to_js(channel, data),
            None => Err(WebViewError::NotInitialized),
        }
    }

    /// The command that sets the messaging convention up in the view, or
    /// `NotInitialized` while there is no view.
    pub fn inject_ipc_bridge(&self) -> (r: Result<ViewCommand, WebViewError>)
        requires
            self.wf(),
        ensures
            command_result(r) == (if self@.view is Some {
                Ok(CommandModel::Eval(bridge_script()))
            } else {
                Err(ErrorModel::NotInitialized)
            }),
    {
        match &self.webview {
            Some(webview) => webview.inject_ipc_bridge(),
            None => Err(WebViewError::NotInitialized),
        }
    }

    /// Shows or hides the view, or fails with `NotInitialized` while there is
    /// no view.
    pub fn set_visible(&mut self, visible: bool) -> (r: Result<ViewCommand, WebViewError>)
        requires
            old(self).wf(),
        ensures
            final(self).wf(),
            final(self)@ == after_set_visible(old(self)@, visible),
            command_result(r) == (if old(self)@.view is Some {
                Ok(CommandModel::SetVisible(visible))
            } else {
                Err(ErrorModel::NotInitialized)
            }),
    {
        if self.webview.is_some() {
            let mut webview = self.webview.take().unwrap();
            let r = webview.set_visible(visible);
            self.webview = Some(webview);
            match r {
                Some(c) => Ok(c),
                None => Err(WebViewError::NotInitialized),
            }
        } else {
            Err(WebViewError::NotInitialized)
        }
    }

    /// Ends the surface's life: the command that tears the view down, if
    /// there is one. Afterwards the surface has no view and no running
    /// attempt.
    pub fn teardown(&mut self) -> (command: Option<ViewCommand>)
        requires
            old(self).wf(),
        ensures
            final(self).wf(),
            final(self)@ == after_teardown(old(self)@),
            match command {
                Some(c) => old(self)@.view is Some && c@ == CommandModel::Destroy,
                None => old(self)@.view is None,
            },
    {
        self.pending = None;
        if self.webview.is_some() {
            let mut webview = self.webview.take().unwrap();
            webview.teardown()
        } else {
            None
        }
    }
}

/// The notification for each polled message, in order.
pub fn ipc_actions(messages: Vec<IpcMessage>) -> (actions: Vec<WebViewAction>)
    ensures
        actions@.len() == messages@.len(),
        forall|i: int|
            0 <= i < messages@.len() ==> (#[trigger] actions@[i])@ == (ActionModel::IpcMessage {
                channel: messages@[i].channel@,
                data: messages@[i].data@,
            }),
{
    let mut actions: Vec<WebViewAction> = Vec::new();
    let mut i: usize = 0;
    while i < messages.len()
        invariant
            i <= messages@.len(),
            actions@.len() == i,
            forall|k: int|
                0 <= k < i ==> (#[trigger] actions@[k])@ == (ActionModel::IpcMessage {
                    channel: messages@[k].channel@,
                    data: messages@[k].data@,
                }),
        decreases messages.len() - i,
    {
        actions.push(
            WebViewAction::IpcMessage {
                channel: messages[i].channel.clone(),
                data: messages[i].data.clone(),
            },
        );
        i += 1;
    }
    actions
}

/// Something that happens to a surface.
pub enum SurfaceEvent {
    /// A frame tick.
    Frame,
    /// The running attempt ended.
    AttemptEnded(Result<(), ErrorModel>),
    /// The active flag was set.
    SetActive(bool),
    /// The layout reported bounds.
    Bounds(WebViewBounds),
    /// The view was shown or hidden on request.
    SetVisible(bool),
    /// The view was torn down.
    Teardown,
}

/// The surface after an event.
pub open spec fn apply(s: SurfaceModel, e: SurfaceEvent) -> SurfaceModel {
    match e {
        SurfaceEvent::Frame => after_frame(s).0,
        SurfaceEvent::AttemptEnded(built) => after_attempt(s, built).0,
        SurfaceEvent::SetActive(active) => after_set_active(s, active).0,
        SurfaceEvent::Bounds(bounds) => after_bounds(s, bounds).0,
        SurfaceEvent::SetVisible(visible) => after_set_visible(s, visible),
        SurfaceEvent::Teardown => after_teardown(s),
    }
}

/// The surface after a run of events.
pub open spec fn run(s: SurfaceModel, events: Seq<SurfaceEvent>) -> SurfaceModel
    decreases events.len(),
{
    if events.len() == 0 {
        s
    } else {
        apply(run(s, events.drop_last()), events.last())
    }
}

/// Whether the surface answers an event by asking the host to build the
/// view.
pub open spec fn asks_attempt(s: SurfaceModel, e: SurfaceEvent) -> bool {
    e is Frame && after_frame(s).1 is Attempt
}

/// Whether the surface answers an event by telling that the view could not
/// be built.
pub open spec fn tells_failure(s: SurfaceModel, e: SurfaceEvent) -> bool {
    e matches SurfaceEvent::AttemptEnded(built) && after_attempt(s, built).1.action is InitFailed
}

/// No event takes a valid surface to one that is not: the attempts never
/// exceed `MAX_INIT_ATTEMPTS`.
pub proof fn lemma_apply_valid(s: SurfaceModel, e: SurfaceEvent)
    requires
        valid(s),
    ensures
        valid(apply(s, e)),
        apply(s, e).attempts <= MAX_INIT_ATTEMPTS,
{
}

/// No run of events takes a valid surface to one that is not.
pub proof fn lemma_run_valid(s: SurfaceModel, events: Seq<SurfaceEvent>)
    requires
        valid(s),
    ensures
        valid(run(s, events)),
        run(s, events).attempts <= MAX_INIT_ATTEMPTS,
    decreases events.len(),
{
    if events.len() > 0 {
        lemma_run_valid(s, events.drop_last());
        lemma_apply_valid(run(s, events.drop_last()), events.last());
    }
}

/// An exhausted surface stays exhausted whatever happens, and never asks
/// for another attempt nor tells the failure again.
pub proof fn lemma_exhausted_stays(s: SurfaceModel, e: SurfaceEvent)
    requires
        exhausted(s),
    ensures
        exhausted(apply(s, e)),
        !asks_attempt(s, e),
        !tells_failure(s, e),
        apply(s, e).attempts == s.attempts,
{
}

/// After exhaustion no run of events, however long, brings an attempt: at
/// every point of the run the surface is exhausted and asks for none.
pub proof fn lemma_exhausted_forever(s: SurfaceModel, events: Seq<SurfaceEvent>)
    requires
        exhausted(s),
    ensures
        exhausted(run(s, events)),
        run(s, events).attempts == s.attempts,
        forall|k: int|
            0 <= k < events.len() ==> !asks_attempt(
                run(s, #[trigger] events.take(k)),
                events[k],
            ),
    decreases events.len(),
{
    if events.len() > 0 {
        let before = events.drop_last();
        lemma_exhausted_forever(s, before);
        lemma_exhausted_stays(run(s, before), events.last());
        assert forall|k: int| 0 <= k < events.len() implies !asks_attempt(
            run(s, #[trigger] events.take(k)),
            events[k],
        ) by {
            if k < events.len() - 1 {
                assert(events.take(k) == before.take(k));
                assert(events[k] == before[k]);
            } else {
                assert(events.take(k) == before);
            }
        }
    }
}

/// The failure is told when the last attempt fails, and the surface is
/// exhausted from then on.
pub proof fn lemma_failure_told_at_exhaustion(s: SurfaceModel, e: SurfaceEvent)
    requires
        valid(s),
        tells_failure(s, e),
    ensures
        !exhausted(s),
        exhausted(apply(s, e)),
{
}

/// Going inactive and active again keeps the attempts made, and an
/// exhausted surface exhausted.
pub proof fn lemma_reactivation_keeps_attempts(s: SurfaceModel)
    ensures
        ({
            let t = after_set_active(after_set_active(s, false).0, true).0;
            &&& t.attempts == s.attempts
            &&& t.active
            &&& exhausted(s) ==> exhausted(t)
            &&& t.view is Some <==> s.view is Some
        }),
{
}

/// Setting the active flag never changes the attempts made.
pub proof fn lemma_set_active_keeps_attempts(s: SurfaceModel, active: bool)
    ensures
        after_set_active(s, active).0.attempts == s.attempts,
        exhausted(s) <==> exhausted(after_set_active(s, active).0),
{
}

/// Bounds are forwarded only for an active surface with a view, and only
/// where they differ from the bounds reported before; reporting the same
/// bounds again forwards nothing.
pub proof fn lemma_bounds_forwarding(s: SurfaceModel, bounds: WebViewBounds)
    ensures
        after_bounds(s, bounds).1 is Some <==> (s.active && s.view is Some && s.cached_bounds
            != Some(bounds)),
        after_bounds(s, bounds).1 matches Some(b) ==> b == bounds,
        after_bounds(after_bounds(s, bounds).0, bounds).1 is None,
        after_bounds(after_bounds(s, bounds).0, bounds).0 == after_bounds(s, bounds).0,
{
}

/// While a surface is inactive, frame ticks bring no attempt, and nothing
/// but the frame count changes.
pub proof fn lemma_inactive_frozen(s: SurfaceModel)
    requires
        !s.active,
    ensures
        after_frame(s).1 is Idle,
        after_frame(s).0 == (SurfaceModel { frame_count: next_frame_count(s.frame_count), ..s }),
{
}

} // verus!
