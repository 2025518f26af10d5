//! Window configuration and the event decisions of the application loop.
use vstd::prelude::*;

verus! {

/// How the window is shown.
#[derive(Clone, Copy, Debug, PartialEq, Eq, Structural)]
pub enum WindowMode {
    Windowed,
    Borderless,
    FullScreen,
}

impl Default for WindowMode {
    fn default() -> (m: WindowMode)
        ensures
            m == WindowMode::Windowed,
    {
        WindowMode::Windowed
    }
}

/// A window size.
#[derive(Clone, Copy, Debug, PartialEq, Eq)]
pub struct Resolution<P> {
    pub width: P,
    pub height: P,
}

/// The fullscreen setting a window is created with.
#[derive(Clone, Copy, Debug, PartialEq, Eq, Structural)]
pub enum Fullscreen {
    /// a window in the normal desktop
    Off,
    /// a borderless window covering the current monitor
    Borderless,
}

/// The fullscreen setting for a window mode. Exclusive fullscreen is not
/// implemented: it opens a borderless window too.
pub fn fullscreen_mode(mode: WindowMode) -> (f: Fullscreen)
    ensures
        f == (if mode == WindowMode::Windowed { Fullscreen::Off } else { Fullscreen::Borderless }),
{
    match mode {
        WindowMode::Windowed => Fullscreen::Off,
        WindowMode::Borderless => Fullscreen::Borderless,
        WindowMode::FullScreen => Fullscreen::Borderless,
    }
}

/// The window settings of an application. The renderer's vsync mode is
/// configured beside them, by the renderer.
pub struct Config {
    pub window_title: String,
    /// the window's inner size; the platform picks one when it is `None`
    pub resolution: Option<Resolution<u32>>,
    pub window_mode: WindowMode,
    pub resizeable: bool,
    pub decorated: bool,
}

impl Default for Config {
    fn default() -> (c: Config)
        ensures
            c.window_title@ == "Maple Window"@,
            c.resolution is None,
            c.window_mode == WindowMode::Windowed,
            c.resizeable,
            c.decorated,
    {
        Config {
            window_title: "Maple Window".to_owned(),
            resolution: None,
            window_mode: WindowMode::Windowed,
            resizeable: true,
            decorated: true,
        }
    }
}

/// The attributes a window is created with.
pub struct WindowAttributes {
    pub title: String,
    pub resizable: bool,
    pub decorations: bool,
    pub fullscreen: Fullscreen,
    /// the requested inner size in physical pixels, if any
    pub inner_size: Option<(u32, u32)>,
}

impl Config {
    /// The attributes of the application's window: title, resizability and
    /// decorations as configured, the fullscreen setting of the window mode,
    /// and the configured resolution as the inner size.
    pub fn window_attributes(&self) -> (a: WindowAttributes)
        ensures
            a.title@ == self.window_title@,
            a.resizable == self.resizeable,
            a.decorations == self.decorated,
            a.fullscreen == (if self.window_mode == WindowMode::Windowed {
                Fullscreen::Off
            } else {
                Fullscreen::Borderless
            }),
            a.inner_size == (match self.resolution {
                Some(r) => Some((r.width, r.height)),
                None => None::<(u32, u32)>,
            }),
    {
        let inner_size = match &self.resolution {
            Some(r) => Some((r.width, r.height)),
            None => None,
        };
        WindowAttributes {
            title: self.window_title.clone(),
            resizable: self.resizeable,
            decorations: self.decorated,
            fullscreen: fullscreen_mode(self.window_mode),
            inner_size,
        }
    }
}

/// The window events the application loop acts on.
#[derive(Clone, Copy, Debug, PartialEq, Eq, Structural)]
pub enum WindowEventKind {
    CloseRequested,
    Resized { width: u32, height: u32 },
    RedrawRequested,
    /// any other event: it only reaches the game context
    Other,
}

/// What the application loop does with a window event, after handing it to
/// the game context.
#[derive(Clone, Copy, Debug, PartialEq, Eq, Structural)]
pub enum AppAction {
    /// leave the event loop
    Exit,
    /// resize the renderer's surface
    Resize { width: u32, height: u32 },
    /// run one frame: fixed updates, update, draw
    Frame,
    /// nothing more
    Nothing,
}

/// The action for a window event once the application is running.
pub fn window_event_action(event: WindowEventKind) -> (a: AppAction)
    ensures
        a == (match event {
            WindowEventKind::CloseRequested => AppAction::Exit,
            WindowEventKind::Resized { width, height } => AppAction::Resize { width, height },
            WindowEventKind::RedrawRequested => AppAction::Frame,
            WindowEventKind::Other => AppAction::Nothing,
        }),
{
    match event {
        WindowEventKind::CloseRequested => AppAction::Exit,
        WindowEventKind::Resized { width, height } => AppAction::Resize { width, height },
        WindowEventKind::RedrawRequested => AppAction::Frame,
        WindowEventKind::Other => AppAction::Nothing,
    }
}

/// What the application does when the event loop resumes it.
#[derive(Clone, Copy, Debug, PartialEq, Eq, Structural)]
pub enum ResumeAction {
    /// the window and renderer exist already: nothing to do
    AlreadyRunning,
    /// create the window and renderer, then run the plugins' `ready`
    Initialize,
}

/// The action on resume: initialization happens once, on the first resume.
pub fn resume_action(initialized: bool) -> (a: ResumeAction)
    ensures
        a == (if initialized { ResumeAction::AlreadyRunning } else { ResumeAction::Initialize }),
{
    if initialized {
        ResumeAction::AlreadyRunning
    } else {
        ResumeAction::Initialize
    }
}

/// The plugin every application starts with: logging, textures, input and
/// the update events.
pub struct DefaultPlugin;

impl DefaultPlugin {
    /// The log filter used unless the environment sets one.
    pub fn log_filter() -> (f: &'static str)
        ensures
            f@ == "info,wgpu_hal=warn,naga=warn"@,
    {
        "info,wgpu_hal=warn,naga=warn"
    }
}

} // verus!
