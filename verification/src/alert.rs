//! Alert windows: what the window of a reminder looks like, which windows
//! are open, and what each window event asks for.

use std::collections::HashMap;
use vstd::prelude::*;
use vstd::string::StringExecFns;
use crate::reminder::{CustomEvents, Theme};

verus! {

/// The inner width of a new alert window, in physical pixels.
pub const WINDOW_WIDTH: u32 = 400;

/// The inner height of a new alert window, in physical pixels.
pub const WINDOW_HEIGHT: u32 = 260;

/// The gap between a new alert window and the edges of the screen.
pub const WINDOW_PADDING: u32 = 24;

/// The height kept free for a task bar above a new alert window.
pub const TASKBAR: u32 = 40;

/// An alert window: a transient window without border that stays on top of
/// the others and shows the text of one reminder.
#[derive(Clone, Debug, PartialEq, Eq)]
pub struct AlertWindow {
    /// The window's title.
    pub title: String,
    /// The text of the reminder.
    pub reminder_string: String,
    /// The colour scheme.
    pub theme: Theme,
    /// The width of the drawing surface.
    pub width: u32,
    /// The height of the drawing surface.
    pub height: u32,
    /// The distance of the window from the left edge of the screen.
    pub x: u32,
    /// The distance of the window from the top edge of the screen.
    pub y: u32,
    /// Whether the window has a title bar and a border.
    pub decorations: bool,
    /// Whether the window's background lets through what lies behind it.
    pub transparent: bool,
    /// Whether what lies behind the window is blurred.
    pub blur: bool,
    /// Whether the window stays above the other windows.
    pub always_on_top: bool,
}

/// An alert window as a mathematical value.
pub struct AlertWindowView {
    pub title: Seq<char>,
    pub reminder_string: Seq<char>,
    pub theme: Theme,
    pub width: nat,
    pub height: nat,
    pub x: nat,
    pub y: nat,
    pub decorations: bool,
    pub transparent: bool,
    pub blur: bool,
    pub always_on_top: bool,
}

impl AlertWindowView {
    /// The window that is opened for a reminder with the text `string`.
    pub open spec fn initial(string: Seq<char>, theme: Theme) -> AlertWindowView {
        AlertWindowView {
            title: "Reminder: "@ + string,
            reminder_string: string,
            theme,
            width: 400,
            height: 260,
            x: 24,
            y: 64,
            decorations: false,
            transparent: true,
            blur: true,
            always_on_top: true,
        }
    }

    /// The window with its surface resized.
    pub open spec fn resized(self, width: nat, height: nat) -> AlertWindowView {
        AlertWindowView { width, height, ..self }
    }
}

impl View for AlertWindow {
    type V = AlertWindowView;

    open spec fn view(&self) -> AlertWindowView {
        AlertWindowView {
            title: self.title@,
            reminder_string: self.reminder_string@,
            theme: self.theme,
            width: self.width as nat,
            height: self.height as nat,
            x: self.x as nat,
            y: self.y as nat,
            decorations: self.decorations,
            transparent: self.transparent,
            blur: self.blur,
            always_on_top: self.always_on_top,
        }
    }
}

/// Describes the alert window for a reminder with the text `string`: its
/// title, its size, where on the screen it stands and how it is shown.
pub fn create_alert(string: &str, theme: Theme) -> (alert: AlertWindow)
    ensures
        alert@ == AlertWindowView::initial(string@, theme),
{
    AlertWindow {
        title: String::from_str("Reminder: ").concat(string),
        reminder_string: String::from_str(string),
        theme,
        width: WINDOW_WIDTH,
        height: WINDOW_HEIGHT,
        x: WINDOW_PADDING,
        y: WINDOW_PADDING + TASKBAR,
        decorations: false,
        transparent: true,
        blur: true,
        always_on_top: true,
    }
}

/// Describes the alert window that a timer event asks for.
pub fn alert_for(event: &CustomEvents) -> (alert: AlertWindow)
    ensures
        alert@ == AlertWindowView::initial(event@.text, event@.theme),
{
    match event {
        CustomEvents::CreateAlert(string, theme) => create_alert(string.as_str(), *theme),
    }
}

/// What the window system reports of one window.
#[derive(Clone, Copy, Debug, PartialEq, Eq, Structural)]
pub enum WindowEvent {
    /// The window has a new inner size.
    Resized { width: u32, height: u32 },
    /// The window has to be drawn.
    RedrawRequested,
    /// The user asked to close the window.
    CloseRequested,
    /// The user pressed or released a mouse button inside the window.
    MouseInput,
    /// Anything else.
    Other,
}

/// What the window loop has to do after an event.
#[derive(Clone, Copy, Debug, PartialEq, Eq, Structural)]
pub enum Action {
    /// Configure the window's surface to this size, then ask for a redraw.
    Reconfigure { width: u32, height: u32 },
    /// Draw the title and the reminder's text.
    Render,
    /// The window is no longer open: release it.
    Close,
    /// Nothing.
    Nothing,
}

/// The open windows after `event` has reached the window `id`.
pub open spec fn windows_after(
    windows: Map<u64, AlertWindowView>,
    id: u64,
    event: WindowEvent,
) -> Map<u64, AlertWindowView> {
    match event {
        WindowEvent::Resized { width, height } => windows.insert(
            id,
            windows[id].resized(width as nat, height as nat),
        ),
        WindowEvent::CloseRequested | WindowEvent::MouseInput => windows.remove(id),
        WindowEvent::RedrawRequested | WindowEvent::Other => windows,
    }
}

/// What `event` on the window `id` asks of the window loop.
pub open spec fn action_for(windows: Map<u64, AlertWindowView>, id: u64, event: WindowEvent) -> Action {
    match event {
        WindowEvent::Resized { width, height } => Action::Reconfigure { width, height },
        WindowEvent::RedrawRequested => Action::Render,
        WindowEvent::CloseRequested | WindowEvent::MouseInput => if windows.contains_key(id) {
            Action::Close
        } else {
            Action::Nothing
        },
        WindowEvent::Other => Action::Nothing,
    }
}

/// Whether `event` can be handled for the window `id`: a window that is
/// resized or drawn must be open.
pub open spec fn can_handle(windows: Map<u64, AlertWindowView>, id: u64, event: WindowEvent) -> bool {
    (event is Resized || event is RedrawRequested) ==> windows.contains_key(id)
}

/// The alert windows that are open, by the number of their window.
pub struct AlertWindows {
    windows: HashMap<u64, AlertWindow>,
}

impl View for AlertWindows {
    type V = Map<u64, AlertWindowView>;

    closed spec fn view(&self) -> Map<u64, AlertWindowView> {
        self.windows@.map_values(|w: AlertWindow| w@)
    }
}

impl AlertWindows {
    /// No window is open.
    pub fn new() -> (windows: AlertWindows)
        ensures
            windows@ == Map::<u64, AlertWindowView>::empty(),
    {
        let windows = AlertWindows { windows: HashMap::new() };
        assert(windows@ =~= Map::<u64, AlertWindowView>::empty());
        windows
    }

    /// How many windows are open.
    pub fn len(&self) -> (n: usize)
        ensures
            n == self@.len(),
    {
        proof {
            self.lemma_same_domain();
        }
        self.windows.len()
    }

    proof fn lemma_same_domain(&self)
        ensures
            self@.dom() == self.windows@.dom(),
            self@.len() == self.windows@.len(),
    {
        assert(self@.dom() =~= self.windows@.dom());
    }

    /// Whether the window `id` is open.
    pub fn contains(&self, id: u64) -> (open: bool)
        ensures
            open == self@.contains_key(id),
    {
        self.windows.contains_key(&id)
    }

    /// The window `id`, if it is open.
    pub fn get(&self, id: u64) -> (window: Option<&AlertWindow>)
        ensures
            window is Some <==> self@.contains_key(id),
            window matches Some(w) ==> w@ == self@[id],
    {
        self.windows.get(&id)
    }

    /// Whether `event` can be handled for the window `id`.
    pub fn accepts(&self, id: u64, event: WindowEvent) -> (ok: bool)
        ensures
            ok == can_handle(self@, id, event),
    {
        match event {
            WindowEvent::Resized { .. } | WindowEvent::RedrawRequested => self.windows.contains_key(
                &id,
            ),
            _ => true,
        }
    }

    /// Records that the window `id` was opened for `window`. A window that
    /// was open under that number is replaced.
    pub fn insert(&mut self, id: u64, window: AlertWindow)
        ensures
            final(self)@ == old(self)@.insert(id, window@),
    {
        self.windows.insert(id, window);
        assert(self@ =~= old(self)@.insert(id, window@));
    }

    /// Takes note of `event` on the window `id` and says what the window
    /// loop has to do.
    pub fn handle_window_event(&mut self, id: u64, event: WindowEvent) -> (action: Action)
        requires
            can_handle(old(self)@, id, event),
        ensures
            final(self)@ == windows_after(old(self)@, id, event),
            action == action_for(old(self)@, id, event),
    {
        match event {
            WindowEvent::Resized { width, height } => {
                let found = self.windows.remove(&id);
                let mut window = found.unwrap();
                window.width = width;
                window.height = height;
                self.windows.insert(id, window);
                assert(self@ =~= windows_after(old(self)@, id, event));
                Action::Reconfigure { width, height }
            },
            WindowEvent::RedrawRequested => Action::Render,
            WindowEvent::CloseRequested | WindowEvent::MouseInput => {
                let found = self.windows.remove(&id);
                assert(self@ =~= windows_after(old(self)@, id, event));
                match found {
                    Some(_) => Action::Close,
                    None => Action::Nothing,
                }
            },
            WindowEvent::Other => Action::Nothing,
        }
    }
}

/// An event on one window leaves every other window as it is.
pub proof fn lemma_other_windows_untouched(
    windows: Map<u64, AlertWindowView>,
    id: u64,
    event: WindowEvent,
    other: u64,
)
    requires
        other != id,
    ensures
        windows_after(windows, id, event).contains_key(other) == windows.contains_key(other),
        windows.contains_key(other) ==> windows_after(windows, id, event)[other] == windows[other],
{
}

/// After a request to close it or a click on it a window is no longer open,
/// and it is released exactly if it was open.
pub proof fn lemma_dismissed_window_is_gone(
    windows: Map<u64, AlertWindowView>,
    id: u64,
    event: WindowEvent,
)
    requires
        event is CloseRequested || event is MouseInput,
    ensures
        !windows_after(windows, id, event).contains_key(id),
        action_for(windows, id, event) == Action::Close <==> windows.contains_key(id),
{
}

/// Resizing changes the size of an open window's surface and nothing else
/// of it, and drawing changes nothing at all.
pub proof fn lemma_resize_keeps_content(
    windows: Map<u64, AlertWindowView>,
    id: u64,
    width: u32,
    height: u32,
)
    requires
        windows.contains_key(id),
    ensures
        ({
            let after = windows_after(windows, id, WindowEvent::Resized { width, height });
            &&& after.dom() == windows.dom()
            &&& after[id].width == width
            &&& after[id].height == height
            &&& after[id].title == windows[id].title
            &&& after[id].reminder_string == windows[id].reminder_string
            &&& after[id].theme == windows[id].theme
            &&& after[id].x == windows[id].x
            &&& after[id].y == windows[id].y
            &&& after[id] == windows[id].resized(width as nat, height as nat)
        }),
        windows_after(windows, id, WindowEvent::RedrawRequested) == windows,
{
    let after = windows_after(windows, id, WindowEvent::Resized { width, height });
    assert(after.dom() =~= windows.dom());
}

} // verus!
