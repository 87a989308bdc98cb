//! The host's window around an embedded plugin interface.
//!
//! Its life has five steps: the window is created, visible and empty; the
//! plugin puts its interface into it; every frame its events are looked at,
//! which tell when the user wants it closed; the plugin destroys its
//! interface; the window is destroyed. The plugin's part always ends before
//! the window does, so a window never destroys itself when it is asked to
//! close: it remembers the request and waits.

use crate::text::{join2, join3, owned};
use vstd::prelude::*;

verus! {

/// The windowing system that a window belongs to.
#[derive(Debug, Clone, Copy, PartialEq, Eq, Structural)]
pub enum WindowSystem {
    X11,
    Win32,
}

/// A window dimension as the windowing system takes it, never zero: X11 has
/// 16 bits for it, and what is larger becomes the largest; Win32 has a signed
/// number, and what does not fit wraps around.
pub open spec fn extent_of(system: WindowSystem, n: u32) -> int {
    if n == 0 {
        1
    } else {
        match system {
            WindowSystem::X11 => if n > 0xFFFF {
                0xFFFF
            } else {
                n as int
            },
            WindowSystem::Win32 => if n > 0x7FFF_FFFF {
                n - 0x1_0000_0000
            } else {
                n as int
            },
        }
    }
}

/// A window dimension as the windowing system takes it.
pub fn extent(system: WindowSystem, n: u32) -> (r: i32)
    ensures
        r == extent_of(system, n),
{
    if n == 0 {
        return 1;
    }
    match system {
        WindowSystem::X11 => if n > 0xFFFF {
            0xFFFF
        } else {
            n as i32
        },
        WindowSystem::Win32 => {
            assert(n <= 0x7FFF_FFFF ==> n as i32 == n) by (bit_vector);
            assert(n > 0x7FFF_FFFF ==> n as i32 == n - 0x1_0000_0000) by (bit_vector);
            #[verifier::truncate] (n as i32)
        },
    }
}

/// The steps of creating a window, each of which can fail.
#[derive(Debug, Clone, Copy, PartialEq, Eq, Structural)]
pub enum WindowStage {
    Connect,
    GenerateId,
    CreateWindow,
    CreateWindowReply,
    SetProtocols,
    SetName,
    SetNetName,
    SetClass,
    MapWindow,
    Flush,
}

/// How a failure's report begins.
pub open spec fn stage_words(stage: WindowStage) -> Seq<char> {
    match stage {
        WindowStage::Connect => "X11 connect failed: "@,
        WindowStage::GenerateId => "generate_id failed: "@,
        WindowStage::CreateWindow => "create_window failed: "@,
        WindowStage::CreateWindowReply => "create_window rejected: "@,
        WindowStage::SetProtocols => "set WM_PROTOCOLS failed: "@,
        WindowStage::SetName => "set WM_NAME failed: "@,
        WindowStage::SetNetName => "set _NET_WM_NAME failed: "@,
        WindowStage::SetClass => "set WM_CLASS failed: "@,
        WindowStage::MapWindow => "map_window failed: "@,
        WindowStage::Flush => "flush failed: "@,
    }
}

/// A failure's report.
pub fn window_failure(stage: WindowStage, reason: &str) -> (r: String)
    ensures
        r@ == stage_words(stage) + reason@,
{
    match stage {
        WindowStage::Connect => join2("X11 connect failed: ", reason),
        WindowStage::GenerateId => join2("generate_id failed: ", reason),
        WindowStage::CreateWindow => join2("create_window failed: ", reason),
        WindowStage::CreateWindowReply => join2("create_window rejected: ", reason),
        WindowStage::SetProtocols => join2("set WM_PROTOCOLS failed: ", reason),
        WindowStage::SetName => join2("set WM_NAME failed: ", reason),
        WindowStage::SetNetName => join2("set _NET_WM_NAME failed: ", reason),
        WindowStage::SetClass => join2("set WM_CLASS failed: ", reason),
        WindowStage::MapWindow => join2("map_window failed: ", reason),
        WindowStage::Flush => join2("flush failed: ", reason),
    }
}

/// The report of a failure to name an atom: to ask for it, or to get the
/// answer.
pub fn atom_failure(name: &str, asked: bool, reason: &str) -> (r: String)
    ensures
        r@ == "intern_atom("@ + name@ + (if asked {
            ") reply: "@
        } else {
            ") send: "@
        }) + reason@,
{
    let start: String = if asked {
        join3("intern_atom(", name, ") reply: ")
    } else {
        join3("intern_atom(", name, ") send: ")
    };
    join2(start.as_str(), reason)
}

/// What a window is asked for: a title and the size of its client area.
#[derive(Debug, Clone, PartialEq, Eq)]
pub struct WindowRequest {
    pub title: String,
    pub width: i32,
    pub height: i32,
}

/// The request for a window with the given title and client area.
pub fn window_request(system: WindowSystem, title: &str, width: u32, height: u32) -> (r:
    WindowRequest)
    ensures
        r.title@ == title@,
        r.width == extent_of(system, width),
        r.height == extent_of(system, height),
{
    WindowRequest {
        title: owned(title),
        width: extent(system, width),
        height: extent(system, height),
    }
}

/// Something that happened to the connection that a window lives on.
#[derive(Debug, Clone, Copy, PartialEq, Eq, Structural)]
pub enum WindowEvent {
    /// A message to a window: its format, and the first of its values.
    ClientMessage { window: u32, format: u8, first: u32 },
    /// Anything else.
    Other,
    /// The connection is gone.
    ConnectionLost,
}

/// The numbers that the windowing system gave a new window.
#[derive(Debug, Clone, Copy, PartialEq, Eq)]
pub struct WindowIds {
    pub window: u32,
    pub atom_wm_delete_window: u32,
}

/// A window as the windowing system knows it.
#[derive(Debug, Clone, Copy, PartialEq, Eq)]
pub struct NativeWindow {
    pub system: WindowSystem,
    pub window: u32,
    /// The number that stands for a close request on this connection.
    pub atom_wm_delete_window: u32,
    pub width: i32,
    pub height: i32,
    pub close_requested: bool,
}

impl NativeWindow {
    /// A window that was just opened.
    pub open spec fn opened_as(
        system: WindowSystem,
        ids: WindowIds,
        width: u32,
        height: u32,
    ) -> NativeWindow {
        NativeWindow {
            system,
            window: ids.window,
            atom_wm_delete_window: ids.atom_wm_delete_window,
            width: extent_of(system, width) as i32,
            height: extent_of(system, height) as i32,
            close_requested: false,
        }
    }

    /// This window with another size.
    pub open spec fn resized(&self, width: u32, height: u32) -> NativeWindow {
        NativeWindow {
            width: extent_of(self.system, width) as i32,
            height: extent_of(self.system, height) as i32,
            ..*self
        }
    }

    /// Takes over the outcome of creating a window whose client area is
    /// `width` by `height`.
    pub fn create(
        system: WindowSystem,
        width: u32,
        height: u32,
        opened: Result<WindowIds, String>,
    ) -> (r: Result<Self, String>)
        ensures
            match opened {
                Ok(ids) => r matches Ok(w) && w == Self::opened_as(system, ids, width, height),
                Err(e) => r matches Err(m) && m == e,
            },
    {
        match opened {
            Ok(ids) => Ok(
                NativeWindow {
                    system,
                    window: ids.window,
                    atom_wm_delete_window: ids.atom_wm_delete_window,
                    width: extent(system, width),
                    height: extent(system, height),
                    close_requested: false,
                },
            ),
            Err(e) => Err(e),
        }
    }

    /// The number by which the plugin knows the window that it is put into.
    pub fn clap_window(&self) -> (r: u64)
        ensures
            r == self.window,
    {
        self.window as u64
    }

    /// Resizes the client area. Returns the size that the windowing system is
    /// asked for.
    pub fn resize(&mut self, width: u32, height: u32) -> (r: (i32, i32))
        ensures
            r.0 == extent_of(old(self).system, width),
            r.1 == extent_of(old(self).system, height),
            *final(self) == old(self).resized(width, height),
    {
        self.width = extent(self.system, width);
        self.height = extent(self.system, height);
        (self.width, self.height)
    }

    /// Whether an event asks for this window to be closed: the user's request,
    /// or the loss of the connection.
    pub open spec fn is_close(&self, event: WindowEvent) -> bool {
        match event {
            WindowEvent::ClientMessage { window, format, first } => {
                &&& window == self.window
                &&& format == 32
                &&& first == self.atom_wm_delete_window
            },
            WindowEvent::Other => false,
            WindowEvent::ConnectionLost => true,
        }
    }

    /// Whether any of the events asks for this window to be closed.
    pub open spec fn any_close(&self, events: Seq<WindowEvent>) -> bool {
        exists|i: int| 0 <= i < events.len() && self.is_close(#[trigger] events[i])
    }

    /// This window after its pending events were looked at: it is to be closed
    /// if one of them asks for it, or if it was before.
    pub open spec fn polled(self, events: Seq<WindowEvent>) -> NativeWindow {
        NativeWindow {
            close_requested: self.close_requested || self.any_close(events),
            ..self
        }
    }

    fn closes(&self, event: &WindowEvent) -> (r: bool)
        ensures
            r == self.is_close(*event),
    {
        match event {
            WindowEvent::ClientMessage { window, format, first } => *window == self.window
                && *format == 32 && *first == self.atom_wm_delete_window,
            WindowEvent::Other => false,
            WindowEvent::ConnectionLost => true,
        }
    }

    /// Looks at the pending events, up to the loss of the connection. Returns
    /// whether the window should be closed, now or since an earlier call.
    pub fn poll_events(&mut self, events: &Vec<WindowEvent>) -> (r: bool)
        ensures
            *final(self) == old(self).polled(events@),
            r == final(self).close_requested,
    {
        let mut i: usize = 0;
        while i < events.len()
            invariant
                i <= events.len(),
                *self == (NativeWindow { close_requested: self.close_requested, ..*old(self) }),
                self.close_requested == (old(self).close_requested || exists|j: int|
                    0 <= j < i && old(self).is_close(#[trigger] events@[j])),
            decreases events.len() - i,
        {
            if self.closes(&events[i]) {
                self.close_requested = true;
                assert(old(self).is_close(events@[i as int]));
            }
            i = i + 1;
        }
        self.close_requested
    }
}

/// A top-level window that owns nothing but a frame and a close button. The
/// plugin paints into a child window inside its client area.
#[derive(Debug, Clone, Copy, PartialEq, Eq)]
pub struct PluginGuiWindow(pub NativeWindow);

impl PluginGuiWindow {
    /// Takes over the outcome of creating a window whose client area is
    /// `width` by `height`.
    pub fn create(
        system: WindowSystem,
        width: u32,
        height: u32,
        opened: Result<WindowIds, String>,
    ) -> (r: Result<Self, String>)
        ensures
            match opened {
                Ok(ids) => r matches Ok(w) && w.0 == NativeWindow::opened_as(
                    system,
                    ids,
                    width,
                    height,
                ),
                Err(e) => r matches Err(m) && m == e,
            },
    {
        match NativeWindow::create(system, width, height, opened) {
            Ok(window) => Ok(PluginGuiWindow(window)),
            Err(e) => Err(e),
        }
    }

    /// The number by which the plugin knows the window that it is put into.
    pub fn clap_window(&self) -> (r: u64)
        ensures
            r == self.0.window,
    {
        self.0.clap_window()
    }

    /// Resizes the client area. Returns the size that the windowing system is
    /// asked for.
    pub fn resize(&mut self, width: u32, height: u32) -> (r: (i32, i32))
        ensures
            r.0 == extent_of(old(self).0.system, width),
            r.1 == extent_of(old(self).0.system, height),
            final(self).0 == old(self).0.resized(width, height),
    {
        self.0.resize(width, height)
    }

    /// Looks at the pending events. Returns `true` once the user has asked to
    /// close the window: the plugin's interface is then to be destroyed, and
    /// after that the window.
    pub fn poll_events(&mut self, events: &Vec<WindowEvent>) -> (r: bool)
        ensures
            final(self).0 == old(self).0.polled(events@),
            r == final(self).0.close_requested,
    {
        self.0.poll_events(events)
    }
}

/// A window that was asked to close stays asked, whatever comes after; and one
/// that was not is asked as soon as a later event does.
pub proof fn law_close_request_stays(window: NativeWindow, first: Seq<WindowEvent>, later: Seq<
    WindowEvent,
>)
    ensures
        window.polled(first).close_requested ==> window.polled(first).polled(later).close_requested,
        window.polled(first).polled(later) == window.polled(first + later),
{
    let both = first + later;
    if window.any_close(first) {
        let i = choose|i: int| 0 <= i < first.len() && window.is_close(#[trigger] first[i]);
        assert(window.is_close(both[i]));
    }
    let between = window.polled(first);
    if between.any_close(later) {
        let i = choose|i: int| 0 <= i < later.len() && between.is_close(#[trigger] later[i]);
        assert(window.is_close(both[first.len() + i]));
    }
    if window.any_close(both) {
        let i = choose|i: int| 0 <= i < both.len() && window.is_close(#[trigger] both[i]);
        if i < first.len() {
            assert(window.is_close(first[i]));
        } else {
            assert(between.is_close(later[i - first.len()]));
        }
    }
}

/// A window gets the size that is asked for wherever its system can take it,
/// and is never without one.
pub proof fn law_windows_get_the_size_asked_for(system: WindowSystem, n: u32)
    ensures
        0 < n <= 0xFFFF ==> extent_of(system, n) == n,
        n > 0xFFFF ==> extent_of(WindowSystem::X11, n) == 0xFFFF,
        0 < n <= 0x7FFF_FFFF ==> extent_of(WindowSystem::Win32, n) == n,
        extent_of(system, 0) == 1,
{
}

/// A new window has its size and is not to be closed; resizing it changes its
/// size and nothing else.
pub proof fn law_resizing_changes_only_the_size(
    system: WindowSystem,
    ids: WindowIds,
    width: u32,
    height: u32,
    window: NativeWindow,
)
    ensures
        ({
            let opened = NativeWindow::opened_as(system, ids, width, height);
            &&& opened.window == ids.window
            &&& opened.atom_wm_delete_window == ids.atom_wm_delete_window
            &&& opened.system == system
            &&& !opened.close_requested
            &&& 0 < width <= 0xFFFF ==> opened.width == width
            &&& 0 < height <= 0xFFFF ==> opened.height == height
        }),
        ({
            let resized = window.resized(width, height);
            &&& 0 < width <= 0xFFFF ==> resized.width == width
            &&& 0 < height <= 0xFFFF ==> resized.height == height
            &&& resized.window == window.window
            &&& resized.close_requested == window.close_requested
            &&& resized.atom_wm_delete_window == window.atom_wm_delete_window
            &&& resized.system == window.system
        }),
{
}

/// A window is asked to close by the message that stands for it, if that is
/// meant for this window, and by the loss of its connection; by nothing else.
pub proof fn law_what_asks_a_window_to_close(window: NativeWindow, format: u8, first: u32, id: u32)
    ensures
        window.is_close(WindowEvent::ConnectionLost),
        !window.is_close(WindowEvent::Other),
        window.is_close(WindowEvent::ClientMessage { window: id, format, first }) <==> id
            == window.window && format == 32 && first == window.atom_wm_delete_window,
{
}

/// Looking at events changes nothing but whether the window is to be closed,
/// and that only where one of them asks for it.
pub proof fn law_polling_only_notes_the_request(window: NativeWindow, events: Seq<WindowEvent>)
    ensures
        window.polled(Seq::<WindowEvent>::empty()) == window,
        window.polled(events).window == window.window,
        window.polled(events).width == window.width,
        window.polled(events).height == window.height,
        window.polled(events).close_requested && !window.close_requested ==> exists|i: int|
            0 <= i < events.len() && window.is_close(#[trigger] events[i]),
        (exists|i: int| 0 <= i < events.len() && window.is_close(#[trigger] events[i]))
            ==> window.polled(events).close_requested,
{
}

} // verus!
