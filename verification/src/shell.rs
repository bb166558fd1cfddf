//! The window shell: one window, which is made when the event loop starts and
//! whose closing ends the program.
use vstd::prelude::*;

verus! {

/// What the event loop has to do next.
#[derive(Debug, Clone, Copy, PartialEq, Eq, Structural)]
pub enum LoopAction {
    Continue,
    /// Make the window, and report whether that succeeded.
    CreateWindow,
    Exit,
}

/// An event of the window.
#[derive(Debug, Clone, Copy, PartialEq, Eq, Structural)]
pub enum WindowSignal {
    CloseRequested,
    Resized { width: u32, height: u32 },
    RedrawRequested,
    Other,
}

/// The state of the shell across the event loop.
#[derive(Debug, Clone, Copy, PartialEq, Eq, Structural)]
pub struct PurttyApp {
    pub has_window: bool,
}

impl PurttyApp {
    /// A window is made unless there is one.
    pub open spec fn resumed_spec(self) -> LoopAction {
        if self.has_window {
            LoopAction::Continue
        } else {
            LoopAction::CreateWindow
        }
    }

    /// The shell after an attempt to make the window.
    pub open spec fn after_attempt(self, succeeded: bool) -> PurttyApp {
        PurttyApp { has_window: self.has_window || succeeded }
    }

    /// The number of windows made while the event loop goes on once for each
    /// of `attempts`, which tell whether making a window would succeed.
    pub open spec fn windows_made(self, attempts: Seq<bool>) -> nat
        decreases attempts.len(),
    {
        if attempts.len() == 0 {
            0
        } else if self.resumed_spec() == LoopAction::CreateWindow {
            (if attempts.first() {
                1nat
            } else {
                0nat
            }) + self.after_attempt(attempts.first()).windows_made(attempts.drop_first())
        } else {
            self.windows_made(attempts.drop_first())
        }
    }

    /// The shell before the event loop runs, without a window.
    pub fn new() -> (app: PurttyApp)
        ensures
            app == (PurttyApp { has_window: false }),
    {
        PurttyApp { has_window: false }
    }

    /// The event loop has started or gone on: a window is made unless there is
    /// one.
    pub fn resumed(&self) -> (action: LoopAction)
        ensures
            action == self.resumed_spec(),
    {
        if self.has_window {
            return LoopAction::Continue;
        }
        LoopAction::CreateWindow
    }

    /// The attempt to make the window has ended. Without a window the program
    /// ends.
    pub fn window_created(&mut self, succeeded: bool) -> (action: LoopAction)
        ensures
            *final(self) == old(self).after_attempt(succeeded),
            action == (if succeeded {
                LoopAction::Continue
            } else {
                LoopAction::Exit
            }),
    {
        if succeeded {
            self.has_window = true;
            LoopAction::Continue
        } else {
            LoopAction::Exit
        }
    }

    /// The window has an event. Only a request to close it ends the program.
    pub fn window_event(&self, signal: WindowSignal) -> (action: LoopAction)
        ensures
            action == (if signal == WindowSignal::CloseRequested {
                LoopAction::Exit
            } else {
                LoopAction::Continue
            }),
    {
        match signal {
            WindowSignal::CloseRequested => LoopAction::Exit,
            WindowSignal::Resized { .. } => LoopAction::Continue,
            WindowSignal::RedrawRequested => LoopAction::Continue,
            WindowSignal::Other => LoopAction::Continue,
        }
    }
}

/// The shell makes one window at most, and none beside one that it has. Without
/// one it tries again until it has succeeded.
pub proof fn lemma_one_window(app: PurttyApp, attempts: Seq<bool>)
    ensures
        app.windows_made(attempts) <= 1,
        app.has_window ==> app.windows_made(attempts) == 0,
        !app.has_window ==> (app.windows_made(attempts) == 1 <==> attempts.contains(true)),
    decreases attempts.len(),
{
    if attempts.len() > 0 {
        lemma_one_window(app, attempts.drop_first());
        lemma_one_window(app.after_attempt(attempts.first()), attempts.drop_first());
        if attempts.contains(true) && !attempts.first() {
            let i = choose|i: int| 0 <= i < attempts.len() && attempts[i];
            assert(attempts.drop_first()[i - 1]);
        }
        if attempts.drop_first().contains(true) {
            let i = choose|i: int| 0 <= i < attempts.len() - 1 && attempts.drop_first()[i];
            assert(attempts[i + 1]);
        }
        if attempts.first() {
            assert(attempts[0]);
        }
    }
}

/// The renderer of the shell, which draws nothing.
#[derive(Debug)]
pub struct Renderer {
    _private: (),
}

impl Renderer {
    /// The only value there is.
    pub closed spec fn placeholder() -> Renderer {
        Renderer { _private: () }
    }

    pub fn new() -> (renderer: Renderer)
        ensures
            renderer == Renderer::placeholder(),
    {
        Renderer { _private: () }
    }
}

impl Default for Renderer {
    fn default() -> (renderer: Renderer)
        ensures
            renderer == Renderer::placeholder(),
    {
        Renderer::new()
    }
}

/// An attempt that succeeds leaves the shell with a window, and one that fails
/// takes none away.
pub proof fn lemma_attempts_keep_windows(app: PurttyApp)
    ensures
        app.after_attempt(true).has_window,
        app.after_attempt(false) == app,
        app.has_window <==> app.resumed_spec() == LoopAction::Continue,
        !app.has_window <==> app.resumed_spec() == LoopAction::CreateWindow,
{
}

} // verus!
