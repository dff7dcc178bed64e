use crate::input::RawKeyEvent;
use vstd::prelude::*;

verus! {

/// Lifecycle phase of the driver's window/surface pair.
#[derive(Debug, Clone, Copy, PartialEq, Eq, Structural)]
pub enum Phase {
    /// Before the first resume: neither application state nor surface exists.
    Uninitialized,
    /// Application state and surface both exist. `width` and `height` are the
    /// surface's configured buffer dimensions, zero until the first resize of
    /// this surface.
    Active { width: u32, height: u32 },
    /// Application state exists; the surface was dropped on suspend.
    Suspended,
}

/// A host lifecycle signal, independent of any particular window event.
#[derive(Debug, Clone, Copy, PartialEq, Eq, Structural)]
pub enum LifecycleSignal {
    Resumed,
    Suspended,
    AboutToWait,
}

/// What the host must do after a lifecycle signal.
#[derive(Debug, Clone, Copy, PartialEq, Eq, Structural)]
pub enum LifecycleAction {
    /// First resume: create the application state, then a surface for it,
    /// in that order.
    InitBoth,
    /// Later resume: the application state is kept; create only a new
    /// surface for it.
    InitSurfaceOnly,
    /// Suspend: drop the surface, keep the application state.
    DropSurface,
    /// Idle: deliver the idle event to the handler.
    DeliverIdle,
    /// Idle before the first resume: nothing exists yet, deliver nothing.
    SkipIdle,
}

/// One event the host pump delivers for a window.
#[derive(Debug, Clone, PartialEq)]
pub enum WindowEventKind {
    Resized { width: u32, height: u32 },
    RedrawRequested,
    CloseRequested,
    KeyboardInput { event: RawKeyEvent },
    Other,
}

/// What the host must do after a window event.
#[derive(Debug, Clone, Copy, PartialEq, Eq, Structural)]
pub enum EventAction {
    /// Another window's event, a zero-area resize, or an event with no rule.
    Ignore,
    /// Reconfigure the surface's buffer to `width * height` pixel slots.
    ResizeSurface { width: u32, height: u32 },
    /// Render a frame of `width * height` pixel slots and present it.
    Render { width: u32, height: u32 },
    /// A resize or redraw arrived while no surface exists: report the
    /// usage-order violation and skip the event.
    ReportNoSurface,
    /// Stop the event pump.
    Exit,
}

/// The phase that one lifecycle signal leads to.
pub open spec fn phase_after_signal(p: Phase, sig: LifecycleSignal) -> Phase {
    match sig {
        LifecycleSignal::Resumed => Phase::Active { width: 0, height: 0 },
        LifecycleSignal::Suspended => Phase::Suspended,
        LifecycleSignal::AboutToWait => p,
    }
}

/// The action one lifecycle signal asks of the host.
pub open spec fn action_for_signal(p: Phase, sig: LifecycleSignal) -> LifecycleAction {
    match sig {
        LifecycleSignal::Resumed => if p is Uninitialized {
            LifecycleAction::InitBoth
        } else {
            LifecycleAction::InitSurfaceOnly
        },
        LifecycleSignal::Suspended => LifecycleAction::DropSurface,
        LifecycleSignal::AboutToWait => if p is Uninitialized {
            LifecycleAction::SkipIdle
        } else {
            LifecycleAction::DeliverIdle
        },
    }
}

/// Which signals the host may deliver in a phase: a resume only while no
/// surface exists, a suspend only while one does.
pub open spec fn signal_allowed(p: Phase, sig: LifecycleSignal) -> bool {
    match sig {
        LifecycleSignal::Resumed => !(p is Active),
        LifecycleSignal::Suspended => p is Active,
        LifecycleSignal::AboutToWait => true,
    }
}

/// The action one window event asks of the host, for a driver in phase `p`
/// owning window `own`, when the event arrives tagged with window `wid`.
pub open spec fn event_action(p: Phase, own: u64, wid: u64, ev: WindowEventKind) -> EventAction {
    if wid != own {
        EventAction::Ignore
    } else {
        match ev {
            WindowEventKind::Resized { width, height } => if !(p is Active) {
                EventAction::ReportNoSurface
            } else if width == 0 || height == 0 {
                EventAction::Ignore
            } else {
                EventAction::ResizeSurface { width, height }
            },
            WindowEventKind::RedrawRequested => match p {
                Phase::Active { width, height } => EventAction::Render { width, height },
                _ => EventAction::ReportNoSurface,
            },
            WindowEventKind::CloseRequested => EventAction::Exit,
            WindowEventKind::KeyboardInput { event } => if event.logical_escape {
                EventAction::Exit
            } else {
                EventAction::Ignore
            },
            WindowEventKind::Other => EventAction::Ignore,
        }
    }
}

/// The phase after one window event: only a positive-area resize of the
/// owned window changes anything, namely the surface dimensions.
pub open spec fn phase_after_event(p: Phase, own: u64, wid: u64, ev: WindowEventKind) -> Phase {
    match ev {
        WindowEventKind::Resized { width, height } => if wid == own && p is Active && width > 0
            && height > 0 {
            Phase::Active { width, height }
        } else {
            p
        },
        _ => p,
    }
}

/// The application driver: owns the lifecycle of one window/surface pair and
/// turns host signals and window events into the actions the host must run.
pub struct Driver {
    phase: Phase,
    window_id: u64,
}

impl Driver {
    /// The current lifecycle phase.
    pub closed spec fn phase(&self) -> Phase {
        self.phase
    }

    /// The identity of the one window this driver owns.
    pub closed spec fn window_id(&self) -> u64 {
        self.window_id
    }

    /// A driver for the window `window_id`, not yet resumed.
    pub fn new(window_id: u64) -> (d: Driver)
        ensures
            d.phase() == Phase::Uninitialized,
            d.window_id() == window_id,
    {
        Driver { phase: Phase::Uninitialized, window_id }
    }

    /// Host signal: the application was resumed. On the first resume the host
    /// must create the application state and then its surface; on a later
    /// resume the application state is kept and only a new surface is made.
    /// A resume is not allowed while a surface exists.
    pub fn resumed(&mut self) -> (a: LifecycleAction)
        requires
            signal_allowed(old(self).phase(), LifecycleSignal::Resumed),
        ensures
            final(self).window_id() == old(self).window_id(),
            final(self).phase() == phase_after_signal(old(self).phase(), LifecycleSignal::Resumed),
            a == action_for_signal(old(self).phase(), LifecycleSignal::Resumed),
    {
        let a = match self.phase {
            Phase::Uninitialized => LifecycleAction::InitBoth,
            _ => LifecycleAction::InitSurfaceOnly,
        };
        self.phase = Phase::Active { width: 0, height: 0 };
        a
    }

    /// Host signal: the application was suspended. The host must drop the
    /// surface and keep the application state. A suspend is only allowed
    /// while a surface exists.
    pub fn suspended(&mut self) -> (a: LifecycleAction)
        requires
            signal_allowed(old(self).phase(), LifecycleSignal::Suspended),
        ensures
            final(self).window_id() == old(self).window_id(),
            final(self).phase() == phase_after_signal(
                old(self).phase(),
                LifecycleSignal::Suspended,
            ),
            a == action_for_signal(old(self).phase(), LifecycleSignal::Suspended),
    {
        self.phase = Phase::Suspended;
        LifecycleAction::DropSurface
    }

    /// Host signal: the pump is about to go idle. The idle event is delivered
    /// to the handler only once application state exists.
    pub fn about_to_wait(&mut self) -> (a: LifecycleAction)
        ensures
            final(self).window_id() == old(self).window_id(),
            final(self).phase() == phase_after_signal(
                old(self).phase(),
                LifecycleSignal::AboutToWait,
            ),
            a == action_for_signal(old(self).phase(), LifecycleSignal::AboutToWait),
    {
        match self.phase {
            Phase::Uninitialized => LifecycleAction::SkipIdle,
            _ => LifecycleAction::DeliverIdle,
        }
    }

    /// One window event. Events for other windows are ignored; a
    /// positive-area resize reconfigures the surface dimensions; a zero-area
    /// resize changes nothing; a redraw renders at the current dimensions; a
    /// close request or an Escape key asks the host to exit. May only be
    /// called once application state exists.
    pub fn window_event(&mut self, window_id: u64, event: &WindowEventKind) -> (a: EventAction)
        requires
            !(old(self).phase() is Uninitialized),
        ensures
            final(self).window_id() == old(self).window_id(),
            final(self).phase() == phase_after_event(
                old(self).phase(),
                old(self).window_id(),
                window_id,
                *event,
            ),
            a == event_action(old(self).phase(), old(self).window_id(), window_id, *event),
    {
        if window_id != self.window_id {
            return EventAction::Ignore;
        }
        match event {
            WindowEventKind::Resized { width, height } => {
                match self.phase {
                    Phase::Active { .. } => {
                        if *width == 0 || *height == 0 {
                            EventAction::Ignore
                        } else {
                            self.phase = Phase::Active { width: *width, height: *height };
                            EventAction::ResizeSurface { width: *width, height: *height }
                        }
                    },
                    _ => EventAction::ReportNoSurface,
                }
            },
            WindowEventKind::RedrawRequested => {
                match self.phase {
                    Phase::Active { width, height } => EventAction::Render { width, height },
                    _ => EventAction::ReportNoSurface,
                }
            },
            WindowEventKind::CloseRequested => EventAction::Exit,
            WindowEventKind::KeyboardInput { event } => {
                if event.logical_escape {
                    EventAction::Exit
                } else {
                    EventAction::Ignore
                }
            },
            WindowEventKind::Other => EventAction::Ignore,
        }
    }
}

/// The phase after the first `i` signals of a run that starts uninitialized.
pub open spec fn phase_at(sigs: Seq<LifecycleSignal>, i: int) -> Phase
    decreases i,
{
    if i <= 0 {
        Phase::Uninitialized
    } else {
        phase_after_signal(phase_at(sigs, i - 1), sigs[i - 1])
    }
}

/// The action the driver asks for at step `i` of a run.
pub open spec fn action_at(sigs: Seq<LifecycleSignal>, i: int) -> LifecycleAction {
    action_for_signal(phase_at(sigs, i), sigs[i])
}

/// Whether the host delivered each of the first `i` signals in a phase that
/// allows it.
pub open spec fn signals_allowed_to(sigs: Seq<LifecycleSignal>, i: int) -> bool {
    forall|k: int| 0 <= k < i ==> signal_allowed(phase_at(sigs, k), #[trigger] sigs[k])
}

/// An action that creates or drops a surface.
pub open spec fn surface_action(a: LifecycleAction) -> bool {
    a == LifecycleAction::InitBoth || a == LifecycleAction::InitSurfaceOnly || a
        == LifecycleAction::DropSurface
}

/// An action that creates a surface.
pub open spec fn creates_surface(a: LifecycleAction) -> bool {
    a == LifecycleAction::InitBoth || a == LifecycleAction::InitSurfaceOnly
}

/// No surface is created or dropped strictly between steps `j` and `i`.
pub open spec fn no_surface_action_between(sigs: Seq<LifecycleSignal>, j: int, i: int) -> bool {
    forall|k: int| j < k < i ==> !surface_action(#[trigger] action_at(sigs, k))
}

/// No surface is created strictly between steps `j` and `i`.
pub open spec fn no_surface_creation_between(sigs: Seq<LifecycleSignal>, j: int, i: int) -> bool {
    forall|k: int| j < k < i ==> !creates_surface(#[trigger] action_at(sigs, k))
}

/// What each phase says about the run that led to it: no surface work before
/// the first resume; while active, the latest surface action created the
/// surface; while suspended, the latest surface action dropped it; and once
/// initialized, some step ran the one state init.
proof fn lemma_phase_history(sigs: Seq<LifecycleSignal>, i: int)
    requires
        0 <= i <= sigs.len(),
        signals_allowed_to(sigs, i),
    ensures
        phase_at(sigs, i) is Uninitialized ==> forall|k: int|
            0 <= k < i ==> !surface_action(#[trigger] action_at(sigs, k)),
        phase_at(sigs, i) is Active ==> exists|j: int|
            0 <= j < i && creates_surface(#[trigger] action_at(sigs, j))
                && no_surface_action_between(sigs, j, i),
        phase_at(sigs, i) is Suspended ==> exists|j: int|
            0 <= j < i && #[trigger] action_at(sigs, j) == LifecycleAction::DropSurface
                && no_surface_action_between(sigs, j, i),
        !(phase_at(sigs, i) is Uninitialized) ==> exists|j: int|
            0 <= j < i && #[trigger] action_at(sigs, j) == LifecycleAction::InitBoth,
    decreases i,
{
    if i > 0 {
        lemma_phase_history(sigs, i - 1);
        let p = phase_at(sigs, i - 1);
        match sigs[i - 1] {
            LifecycleSignal::Resumed => {
                assert(!(p is Active));
                assert(creates_surface(action_at(sigs, i - 1)));
                assert(no_surface_action_between(sigs, i - 1, i));
                if p is Uninitialized {
                    assert(action_at(sigs, i - 1) == LifecycleAction::InitBoth);
                }
            },
            LifecycleSignal::Suspended => {
                assert(p is Active);
                assert(action_at(sigs, i - 1) == LifecycleAction::DropSurface);
                assert(no_surface_action_between(sigs, i - 1, i));
            },
            LifecycleSignal::AboutToWait => {
                assert(!surface_action(action_at(sigs, i - 1)));
                assert(phase_at(sigs, i) == p);
                if p is Active {
                    let j = choose|j: int|
                        0 <= j < i - 1 && creates_surface(#[trigger] action_at(sigs, j))
                            && no_surface_action_between(sigs, j, i - 1);
                    assert(no_surface_action_between(sigs, j, i));
                }
                if p is Suspended {
                    let j = choose|j: int|
                        0 <= j < i - 1 && #[trigger] action_at(sigs, j)
                            == LifecycleAction::DropSurface && no_surface_action_between(
                            sigs,
                            j,
                            i - 1,
                        );
                    assert(no_surface_action_between(sigs, j, i));
                }
            },
        }
    }
}

/// Driver law: the surface-init callback alone is only ever asked for after
/// some earlier step ran the state init. (On the first resume the one
/// `InitBoth` action orders state init before surface init itself.)
pub proof fn lemma_state_init_precedes_surface_init(sigs: Seq<LifecycleSignal>, i: int)
    requires
        0 <= i < sigs.len(),
        signals_allowed_to(sigs, i),
        action_at(sigs, i) == LifecycleAction::InitSurfaceOnly,
    ensures
        exists|j: int| 0 <= j < i && #[trigger] action_at(sigs, j) == LifecycleAction::InitBoth,
{
    lemma_phase_history(sigs, i);
}

/// Driver law: a repeat surface init is only ever asked for after the
/// previous surface was dropped by a suspend, with no surface created in
/// between.
pub proof fn lemma_suspend_precedes_surface_reinit(sigs: Seq<LifecycleSignal>, i: int)
    requires
        0 <= i < sigs.len(),
        signals_allowed_to(sigs, i + 1),
        action_at(sigs, i) == LifecycleAction::InitSurfaceOnly,
    ensures
        exists|j: int|
            0 <= j < i && #[trigger] action_at(sigs, j) == LifecycleAction::DropSurface
                && no_surface_creation_between(sigs, j, i),
{
    lemma_phase_history(sigs, i);
    assert(signal_allowed(phase_at(sigs, i), sigs[i]));
    assert(phase_at(sigs, i) is Suspended);
    let j = choose|j: int|
        0 <= j < i && #[trigger] action_at(sigs, j) == LifecycleAction::DropSurface
            && no_surface_action_between(sigs, j, i);
    assert(no_surface_creation_between(sigs, j, i));
}

/// Driver law: between any two surface creations there is a suspend. Once a
/// surface has been made, another surface init is only ever asked for after
/// the previous surface was dropped in the same lifecycle run.
pub proof fn lemma_suspend_between_surface_inits(sigs: Seq<LifecycleSignal>, j: int, i: int)
    requires
        0 <= j < i < sigs.len(),
        signals_allowed_to(sigs, i + 1),
        creates_surface(action_at(sigs, j)),
        creates_surface(action_at(sigs, i)),
    ensures
        exists|d: int| j < d < i && #[trigger] action_at(sigs, d) == LifecycleAction::DropSurface,
{
    lemma_phase_history(sigs, i);
    assert(signal_allowed(phase_at(sigs, i), sigs[i]));
    // A surface creation at step i means the signal there is a resume, which
    // is only allowed while no surface exists.
    assert(sigs[i] is Resumed);
    assert(!(phase_at(sigs, i) is Active));
    if phase_at(sigs, i) is Uninitialized {
        // Before the first resume no surface action has happened, yet step j
        // created a surface.
        assert(!surface_action(action_at(sigs, j)));
        assert(false);
    }
    let d = choose|d: int|
        0 <= d < i && #[trigger] action_at(sigs, d) == LifecycleAction::DropSurface
            && no_surface_action_between(sigs, d, i);
    assert(surface_action(action_at(sigs, j)));
    assert(j <= d);
    assert(j != d);
}

/// A zero-area resize leaves the phase, and so the surface buffer
/// dimensions, exactly as they were.
pub proof fn lemma_zero_resize_keeps_dimensions(p: Phase, own: u64, wid: u64, w: u32, h: u32)
    requires
        w == 0 || h == 0,
    ensures
        phase_after_event(p, own, wid, WindowEventKind::Resized { width: w, height: h }) == p,
{
}

/// After a positive-area resize of the owned window, the next redraw renders
/// a frame of exactly the resized dimensions.
pub proof fn lemma_resize_sets_render_dimensions(p: Phase, own: u64, w: u32, h: u32)
    requires
        p is Active,
        w > 0,
        h > 0,
    ensures
        ({
            let p2 = phase_after_event(
                p,
                own,
                own,
                WindowEventKind::Resized { width: w, height: h },
            );
            event_action(p2, own, own, WindowEventKind::RedrawRequested) == (EventAction::Render {
                width: w,
                height: h,
            })
        }),
{
}

} // verus!
