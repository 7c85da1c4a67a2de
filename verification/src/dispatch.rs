//! The event dispatcher: from each incoming event to what has to be done
//! about it. Input events are only noted; a change of size is the one thing
//! that makes the window draw.

use vstd::prelude::*;
use crate::surface::{
    ConfigureOutcome, ProtocolViolation, SurfaceError, SurfaceLifecycle, SurfaceModel,
    SurfaceState, DEFAULT_HEIGHT, DEFAULT_WIDTH,
};
use crate::vec2::Vec2;

verus! {

/// The exit code of a process whose window was closed by the shell.
pub const EXIT_CLOSED: i32 = 0;

/// What the pointer did. Positions are surface coordinates in 1/256 of a
/// pixel.
#[derive(Debug, Clone, Copy, PartialEq, Eq)]
pub enum PointerEvent {
    Enter { x: i32, y: i32 },
    Leave,
    Motion { x: i32, y: i32 },
    Button { button: u32, pressed: bool },
    /// Anything else the pointer reports.
    Other,
}

/// What the keyboard did.
#[derive(Debug, Clone, Copy, PartialEq, Eq)]
pub enum KeyboardEvent {
    Enter,
    Leave,
    Key { key: u32, pressed: bool },
    /// Anything else the keyboard reports.
    Other,
}

/// What happened to the window itself.
#[derive(Debug, Clone, Copy, PartialEq, Eq)]
pub enum WindowEvent {
    /// The drawable has been given this size.
    Resize(Vec2<i32>),
}

/// An event that the dispatcher routes, tagged by where it comes from.
#[derive(Debug, Clone, Copy, PartialEq, Eq)]
pub enum Event {
    Mouse(PointerEvent),
    Keyboard(KeyboardEvent),
    Window(WindowEvent),
}

/// An event of the shell.
#[derive(Debug, Clone, Copy, PartialEq, Eq)]
pub enum ShellEvent {
    /// The shell asks the window to take up a size; zero leaves a
    /// dimension to the client.
    Configure { serial: u32, width: i32, height: i32 },
    /// The shell closes the window.
    Close,
    /// The shell asks whether the client is alive.
    Ping { serial: u32 },
}

/// Anything that the event queue delivers.
#[derive(Debug, Clone, Copy, PartialEq, Eq)]
pub enum Incoming {
    Shell(ShellEvent),
    Input(Event),
}

/// Something for the caller to carry out, in the order given.
#[derive(Debug, Clone, Copy, PartialEq, Eq)]
pub enum Action {
    /// Answer a ping with its serial.
    Pong(u32),
    /// Acknowledge the configuration with this serial.
    AckConfigure(u32),
    /// Resize the drawable in place.
    ResizeDrawable { width: i32, height: i32 },
    /// Tell the graphics layer the size of the viewport.
    SetViewport { width: i32, height: i32 },
    /// Draw one frame.
    Redraw,
    /// Present the frame that was drawn.
    SwapBuffers,
    /// Note an input event in the log.
    Log(Event),
    /// End the process with this exit code.
    Exit(i32),
}

/// What the dispatcher does about an event: it draws and presents on a
/// change of size, notes what the pointer and the keyboard report, and
/// passes over what it does not know.
pub open spec fn dispatched(event: Event) -> Seq<Action> {
    match event {
        Event::Window(WindowEvent::Resize(_)) => seq![Action::Redraw, Action::SwapBuffers],
        Event::Mouse(PointerEvent::Other) => seq![],
        Event::Keyboard(KeyboardEvent::Other) => seq![],
        _ => seq![Action::Log(event)],
    }
}

/// Routes one event.
pub fn dispatch(event: Event) -> (actions: Vec<Action>)
    ensures
        actions@ == dispatched(event),
{
    let mut actions: Vec<Action> = Vec::new();
    match event {
        Event::Window(WindowEvent::Resize(_)) => {
            actions.push(Action::Redraw);
            actions.push(Action::SwapBuffers);
        },
        Event::Mouse(PointerEvent::Other) => {},
        Event::Keyboard(KeyboardEvent::Other) => {},
        _ => {
            actions.push(Action::Log(event));
        },
    }
    assert(actions@ =~= dispatched(event));
    actions
}

/// The result of one step of a session: the surface afterwards and what
/// there is to do.
pub struct Step {
    pub next: SurfaceModel,
    pub actions: Seq<Action>,
}

/// A session keeps its surface sound and acknowledges every configuration
/// at once, so that none waits between two events.
pub open spec fn session_wf(m: SurfaceModel) -> bool {
    m.wf() && m.pending.len() == 0
}

/// The fault, if any, with which a session refuses an event.
pub open spec fn step_fault(m: SurfaceModel, event: Incoming) -> Option<ProtocolViolation> {
    match event {
        Incoming::Shell(ShellEvent::Configure { serial, width, height }) => m.configure_fault(
            serial,
            width as int,
            height as int,
        ),
        _ => None,
    }
}

/// What the actions are that take up a new size: acknowledge, resize the
/// drawable, set the viewport, draw, present.
pub open spec fn resize_actions(serial: u32, width: i32, height: i32) -> Seq<Action> {
    seq![
        Action::AckConfigure(serial),
        Action::ResizeDrawable { width, height },
        Action::SetViewport { width, height },
        Action::Redraw,
        Action::SwapBuffers,
    ]
}

/// One step of a session on an event that it does not refuse. A closed
/// session does nothing. A configure event is acknowledged, and where it
/// changes the size the drawable follows and one frame is drawn and
/// presented. A close event ends the session. A ping is answered. Any
/// other event goes through the dispatcher, and a frame that it presents
/// commits the surface.
pub open spec fn step(m: SurfaceModel, event: Incoming) -> Step {
    if m.state == SurfaceState::Closed {
        Step { next: m, actions: seq![] }
    } else {
        match event {
            Incoming::Shell(ShellEvent::Configure { serial, width, height }) => {
                let configured = m.configured(serial, width as int, height as int).acked();
                if m.requested_change(width as int, height as int) {
                    Step {
                        next: configured.committed(),
                        actions: resize_actions(serial, width, height),
                    }
                } else {
                    Step { next: configured, actions: seq![Action::AckConfigure(serial)] }
                }
            },
            Incoming::Shell(ShellEvent::Close) => Step {
                next: m.closed(),
                actions: seq![Action::Exit(EXIT_CLOSED)],
            },
            Incoming::Shell(ShellEvent::Ping { serial }) => Step {
                next: m,
                actions: seq![Action::Pong(serial)],
            },
            Incoming::Input(Event::Window(e)) => Step {
                next: m.committed(),
                actions: dispatched(Event::Window(e)),
            },
            Incoming::Input(e) => Step { next: m, actions: dispatched(e) },
        }
    }
}

/// The result of a run of a session over a queue of events.
pub struct Run {
    pub next: SurfaceModel,
    pub actions: Seq<Action>,
    pub fault: Option<ProtocolViolation>,
}

/// A session run over a queue of events, strictly in their order. The run
/// stops at the first event that is refused: what was decided up to there
/// stands, and nothing after it is looked at.
pub open spec fn run(m: SurfaceModel, events: Seq<Incoming>) -> Run
    decreases events.len(),
{
    if events.len() == 0 {
        Run { next: m, actions: seq![], fault: None }
    } else {
        let before = run(m, events.drop_last());
        if before.fault is Some {
            before
        } else {
            match step_fault(before.next, events.last()) {
                Some(fault) => Run { fault: Some(fault), ..before },
                None => {
                    let s = step(before.next, events.last());
                    Run { next: s.next, actions: before.actions + s.actions, fault: None }
                },
            }
        }
    }
}

/// One window's session: the surface and everything that changes while
/// events come in.
#[derive(Debug)]
pub struct Session {
    surface: SurfaceLifecycle,
}

impl View for Session {
    type V = SurfaceModel;

    closed spec fn view(&self) -> SurfaceModel {
        self.surface@
    }
}

impl Session {
    /// A session with a fresh surface whose drawable has the given size.
    pub fn new(width: i32, height: i32) -> (res: Result<Session, SurfaceError>)
        ensures
            res is Ok <==> width > 0 && height > 0,
            res matches Err(e) ==> e == SurfaceError::DegenerateSize,
            res matches Ok(s) ==> session_wf(s@) && s@ == (SurfaceModel {
                state: SurfaceState::Created,
                width: width as int,
                height: height as int,
                pending: Seq::empty(),
            }),
    {
        match SurfaceLifecycle::new(width, height) {
            Ok(surface) => Ok(Session { surface }),
            Err(e) => Err(e),
        }
    }

    /// A session with a fresh surface of the default size.
    pub fn with_default_size() -> (s: Session)
        ensures
            session_wf(s@),
            s@ == (SurfaceModel {
                state: SurfaceState::Created,
                width: DEFAULT_WIDTH as int,
                height: DEFAULT_HEIGHT as int,
                pending: Seq::empty(),
            }),
    {
        Session { surface: SurfaceLifecycle::with_default_size() }
    }

    /// The surface of the session.
    pub fn surface(&self) -> (s: &SurfaceLifecycle)
        ensures
            s@ == self@,
    {
        &self.surface
    }

    /// Wraps the surface into a top-level window.
    pub fn bind_shell(&mut self) -> (res: Result<(), ProtocolViolation>)
        requires
            session_wf(old(self)@),
        ensures
            res is Ok <==> old(self)@.state == SurfaceState::Created,
            res matches Err(e) ==> e == ProtocolViolation::UnexpectedEvent && final(self)@ == old(self)@,
            res is Ok ==> final(self)@ == (SurfaceModel {
                state: SurfaceState::ShellBound,
                ..old(self)@
            }),
            session_wf(final(self)@),
    {
        self.surface.bind_shell()
    }

    /// Takes one event and says what has to be done about it.
    pub fn handle(&mut self, event: Incoming) -> (res: Result<Vec<Action>, ProtocolViolation>)
        requires
            session_wf(old(self)@),
        ensures
            match step_fault(old(self)@, event) {
                Some(fault) => res == Err::<Vec<Action>, ProtocolViolation>(fault) && final(self)@
                    == old(self)@,
                None => res matches Ok(actions) && actions@ == step(old(self)@, event).actions
                    && final(self)@ == step(old(self)@, event).next,
            },
            session_wf(final(self)@),
    {
        if self.surface.is_closed() {
            let none: Vec<Action> = Vec::new();
            assert(none@ =~= Seq::<Action>::empty());
            return Ok(none);
        }
        let mut actions: Vec<Action> = Vec::new();
        match event {
            Incoming::Shell(ShellEvent::Configure { serial, width, height }) => {
                let outcome = match self.surface.configure(serial, width, height) {
                    Ok(outcome) => outcome,
                    Err(fault) => {
                        return Err(fault);
                    },
                };
                assert(self.surface@.pending =~= seq![serial]);
                match self.surface.ack_configure(serial) {
                    Ok(()) => {},
                    Err(fault) => {
                        return Err(fault);
                    },
                }
                assert(self.surface@.pending =~= Seq::<u32>::empty());
                actions.push(Action::AckConfigure(serial));
                match outcome {
                    ConfigureOutcome::Resized(size) => {
                        actions.push(Action::ResizeDrawable { width: size.x, height: size.y });
                        actions.push(Action::SetViewport { width: size.x, height: size.y });
                        let mut drawn = dispatch(Event::Window(WindowEvent::Resize(size)));
                        actions.append(&mut drawn);
                        match self.surface.commit() {
                            Ok(()) => {},
                            Err(fault) => {
                                return Err(fault);
                            },
                        }
                        assert(actions@ =~= resize_actions(serial, width, height));
                    },
                    _ => {
                        assert(actions@ =~= seq![Action::AckConfigure(serial)]);
                    },
                }
            },
            Incoming::Shell(ShellEvent::Close) => {
                self.surface.close();
                actions.push(Action::Exit(EXIT_CLOSED));
                assert(actions@ =~= seq![Action::Exit(EXIT_CLOSED)]);
            },
            Incoming::Shell(ShellEvent::Ping { serial }) => {
                actions.push(Action::Pong(serial));
                assert(actions@ =~= seq![Action::Pong(serial)]);
            },
            Incoming::Input(Event::Window(e)) => {
                actions = dispatch(Event::Window(e));
                match self.surface.commit() {
                    Ok(()) => {},
                    Err(fault) => {
                        return Err(fault);
                    },
                }
            },
            Incoming::Input(e) => {
                actions = dispatch(e);
            },
        }
        Ok(actions)
    }

    /// Takes the events of a queue one after the other, strictly in their
    /// order, and gathers what has to be done. It stops at the first event
    /// that is refused and hands that fault back beside the actions decided
    /// up to there.
    pub fn handle_all(&mut self, events: &Vec<Incoming>) -> (out: (
        Vec<Action>,
        Option<ProtocolViolation>,
    ))
        requires
            session_wf(old(self)@),
        ensures
            out.0@ == run(old(self)@, events@).actions,
            out.1 == run(old(self)@, events@).fault,
            final(self)@ == run(old(self)@, events@).next,
            session_wf(final(self)@),
    {
        let ghost start = self@;
        let mut actions: Vec<Action> = Vec::new();
        let mut i: usize = 0;
        assert(events@.take(0) =~= Seq::<Incoming>::empty());
        while i < events.len()
            invariant
                i <= events@.len(),
                start == old(self)@,
                session_wf(self@),
                run(start, events@.take(i as int)).fault is None,
                actions@ == run(start, events@.take(i as int)).actions,
                self@ == run(start, events@.take(i as int)).next,
            decreases events@.len() - i,
        {
            let event = events[i];
            proof {
                let upto = events@.take(i + 1);
                assert(upto.drop_last() =~= events@.take(i as int));
                assert(upto.last() == event);
            }
            match self.handle(event) {
                Ok(mut more) => {
                    actions.append(&mut more);
                },
                Err(fault) => {
                    proof {
                        let upto = events@.take(i + 1);
                        assert(run(start, upto).fault == Some(fault));
                        assert(run(start, upto).actions == actions@);
                        lemma_fault_ends_run(start, events@, i + 1);
                    }
                    return (actions, Some(fault));
                },
            }
            i += 1;
        }
        assert(events@.take(i as int) =~= events@);
        (actions, None)
    }
}

/// A run that has met a fault takes no notice of what follows in the
/// queue.
pub proof fn lemma_fault_ends_run(m: SurfaceModel, events: Seq<Incoming>, k: int)
    requires
        0 <= k <= events.len(),
        run(m, events.take(k)).fault is Some,
    ensures
        run(m, events) == run(m, events.take(k)),
    decreases events.len(),
{
    if k == events.len() {
        assert(events.take(k) =~= events);
    } else {
        assert(events.drop_last().take(k) =~= events.take(k));
        lemma_fault_ends_run(m, events.drop_last(), k);
    }
}

/// Events are processed strictly in the order of their arrival: a run over
/// a queue followed by another is the run over the first, then the run
/// over the second from where the first ended, and what the first decided
/// comes before anything that the second decides.
pub proof fn lemma_run_in_arrival_order(m: SurfaceModel, first: Seq<Incoming>, rest: Seq<Incoming>)
    requires
        run(m, first).fault is None,
    ensures
        run(m, first + rest).next == run(run(m, first).next, rest).next,
        run(m, first + rest).actions == run(m, first).actions + run(
            run(m, first).next,
            rest,
        ).actions,
        run(m, first + rest).fault == run(run(m, first).next, rest).fault,
    decreases rest.len(),
{
    let mid = run(m, first);
    if rest.len() == 0 {
        assert(first + rest =~= first);
        assert(mid.actions + Seq::<Action>::empty() =~= mid.actions);
    } else {
        let all = first + rest;
        assert(all.drop_last() =~= first + rest.drop_last());
        assert(all.last() == rest.last());
        lemma_run_in_arrival_order(m, first, rest.drop_last());
        let before = run(mid.next, rest.drop_last());
        if before.fault is None && step_fault(before.next, rest.last()) is None {
            let s = step(before.next, rest.last());
            assert((mid.actions + before.actions) + s.actions =~= mid.actions + (before.actions
                + s.actions));
        }
    }
}

/// A step that is not refused leaves the session sound, with no
/// configuration waiting.
pub proof fn lemma_step_keeps_session(m: SurfaceModel, event: Incoming)
    requires
        session_wf(m),
        step_fault(m, event) is None,
    ensures
        session_wf(step(m, event).next),
{
    if m.state != SurfaceState::Closed {
        match event {
            Incoming::Shell(ShellEvent::Configure { serial, width, height }) => {
                let c = m.configured(serial, width as int, height as int);
                assert(c.pending =~= seq![serial]);
                assert(c.acked().pending =~= Seq::<u32>::empty());
            },
            _ => {},
        }
    }
}

/// A run leaves the session sound.
pub proof fn lemma_run_keeps_session(m: SurfaceModel, events: Seq<Incoming>)
    requires
        session_wf(m),
    ensures
        session_wf(run(m, events).next),
    decreases events.len(),
{
    if events.len() > 0 {
        lemma_run_keeps_session(m, events.drop_last());
        let before = run(m, events.drop_last());
        if before.fault is None && step_fault(before.next, events.last()) is None {
            lemma_step_keeps_session(before.next, events.last());
        }
    }
}

/// How often `a` stands among the first `n` of `actions`.
pub open spec fn occurrences_in(actions: Seq<Action>, a: Action, n: nat) -> nat
    decreases n,
{
    if n == 0 {
        0
    } else {
        occurrences_in(actions, a, (n - 1) as nat) + if actions[n - 1] == a {
            1nat
        } else {
            0nat
        }
    }
}

/// How often `a` stands among `actions`.
pub open spec fn occurrences(actions: Seq<Action>, a: Action) -> nat {
    occurrences_in(actions, a, actions.len())
}

/// An action that does not stand among the first `n` occurs there zero
/// times.
pub proof fn lemma_absent_occurs_never(actions: Seq<Action>, a: Action, n: nat)
    requires
        n <= actions.len(),
        forall|i: int| 0 <= i < n ==> actions[i] != a,
    ensures
        occurrences_in(actions, a, n) == 0,
    decreases n,
{
    if n > 0 {
        lemma_absent_occurs_never(actions, a, (n - 1) as nat);
    }
}

/// Whether the event is a configure event that asks for no size other
/// than `width` by `height`: it names that size, or leaves a dimension to
/// the client.
pub open spec fn keeps_size(event: Incoming, width: int, height: int) -> bool {
    event matches Incoming::Shell(ShellEvent::Configure { width: w, height: h, .. }) && (w == 0
        || h == 0 || (w == width && h == height))
}

/// However many configure events arrive that leave the size as it is,
/// nothing is drawn and nothing is presented, and the size stays.
pub proof fn lemma_unchanged_configures_draw_nothing(m: SurfaceModel, events: Seq<Incoming>)
    requires
        session_wf(m),
        forall|i: int| 0 <= i < events.len() ==> keeps_size(#[trigger] events[i], m.width, m.height),
    ensures
        session_wf(run(m, events).next),
        run(m, events).next.width == m.width,
        run(m, events).next.height == m.height,
        forall|i: int|
            0 <= i < run(m, events).actions.len() ==> (#[trigger] run(m, events).actions[i])
                is AckConfigure,
        occurrences(run(m, events).actions, Action::Redraw) == 0,
        occurrences(run(m, events).actions, Action::SwapBuffers) == 0,
    decreases events.len(),
{
    if events.len() > 0 {
        let head = events.drop_last();
        assert forall|i: int| 0 <= i < head.len() implies keeps_size(
            #[trigger] head[i],
            m.width,
            m.height,
        ) by {
            assert(head[i] == events[i]);
        }
        lemma_unchanged_configures_draw_nothing(m, head);
        let before = run(m, head);
        assert(keeps_size(events[events.len() - 1], m.width, m.height));
        if before.fault is None && step_fault(before.next, events.last()) is None {
            lemma_step_keeps_session(before.next, events.last());
        }
    }
    let r = run(m, events);
    lemma_absent_occurs_never(r.actions, Action::Redraw, r.actions.len());
    lemma_absent_occurs_never(r.actions, Action::SwapBuffers, r.actions.len());
}

/// A configure event that changes the size, on a window that is bound to
/// the shell and not closed, is not refused; it makes the session
/// acknowledge it, resize the drawable and set the viewport to the new
/// size, and draw and present exactly once, in that order.
pub proof fn lemma_changed_configure_draws_once(
    m: SurfaceModel,
    serial: u32,
    width: i32,
    height: i32,
)
    requires
        session_wf(m),
        m.state != SurfaceState::Closed,
        m.state != SurfaceState::Created,
        width > 0,
        height > 0,
        width != m.width || height != m.height,
    ensures
        ({
            let event = Incoming::Shell(ShellEvent::Configure { serial, width, height });
            &&& step_fault(m, event) is None
            &&& step(m, event).actions == resize_actions(serial, width, height)
            &&& occurrences(step(m, event).actions, Action::Redraw) == 1
            &&& occurrences(step(m, event).actions, Action::SwapBuffers) == 1
            &&& occurrences(step(m, event).actions, Action::SetViewport { width, height }) == 1
            &&& forall|w: i32, h: i32|
                step(m, event).actions.contains(Action::SetViewport { width: w, height: h }) ==> w
                    == width && h == height
            &&& step(m, event).next.width == width
            &&& step(m, event).next.height == height
            &&& step(m, event).next.state == SurfaceState::Ready
        }),
{
    let event = Incoming::Shell(ShellEvent::Configure { serial, width, height });
    let actions = resize_actions(serial, width, height);
    assert(step(m, event).actions == actions);
    assert(actions.len() == 5);
    reveal_with_fuel(occurrences_in, 6);
    assert(occurrences(actions, Action::Redraw) == 1);
    assert(occurrences(actions, Action::SwapBuffers) == 1);
    assert(occurrences(actions, Action::SetViewport { width, height }) == 1);
}

/// A close event ends the session from whatever state it is in: the one
/// thing left to do is to exit with the code of a clean close, and no
/// event that follows is processed.
pub proof fn lemma_close_is_final(m: SurfaceModel, events: Seq<Incoming>)
    requires
        session_wf(m),
    ensures
        step_fault(m, Incoming::Shell(ShellEvent::Close)) is None,
        step(m, Incoming::Shell(ShellEvent::Close)).next.state == SurfaceState::Closed,
        m.state != SurfaceState::Closed ==> step(m, Incoming::Shell(ShellEvent::Close)).actions
            == seq![Action::Exit(EXIT_CLOSED)],
        EXIT_CLOSED == 0,
        run(step(m, Incoming::Shell(ShellEvent::Close)).next, events) == (Run {
            next: step(m, Incoming::Shell(ShellEvent::Close)).next,
            actions: seq![],
            fault: None,
        }),
    decreases events.len(),
{
    let closed = step(m, Incoming::Shell(ShellEvent::Close)).next;
    if events.len() > 0 {
        lemma_close_is_final(m, events.drop_last());
        let before = run(closed, events.drop_last());
        assert(step_fault(closed, events.last()) is None);
        assert(before.actions + step(closed, events.last()).actions =~= seq![]);
    }
}

} // verus!
