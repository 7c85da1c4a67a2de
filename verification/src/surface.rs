//! The lifecycle of the one drawing surface: from a bare surface to a
//! visible, resizable window, and the bookkeeping of the configurations
//! that the shell sends and the client has to acknowledge.

use vstd::prelude::*;
use crate::vec2::Vec2;

verus! {

/// The size of the drawable before the shell has asked for any.
pub const DEFAULT_WIDTH: i32 = 100;

pub const DEFAULT_HEIGHT: i32 = 100;

/// Where the surface stands in its lifecycle.
#[derive(Debug, Clone, Copy, PartialEq, Eq, Structural)]
pub enum SurfaceState {
    /// The surface exists but is not managed by the shell yet.
    Created,
    /// The surface has been wrapped into a top-level window.
    ShellBound,
    /// A configuration has arrived that has not taken effect yet; the
    /// serial is that of the configuration that arrived last.
    ConfigurePending(u32),
    /// Every configuration has been acknowledged and committed.
    Ready,
    /// The shell has closed the window. Nothing happens after this.
    Closed,
}

/// A breach of the protocol between client and shell.
#[derive(Debug, Clone, Copy, PartialEq, Eq, Structural)]
pub enum ProtocolViolation {
    /// An event or request that the current state does not allow.
    UnexpectedEvent,
    /// A configure event with a negative width or height.
    MalformedConfigure,
    /// A configure event whose serial is still waiting to be acknowledged.
    DuplicateSerial,
    /// An acknowledgment of a serial that is not the next one to be
    /// acknowledged: one never received, one acknowledged before, or one
    /// out of turn.
    UnknownSerial,
    /// A commit while a configuration waits to be acknowledged.
    CommitBeforeAck,
}

/// No usable drawable can be had.
#[derive(Debug, Clone, Copy, PartialEq, Eq, Structural)]
pub enum SurfaceError {
    /// The drawable would have no area.
    DegenerateSize,
}

/// What a configure event did to the surface.
#[derive(Debug, Clone, Copy, PartialEq, Eq)]
pub enum ConfigureOutcome {
    /// The window is closed; the event was dropped.
    Ignored,
    /// The configuration was recorded; the bound size stays as it was.
    Unchanged,
    /// The configuration was recorded and the bound size is now this one.
    Resized(Vec2<i32>),
}

/// What a surface lifecycle is: its state, the size its drawable is bound
/// to, and the serials received and not yet acknowledged, oldest first.
pub struct SurfaceModel {
    pub state: SurfaceState,
    pub width: int,
    pub height: int,
    pub pending: Seq<u32>,
}

impl SurfaceModel {
    /// The drawable has an area, no serial waits twice, and only a surface
    /// with a configuration pending (or a closed one) has serials waiting,
    /// the last of which is the one its state names.
    pub open spec fn wf(self) -> bool {
        &&& 0 < self.width <= i32::MAX
        &&& 0 < self.height <= i32::MAX
        &&& self.pending.no_duplicates()
        &&& match self.state {
            SurfaceState::ConfigurePending(s) => self.pending.len() == 0 || self.pending.last()
                == s,
            SurfaceState::Closed => true,
            _ => self.pending.len() == 0,
        }
    }

    /// The size that a configure event asks for and the client has to take
    /// up: none if the event leaves the choice to the client (a zero in
    /// either dimension) or asks for the size already bound.
    pub open spec fn requested_change(self, width: int, height: int) -> bool {
        width != 0 && height != 0 && (width != self.width || height != self.height)
    }

    /// The fault, if any, with which a configure event is refused.
    pub open spec fn configure_fault(self, serial: u32, width: int, height: int) -> Option<
        ProtocolViolation,
    > {
        if self.state == SurfaceState::Closed {
            None
        } else if self.state == SurfaceState::Created {
            Some(ProtocolViolation::UnexpectedEvent)
        } else if width < 0 || height < 0 {
            Some(ProtocolViolation::MalformedConfigure)
        } else if self.pending.contains(serial) {
            Some(ProtocolViolation::DuplicateSerial)
        } else {
            None
        }
    }

    /// The surface after a configure event that was not refused.
    pub open spec fn configured(self, serial: u32, width: int, height: int) -> SurfaceModel {
        if self.state == SurfaceState::Closed {
            self
        } else if self.requested_change(width, height) {
            SurfaceModel {
                state: SurfaceState::ConfigurePending(serial),
                width,
                height,
                pending: self.pending.push(serial),
            }
        } else {
            SurfaceModel {
                state: SurfaceState::ConfigurePending(serial),
                pending: self.pending.push(serial),
                ..self
            }
        }
    }

    /// Whether `serial` is the one to be acknowledged next.
    pub open spec fn can_ack(self, serial: u32) -> bool {
        self.pending.len() > 0 && self.pending[0] == serial
    }

    /// The surface after the oldest waiting serial has been acknowledged.
    pub open spec fn acked(self) -> SurfaceModel {
        SurfaceModel { pending: self.pending.drop_first(), ..self }
    }

    /// Whether a commit would breach the protocol.
    pub open spec fn commit_refused(self) -> bool {
        self.state != SurfaceState::Closed && self.pending.len() > 0
    }

    /// The surface after a commit that was not refused.
    pub open spec fn committed(self) -> SurfaceModel {
        match self.state {
            SurfaceState::ConfigurePending(_) => SurfaceModel { state: SurfaceState::Ready, ..self },
            _ => self,
        }
    }

    /// The surface after the shell has closed the window.
    pub open spec fn closed(self) -> SurfaceModel {
        SurfaceModel { state: SurfaceState::Closed, ..self }
    }
}

/// The lifecycle of one surface. The drawable it stands for is resized in
/// place and never made anew.
#[derive(Debug)]
pub struct SurfaceLifecycle {
    state: SurfaceState,
    size: Vec2<i32>,
    pending: Vec<u32>,
}

impl View for SurfaceLifecycle {
    type V = SurfaceModel;

    closed spec fn view(&self) -> SurfaceModel {
        SurfaceModel {
            state: self.state,
            width: self.size.x as int,
            height: self.size.y as int,
            pending: self.pending@,
        }
    }
}

/// Whether `serial` is among `pending`.
fn is_pending(pending: &Vec<u32>, serial: u32) -> (found: bool)
    ensures
        found == pending@.contains(serial),
{
    let mut i: usize = 0;
    while i < pending.len()
        invariant
            i <= pending@.len(),
            forall|j: int| 0 <= j < i ==> pending@[j] != serial,
        decreases pending@.len() - i,
    {
        if pending[i] == serial {
            return true;
        }
        i += 1;
    }
    false
}

impl SurfaceLifecycle {
    /// A surface that has just been created, with a drawable of the given
    /// size. A size without area gives no drawable.
    pub fn new(width: i32, height: i32) -> (res: Result<SurfaceLifecycle, SurfaceError>)
        ensures
            res is Ok <==> width > 0 && height > 0,
            res matches Err(e) ==> e == SurfaceError::DegenerateSize,
            res matches Ok(s) ==> s@ == (SurfaceModel {
                state: SurfaceState::Created,
                width: width as int,
                height: height as int,
                pending: Seq::empty(),
            }) && s@.wf(),
    {
        if width <= 0 || height <= 0 {
            return Err(SurfaceError::DegenerateSize);
        }
        let s = SurfaceLifecycle {
            state: SurfaceState::Created,
            size: Vec2::new(width, height),
            pending: Vec::new(),
        };
        assert(s@.pending =~= Seq::empty());
        Ok(s)
    }

    /// A surface that has just been created, with a drawable of the
    /// default size.
    pub fn with_default_size() -> (s: SurfaceLifecycle)
        ensures
            s@ == (SurfaceModel {
                state: SurfaceState::Created,
                width: DEFAULT_WIDTH as int,
                height: DEFAULT_HEIGHT as int,
                pending: Seq::empty(),
            }),
            s@.wf(),
    {
        let s = SurfaceLifecycle {
            state: SurfaceState::Created,
            size: Vec2::new(DEFAULT_WIDTH, DEFAULT_HEIGHT),
            pending: Vec::new(),
        };
        assert(s@.pending =~= Seq::empty());
        s
    }

    /// The state of the lifecycle.
    pub fn state(&self) -> (s: SurfaceState)
        ensures
            s == self@.state,
    {
        self.state
    }

    /// The size that the drawable is bound to.
    pub fn size(&self) -> (s: Vec2<i32>)
        ensures
            s.x == self@.width,
            s.y == self@.height,
    {
        self.size
    }

    /// How many configurations wait to be acknowledged.
    pub fn pending_count(&self) -> (n: usize)
        ensures
            n == self@.pending.len(),
    {
        self.pending.len()
    }

    /// Whether the shell has closed the window.
    pub fn is_closed(&self) -> (b: bool)
        ensures
            b == (self@.state == SurfaceState::Closed),
    {
        match self.state {
            SurfaceState::Closed => true,
            _ => false,
        }
    }

    /// Wraps the surface into a top-level window. Only a surface that has
    /// just been created can be wrapped.
    pub fn bind_shell(&mut self) -> (res: Result<(), ProtocolViolation>)
        requires
            old(self)@.wf(),
        ensures
            res is Ok <==> old(self)@.state == SurfaceState::Created,
            res matches Err(e) ==> e == ProtocolViolation::UnexpectedEvent && final(self)@ == old(self)@,
            res is Ok ==> final(self)@ == (SurfaceModel {
                state: SurfaceState::ShellBound,
                ..old(self)@
            }),
            final(self)@.wf(),
    {
        match self.state {
            SurfaceState::Created => {
                self.state = SurfaceState::ShellBound;
                Ok(())
            },
            _ => Err(ProtocolViolation::UnexpectedEvent),
        }
    }

    /// Takes a configure event of the shell. The serial is recorded as
    /// waiting for its acknowledgment. A size that differs from the bound
    /// one, and is not left to the client by a zero, becomes the bound size.
    pub fn configure(&mut self, serial: u32, width: i32, height: i32) -> (res: Result<
        ConfigureOutcome,
        ProtocolViolation,
    >)
        requires
            old(self)@.wf(),
        ensures
            match old(self)@.configure_fault(serial, width as int, height as int) {
                Some(fault) => res == Err::<ConfigureOutcome, ProtocolViolation>(fault) && final(self)@ == old(self)@,
                None => {
                    &&& final(self)@ == old(self)@.configured(serial, width as int, height as int)
                    &&& res == Ok::<ConfigureOutcome, ProtocolViolation>(
                        if old(self)@.state == SurfaceState::Closed {
                            ConfigureOutcome::Ignored
                        } else if old(self)@.requested_change(width as int, height as int) {
                            ConfigureOutcome::Resized(Vec2 { x: width, y: height })
                        } else {
                            ConfigureOutcome::Unchanged
                        },
                    )
                },
            },
            final(self)@.wf(),
    {
        match self.state {
            SurfaceState::Closed => {
                return Ok(ConfigureOutcome::Ignored);
            },
            SurfaceState::Created => {
                return Err(ProtocolViolation::UnexpectedEvent);
            },
            _ => {},
        }
        if width < 0 || height < 0 {
            return Err(ProtocolViolation::MalformedConfigure);
        }
        if is_pending(&self.pending, serial) {
            return Err(ProtocolViolation::DuplicateSerial);
        }
        let ghost before = self.pending@;
        self.pending.push(serial);
        self.state = SurfaceState::ConfigurePending(serial);
        proof {
            assert(self.pending@ == before.push(serial));
            assert(before.push(serial).no_duplicates()) by {
                assert forall|i: int, j: int|
                    0 <= i < before.len() + 1 && 0 <= j < before.len() + 1 && i != j implies before.push(
                    serial,
                )[i] != before.push(serial)[j] by {
                    if i < before.len() {
                        assert(before.contains(before[i]));
                    }
                    if j < before.len() {
                        assert(before.contains(before[j]));
                    }
                }
            }
        }
        if width != 0 && height != 0 && (width != self.size.x || height != self.size.y) {
            self.size = Vec2::new(width, height);
            Ok(ConfigureOutcome::Resized(Vec2::new(width, height)))
        } else {
            Ok(ConfigureOutcome::Unchanged)
        }
    }

    /// Acknowledges a configuration. Serials are acknowledged in the order
    /// in which they arrived: any other serial is refused.
    pub fn ack_configure(&mut self, serial: u32) -> (res: Result<(), ProtocolViolation>)
        requires
            old(self)@.wf(),
        ensures
            res is Ok <==> old(self)@.can_ack(serial),
            res matches Err(e) ==> e == ProtocolViolation::UnknownSerial && final(self)@ == old(self)@,
            res is Ok ==> final(self)@ == old(self)@.acked(),
            final(self)@.wf(),
    {
        if self.pending.len() == 0 || self.pending[0] != serial {
            return Err(ProtocolViolation::UnknownSerial);
        }
        let ghost before = self.pending@;
        self.pending.remove(0);
        proof {
            assert(self.pending@ =~= before.drop_first());
            assert(before.drop_first().no_duplicates()) by {
                assert forall|i: int, j: int|
                    0 <= i < before.len() - 1 && 0 <= j < before.len() - 1 && i != j implies before.drop_first()[i]
                    != before.drop_first()[j] by {
                    assert(before[i + 1] != before[j + 1]);
                }
            }
            if before.len() > 1 {
                assert(before.drop_first().last() == before.last());
            }
        }
        Ok(())
    }

    /// Commits the surface's content. A commit while a configuration waits
    /// to be acknowledged breaches the protocol. The first commit after the
    /// last acknowledgment makes the window ready.
    pub fn commit(&mut self) -> (res: Result<(), ProtocolViolation>)
        requires
            old(self)@.wf(),
        ensures
            res is Err <==> old(self)@.commit_refused(),
            res matches Err(e) ==> e == ProtocolViolation::CommitBeforeAck && final(self)@ == old(self)@,
            res is Ok ==> final(self)@ == old(self)@.committed(),
            final(self)@.wf(),
    {
        match self.state {
            SurfaceState::Closed => Ok(()),
            SurfaceState::ConfigurePending(_) => {
                if self.pending.len() > 0 {
                    Err(ProtocolViolation::CommitBeforeAck)
                } else {
                    self.state = SurfaceState::Ready;
                    Ok(())
                }
            },
            _ => Ok(()),
        }
    }

    /// Takes the close event of the shell: the lifecycle ends, from
    /// whatever state it was in.
    pub fn close(&mut self)
        requires
            old(self)@.wf(),
        ensures
            final(self)@ == old(self)@.closed(),
            final(self)@.wf(),
    {
        self.state = SurfaceState::Closed;
    }
}

/// Acknowledgments follow the order of arrival: of two serials that wait,
/// the older is the one that can be acknowledged, and the younger can be
/// acknowledged right after it and not before.
pub proof fn lemma_ack_in_arrival_order(m: SurfaceModel)
    requires
        m.wf(),
        m.pending.len() >= 2,
    ensures
        m.can_ack(m.pending[0]),
        !m.can_ack(m.pending[1]),
        m.acked().can_ack(m.pending[1]),
{
    assert(m.pending[0] != m.pending[1]);
}

/// A serial cannot be acknowledged twice: once it has been acknowledged,
/// the same acknowledgment is refused.
pub proof fn lemma_second_ack_refused(m: SurfaceModel, serial: u32)
    requires
        m.wf(),
        m.can_ack(serial),
    ensures
        m.acked().wf(),
        !m.acked().pending.contains(serial),
        !m.acked().can_ack(serial),
{
    let rest = m.pending.drop_first();
    assert forall|i: int, j: int| 0 <= i < rest.len() && 0 <= j < rest.len() && i != j implies rest[i]
        != rest[j] by {
        assert(m.pending[i + 1] != m.pending[j + 1]);
    }
    assert forall|i: int| 0 <= i < rest.len() implies rest[i] != serial by {
        assert(m.pending[i + 1] != m.pending[0]);
    }
    if rest.len() > 0 {
        assert(rest.last() == m.pending.last());
    }
}

/// A serial that was never received, or does not wait any more, cannot be
/// acknowledged.
pub proof fn lemma_unknown_serial_refused(m: SurfaceModel, serial: u32)
    requires
        !m.pending.contains(serial),
    ensures
        !m.can_ack(serial),
{
    if m.pending.len() > 0 {
        assert(m.pending.contains(m.pending[0]));
    }
}

/// A configuration that was just received can be acknowledged as soon as
/// those before it have been, and a commit is refused until then.
pub proof fn lemma_configure_needs_ack(m: SurfaceModel, serial: u32, width: int, height: int)
    requires
        m.wf(),
        m.state != SurfaceState::Closed,
        m.configure_fault(serial, width, height) is None,
    ensures
        m.configured(serial, width, height).commit_refused(),
        m.pending.len() == 0 ==> m.configured(serial, width, height).can_ack(serial),
{
}

} // verus!
