//! The running state of the asynchronous packet engine, and the decisions of its
//! background receiver.
//!
//! The receiver waits until the socket is readable, takes packets off the ring
//! until there is none left, and hands each on through a channel. What it does
//! next is decided here; waiting, taking and handing on are done by its user, who
//! reports how each went.
use crate::addr::MacAddr;
use crate::engine::EngineStats;
use crate::error::{OsError, PacketError};
use crate::zero_copy::ZeroCopyPacket;
use vstd::prelude::*;

verus! {

/// Number of packets that wait in the channel.
pub const CHANNEL_SIZE: usize = 1024;

/// What the user of the background receiver has to do.
#[derive(Debug)]
pub enum ReceiverAction {
    /// Wait until the socket is readable.
    AwaitReadable,
    /// Take a packet off the ring.
    TakePacket,
    /// Hand this on through the channel.
    Deliver(Result<ZeroCopyPacket, PacketError>),
    /// Mark the socket as not readable, then go on.
    ClearReady,
    /// The receiver has ended.
    Exit,
}

/// What the user of the background receiver reports.
#[derive(Debug)]
pub enum ReceiverEvent {
    /// Nothing has happened yet, or the readiness was cleared.
    Continue,
    /// The socket is readable.
    Readable,
    /// Waiting for the socket failed.
    ReadableFailed(OsError),
    /// The ring was asked for a packet.
    Taken(Result<Option<ZeroCopyPacket>, PacketError>),
    /// What was to be delivered went into the channel.
    Delivered,
    /// The channel is closed.
    ChannelClosed,
}

/// What the receiver is in the middle of.
#[derive(Debug, Clone, Copy, PartialEq, Eq, Structural)]
pub enum ReceiverPhase {
    /// Between two waits.
    Idle,
    /// Taking packets; the flag tells whether there has been one.
    Draining(bool),
    /// Handing a packet on.
    Delivering,
    /// Handing an error on; the flag tells whether there has been a packet.
    DeliveringError(bool),
    /// Handing on the error that ends the receiver.
    Failing,
    /// Ended.
    Ended,
}

/// The background receiver.
#[derive(Debug)]
pub struct BackgroundReceiver {
    pub phase: ReceiverPhase,
}

/// What the receiver decides in `phase` on `event`. `before` and `after` are the
/// running flag and the counters.
pub open spec fn stepped(
    phase: ReceiverPhase,
    event: ReceiverEvent,
    before: (bool, EngineStats),
    r: ReceiverAction,
    next: ReceiverPhase,
    after: (bool, EngineStats),
) -> bool {
    match (phase, event) {
        (ReceiverPhase::Idle, ReceiverEvent::Continue) => {
            &&& after.0 == before.0
            &&& after.1 == before.1
            &&& if before.0 {
                r == ReceiverAction::AwaitReadable && next == ReceiverPhase::Idle
            } else {
                r == ReceiverAction::Exit && next == ReceiverPhase::Ended
            }
        },
        (ReceiverPhase::Idle, ReceiverEvent::Readable) => {
            &&& after.0 == before.0
            &&& after.1 == before.1
            &&& r == ReceiverAction::TakePacket
            &&& next == ReceiverPhase::Draining(false)
        },
        (ReceiverPhase::Idle, ReceiverEvent::ReadableFailed(e)) => {
            &&& after.0 == before.0
            &&& after.1 == before.1
            &&& r matches ReceiverAction::Deliver(
                Err(PacketError::SocketOption { option, source }),
            )
            &&& option@ == "async_fd.readable"@
            &&& source == e
            &&& next == ReceiverPhase::Failing
        },
        (ReceiverPhase::Draining(any), ReceiverEvent::Taken(taken)) => {
            &&& after.0 == before.0
            &&& match taken {
                Ok(Some(p)) => {
                    &&& r == ReceiverAction::Deliver(Ok(p))
                    &&& next == ReceiverPhase::Delivering
                    &&& after.1 == (EngineStats {
                        packets_received: (before.1.packets_received + 1) as u64,
                        bytes_received: (before.1.bytes_received
                            + p@.data.len()) as u64,
                        ..before.1
                    })
                },
                Ok(None) => {
                    &&& after.1 == before.1
                    &&& round_over(any, before.0, r, next)
                },
                Err(e) => {
                    &&& after.1 == before.1
                    &&& r == ReceiverAction::Deliver(Err(e))
                    &&& next == ReceiverPhase::DeliveringError(any)
                },
            }
        },
        (ReceiverPhase::Delivering, ReceiverEvent::Delivered) => {
            &&& after.0 == before.0
            &&& after.1 == before.1
            &&& r == ReceiverAction::TakePacket
            &&& next == ReceiverPhase::Draining(true)
        },
        (ReceiverPhase::DeliveringError(any), ReceiverEvent::Delivered) => {
            &&& after.0 == before.0
            &&& after.1 == before.1
            &&& round_over(any, before.0, r, next)
        },
        _ => {
            // The channel is closed, the error that ends the receiver has been
            // handed on, or the report does not belong to what was asked for.
            &&& !after.0
            &&& after.1 == before.1
            &&& r == ReceiverAction::Exit
            &&& next == ReceiverPhase::Ended
        },
    }
}

impl BackgroundReceiver {
    /// Creates the receiver at its beginning.
    #[must_use]
    pub fn new() -> (r: Self)
        ensures
            r.phase == ReceiverPhase::Idle,
    {
        BackgroundReceiver { phase: ReceiverPhase::Idle }
    }

    /// Decides on an event. `running` is the running flag of the engine, which the
    /// receiver clears when it ends on its own, and `stats` the engine's counters.
    pub fn step(&mut self, event: ReceiverEvent, running: &mut bool, stats: &mut EngineStats) -> (r:
        ReceiverAction)
        requires
            event matches ReceiverEvent::Taken(Ok(Some(p))) ==> old(stats).packets_received
                < u64::MAX && old(stats).bytes_received + p@.data.len() <= u64::MAX,
        ensures
            stepped(
                old(self).phase,
                event,
                (*old(running), *old(stats)),
                r,
                final(self).phase,
                (*final(running), *final(stats)),
            ),
    {
        match (self.phase, event) {
            (ReceiverPhase::Idle, ReceiverEvent::Continue) => self.wait(*running),
            (ReceiverPhase::Idle, ReceiverEvent::Readable) => {
                self.phase = ReceiverPhase::Draining(false);
                ReceiverAction::TakePacket
            },
            (ReceiverPhase::Idle, ReceiverEvent::ReadableFailed(e)) => {
                self.phase = ReceiverPhase::Failing;
                ReceiverAction::Deliver(
                    Err(
                        PacketError::SocketOption {
                            option: "async_fd.readable".to_string(),
                            source: e,
                        },
                    ),
                )
            },
            (ReceiverPhase::Draining(_), ReceiverEvent::Taken(Ok(Some(packet)))) => {
                stats.packets_received = stats.packets_received + 1;
                stats.bytes_received = stats.bytes_received + packet.len() as u64;
                self.phase = ReceiverPhase::Delivering;
                ReceiverAction::Deliver(Ok(packet))
            },
            (ReceiverPhase::Draining(any), ReceiverEvent::Taken(Ok(None))) => self.end_round(
                any,
                *running,
            ),
            (ReceiverPhase::Draining(any), ReceiverEvent::Taken(Err(e))) => {
                self.phase = ReceiverPhase::DeliveringError(any);
                ReceiverAction::Deliver(Err(e))
            },
            (ReceiverPhase::Delivering, ReceiverEvent::Delivered) => {
                self.phase = ReceiverPhase::Draining(true);
                ReceiverAction::TakePacket
            },
            (ReceiverPhase::DeliveringError(any), ReceiverEvent::Delivered) => self.end_round(
                any,
                *running,
            ),
            (_, _) => {
                *running = false;
                self.phase = ReceiverPhase::Ended;
                ReceiverAction::Exit
            },
        }
    }

    /// Goes on waiting while the engine runs.
    fn wait(&mut self, running: bool) -> (r: ReceiverAction)
        ensures
            if running {
                r == ReceiverAction::AwaitReadable && final(self).phase == ReceiverPhase::Idle
            } else {
                r == ReceiverAction::Exit && final(self).phase == ReceiverPhase::Ended
            },
    {
        if running {
            self.phase = ReceiverPhase::Idle;
            ReceiverAction::AwaitReadable
        } else {
            self.phase = ReceiverPhase::Ended;
            ReceiverAction::Exit
        }
    }

    /// Ends a round of taking packets.
    fn end_round(&mut self, received_any: bool, running: bool) -> (r: ReceiverAction)
        ensures
            round_over(received_any, running, r, final(self).phase),
    {
        if received_any {
            self.phase = ReceiverPhase::Idle;
            ReceiverAction::ClearReady
        } else {
            self.wait(running)
        }
    }
}

/// What follows a round: the readiness is cleared if there was a packet; otherwise
/// the receiver waits again, or ends if the engine has been stopped.
pub open spec fn round_over(
    received_any: bool,
    running: bool,
    action: ReceiverAction,
    next: ReceiverPhase,
) -> bool {
    if received_any {
        action == ReceiverAction::ClearReady && next == ReceiverPhase::Idle
    } else if running {
        action == ReceiverAction::AwaitReadable && next == ReceiverPhase::Idle
    } else {
        action == ReceiverAction::Exit && next == ReceiverPhase::Ended
    }
}

/// A step of the receiver, with the running flag and the counters before and after.
pub struct ReceiverStep {
    pub phase: ReceiverPhase,
    pub event: ReceiverEvent,
    pub before: (bool, EngineStats),
    pub action: ReceiverAction,
    pub next: ReceiverPhase,
    pub after: (bool, EngineStats),
}

/// The packet that was taken off the ring in a step, if one was.
pub open spec fn taken_in(s: ReceiverStep) -> Option<ZeroCopyPacket> {
    match (s.phase, s.event) {
        (ReceiverPhase::Draining(_), ReceiverEvent::Taken(Ok(Some(p)))) => Some(p),
        _ => None,
    }
}

/// The packet that is handed on after a step, if one is.
pub open spec fn handed_on_in(s: ReceiverStep) -> Option<ZeroCopyPacket> {
    match s.action {
        ReceiverAction::Deliver(Ok(p)) => Some(p),
        _ => None,
    }
}

/// The step is one of the receiver, and the counters have room for the packet.
#[verifier::opaque]
pub open spec fn is_step(s: ReceiverStep) -> bool {
    &&& stepped(s.phase, s.event, s.before, s.action, s.next, s.after)
    &&& match taken_in(s) {
        Some(p) => s.before.1.packets_received < u64::MAX && s.before.1.bytes_received
            + p@.data.len() <= u64::MAX,
        None => true,
    }
}

/// Each step goes on where the one before ended.
pub open spec fn is_trace(t: Seq<ReceiverStep>) -> bool {
    &&& forall|i: int| 0 <= i < t.len() ==> is_step(#[trigger] t[i])
    &&& forall|i: int|
        0 < i < t.len() ==> (#[trigger] t[i]).phase == t[i - 1].next && t[i].before.1 == t[i
            - 1].after.1
}

/// The packets that were taken off the ring.
pub open spec fn taken(t: Seq<ReceiverStep>) -> Seq<ZeroCopyPacket>
    decreases t.len(),
{
    if t.len() == 0 {
        Seq::empty()
    } else {
        match taken_in(t.last()) {
            Some(p) => taken(t.drop_last()).push(p),
            None => taken(t.drop_last()),
        }
    }
}

/// The packets that were handed on.
pub open spec fn handed_on(t: Seq<ReceiverStep>) -> Seq<ZeroCopyPacket>
    decreases t.len(),
{
    if t.len() == 0 {
        Seq::empty()
    } else {
        match handed_on_in(t.last()) {
            Some(p) => handed_on(t.drop_last()).push(p),
            None => handed_on(t.drop_last()),
        }
    }
}

/// The number of bytes of packets.
pub open spec fn total_bytes(packets: Seq<ZeroCopyPacket>) -> nat
    decreases packets.len(),
{
    if packets.len() == 0 {
        0
    } else {
        total_bytes(packets.drop_last()) + packets.last()@.data.len()
    }
}

/// A step hands on what it took, and counts it.
proof fn lemma_step(s: ReceiverStep)
    requires
        is_step(s),
    ensures
        handed_on_in(s) == taken_in(s),
        match taken_in(s) {
            Some(p) => s.after.1.packets_received == s.before.1.packets_received + 1
                && s.after.1.bytes_received == s.before.1.bytes_received + p@.data.len(),
            None => s.after.1 == s.before.1,
        },
{
    reveal(is_step);
}

/// Every packet that is taken off the ring is handed on, in the order in which the
/// packets came, and is counted with its bytes.
pub proof fn packets_are_handed_on(t: Seq<ReceiverStep>)
    requires
        is_trace(t),
        t.len() > 0,
    ensures
        handed_on(t) == taken(t),
        t.last().after.1.packets_received == t[0].before.1.packets_received + taken(t).len(),
        t.last().after.1.bytes_received == t[0].before.1.bytes_received + total_bytes(taken(t)),
    decreases t.len(),
{
    let last = t.last();
    let rest = t.drop_last();
    assert(is_step(t[rest.len() as int]));
    lemma_step(last);
    if rest.len() > 0 {
        assert(is_trace(rest)) by {
            assert forall|i: int| 0 <= i < rest.len() implies is_step(#[trigger] rest[i]) by {
                assert(is_step(t[i]));
            }
        }
        packets_are_handed_on(rest);
        assert(t[rest.len() as int].before.1 == t[rest.len() - 1].after.1);
    } else {
        assert(taken(rest).len() == 0 && handed_on(rest).len() == 0);
        assert(total_bytes(taken(rest)) == 0);
    }
    if let Some(p) = taken_in(last) {
        assert(taken(t).drop_last() =~= taken(rest));
    }
}

/// The engine without its socket, ring and channel.
#[derive(Debug)]
pub struct AsyncPacketEngine {
    running: bool,
    stats: EngineStats,
    if_name: String,
    if_index: u32,
    mac_addr: MacAddr,
}

impl AsyncPacketEngine {
    pub closed spec fn is_running(&self) -> bool {
        self.running
    }

    pub closed spec fn counters(&self) -> EngineStats {
        self.stats
    }

    pub closed spec fn name(&self) -> Seq<char> {
        self.if_name@
    }

    pub closed spec fn index(&self) -> u32 {
        self.if_index
    }

    pub closed spec fn mac(&self) -> MacAddr {
        self.mac_addr
    }

    /// Interface and counters are the same.
    pub open spec fn same_but_running(&self, other: &Self) -> bool {
        self.counters() == other.counters() && self.name() == other.name() && self.index()
            == other.index() && self.mac() == other.mac()
    }

    /// The engine on a ring of this interface. It is not running.
    #[must_use]
    pub fn opened(if_name: &str, if_index: u32, mac_addr: MacAddr) -> (r: Self)
        ensures
            !r.is_running(),
            r.counters() == EngineStats::zero(),
            r.name() == if_name@,
            r.index() == if_index,
            r.mac() == mac_addr,
    {
        AsyncPacketEngine {
            running: false,
            stats: EngineStats::new(),
            if_name: if_name.to_string(),
            if_index,
            mac_addr,
        }
    }

    /// What the duplication of the descriptor came to.
    pub fn dup_outcome(fd: i32, os_error: OsError) -> (r: Result<i32, PacketError>)
        ensures
            r == if fd < 0 {
                Err::<i32, PacketError>(PacketError::FdDupFailed(os_error))
            } else {
                Ok(fd)
            },
    {
        if fd < 0 {
            return Err(PacketError::FdDupFailed(os_error));
        }
        Ok(fd)
    }

    /// Whether the engine may be started: only while it does not run.
    pub fn check_start(&self) -> (r: Result<(), PacketError>)
        ensures
            r == if self.is_running() {
                Err::<(), PacketError>(PacketError::AlreadyStarted)
            } else {
                Ok(())
            },
    {
        if self.running {
            return Err(PacketError::AlreadyStarted);
        }
        Ok(())
    }

    /// Starts the engine, given what starting the ring came to. The flag tells
    /// whether the background receiver is to be run.
    pub fn start(&mut self, inner: Result<(), PacketError>) -> (r: Result<bool, PacketError>)
        ensures
            final(self).same_but_running(old(self)),
            start_result(old(self).is_running(), inner, true, r),
            final(self).is_running() == (old(self).is_running() || inner is Ok),
    {
        self.start_engine(inner, true)
    }

    /// Starts the engine for direct reads from the ring: a background receiver would
    /// compete for the same packets.
    pub fn start_no_background(&mut self, inner: Result<(), PacketError>) -> (r: Result<
        bool,
        PacketError,
    >)
        ensures
            final(self).same_but_running(old(self)),
            start_result(old(self).is_running(), inner, false, r),
            final(self).is_running() == (old(self).is_running() || inner is Ok),
    {
        self.start_engine(inner, false)
    }

    fn start_engine(&mut self, inner: Result<(), PacketError>, background: bool) -> (r: Result<
        bool,
        PacketError,
    >)
        ensures
            final(self).same_but_running(old(self)),
            start_result(old(self).is_running(), inner, background, r),
            final(self).is_running() == (old(self).is_running() || inner is Ok),
    {
        if self.running {
            return Err(PacketError::AlreadyStarted);
        }
        match inner {
            Err(e) => Err(e),
            Ok(_) => {
                self.running = true;
                Ok(background)
            },
        }
    }

    /// Whether the engine may be used: only while it runs.
    pub fn check_running(&self) -> (r: Result<(), PacketError>)
        ensures
            r == if self.is_running() {
                Ok::<(), PacketError>(())
            } else {
                Err(PacketError::NotStarted)
            },
    {
        if !self.running {
            return Err(PacketError::NotStarted);
        }
        Ok(())
    }

    /// What came through the channel: nothing once it is closed. `ready` is what
    /// `check_running` said before the wait; that the engine has stopped since does not
    /// matter, so what the background receiver handed on last is not lost.
    pub fn recv(
        ready: Result<(), PacketError>,
        received: Option<Result<ZeroCopyPacket, PacketError>>,
    ) -> (r: Result<Option<ZeroCopyPacket>, PacketError>)
        ensures
            r == match ready {
                Err(e) => Err::<Option<ZeroCopyPacket>, PacketError>(e),
                Ok(_) => match received {
                    Some(Ok(p)) => Ok(Some(p)),
                    Some(Err(e)) => Err(e),
                    None => Ok(None),
                },
            },
    {
        if let Err(e) = ready {
            return Err(e);
        }
        match received {
            Some(Ok(p)) => Ok(Some(p)),
            Some(Err(e)) => Err(e),
            None => Ok(None),
        }
    }

    /// What came through the channel in time; the outer `None` stands for a timeout.
    /// `ready` is what `check_running` said before the wait.
    pub fn recv_timeout(
        ready: Result<(), PacketError>,
        received: Option<Option<Result<ZeroCopyPacket, PacketError>>>,
    ) -> (r: Result<Option<ZeroCopyPacket>, PacketError>)
        ensures
            r == match ready {
                Err(e) => Err::<Option<ZeroCopyPacket>, PacketError>(e),
                Ok(_) => match received {
                    Some(Some(Ok(p))) => Ok(Some(p)),
                    Some(Some(Err(e))) => Err(e),
                    Some(None) => Ok(None),
                    None => Ok(None),
                },
            },
    {
        match received {
            Some(inner) => Self::recv(ready, inner),
            None => Self::recv(ready, None),
        }
    }

    /// Stops the engine; the ring is to be stopped after that.
    pub fn stop(&mut self) -> (r: Result<(), PacketError>)
        ensures
            final(self).same_but_running(old(self)),
            !final(self).is_running(),
            r == if old(self).is_running() {
                Ok::<(), PacketError>(())
            } else {
                Err(PacketError::NotStarted)
            },
    {
        if !self.running {
            return Err(PacketError::NotStarted);
        }
        self.running = false;
        Ok(())
    }

    /// Lets the background receiver decide on an event, with the running state and
    /// the counters of this engine.
    pub fn background_step(
        &mut self,
        receiver: &mut BackgroundReceiver,
        event: ReceiverEvent,
    ) -> (r: ReceiverAction)
        requires
            event matches ReceiverEvent::Taken(Ok(Some(p))) ==> old(self).counters().packets_received
                < u64::MAX && old(self).counters().bytes_received + p@.data.len() <= u64::MAX,
        ensures
            final(self).name() == old(self).name(),
            final(self).index() == old(self).index(),
            final(self).mac() == old(self).mac(),
            stepped(
                old(receiver).phase,
                event,
                (old(self).is_running(), old(self).counters()),
                r,
                final(receiver).phase,
                (final(self).is_running(), final(self).counters()),
            ),
    {
        let mut running = self.running;
        let mut stats = self.stats;
        let action = receiver.step(event, &mut running, &mut stats);
        self.running = running;
        self.stats = stats;
        action
    }

    /// The counters of the engine itself.
    #[must_use]
    pub fn own_stats(&self) -> (r: EngineStats)
        ensures
            r == self.counters(),
    {
        self.stats
    }

    /// The counters: those of the engine if they can be read at once, else those of
    /// the ring.
    #[must_use]
    pub fn stats(own: Option<EngineStats>, inner: EngineStats) -> (r: EngineStats)
        ensures
            r == match own {
                Some(s) => s,
                None => inner,
            },
    {
        match own {
            Some(s) => s,
            None => inner,
        }
    }

    /// The interface.
    #[must_use]
    pub fn interface_name(&self) -> (r: &str)
        ensures
            r@ == self.name(),
    {
        self.if_name.as_str()
    }

    /// The index of the interface.
    #[must_use]
    pub fn interface_index(&self) -> (r: u32)
        ensures
            r == self.index(),
    {
        self.if_index
    }

    /// The hardware address of the interface.
    #[must_use]
    pub fn mac_address(&self) -> (r: MacAddr)
        ensures
            r == self.mac(),
    {
        self.mac_addr
    }
}

/// What a start comes to: it is refused while the engine runs, and fails as the
/// ring does.
pub open spec fn start_result(
    running: bool,
    inner: Result<(), PacketError>,
    background: bool,
    r: Result<bool, PacketError>,
) -> bool {
    r == if running {
        Err::<bool, PacketError>(PacketError::AlreadyStarted)
    } else {
        match inner {
            Err(e) => Err(e),
            Ok(_) => Ok(background),
        }
    }
}

/// The receiver goes on as long as the engine runs and its socket can be read: it waits for
/// the socket, takes packets until none is left, and then waits again. It hands on every
/// error, and ends when the engine has been stopped, when no one listens any more or when
/// the socket fails.
pub proof fn the_receiver_goes_on_while_it_can(
    phase: ReceiverPhase,
    event: ReceiverEvent,
    before: (bool, EngineStats),
    r: ReceiverAction,
    next: ReceiverPhase,
    after: (bool, EngineStats),
)
    requires
        stepped(phase, event, before, r, next, after),
    ensures
        phase is Idle && event is Continue && before.0 ==> r is AwaitReadable && next is Idle,
        phase is Idle && event is Continue && !before.0 ==> r is Exit && next is Ended,
        phase is Idle && event is Readable ==> r is TakePacket,
        phase is Delivering && event is Delivered ==> r is TakePacket,
        (phase is Draining && event matches ReceiverEvent::Taken(Ok(Some(p)))) ==> r
            == ReceiverAction::Deliver(Ok(event->Taken_0->Ok_0.unwrap())),
        (phase is Draining && event matches ReceiverEvent::Taken(Err(e))) ==> r
            == ReceiverAction::Deliver(Err(event->Taken_0->Err_0)),
        phase == ReceiverPhase::Draining(false) && (event matches ReceiverEvent::Taken(Ok(None)))
            && before.0 ==> r is AwaitReadable,
        phase == ReceiverPhase::Draining(true) && (event matches ReceiverEvent::Taken(Ok(None)))
            ==> r is ClearReady && next is Idle,
        (phase is Delivering || phase is DeliveringError) && event is ChannelClosed ==> r is Exit
            && !after.0,
        phase is Failing ==> r is Exit && !after.0,
        phase is Idle && event is ReadableFailed ==> r is Deliver && next is Failing,
        !before.0 ==> !after.0,
{
}

/// A running engine is not started again, what the socket refuses is reported, and
/// otherwise the engine is started.
pub proof fn engines_are_started_once(
    running: bool,
    inner: Result<(), PacketError>,
    background: bool,
    r: Result<bool, PacketError>,
)
    requires
        start_result(running, inner, background, r),
    ensures
        r is Ok <==> !running && inner is Ok,
        running ==> (r matches Err(PacketError::AlreadyStarted)),
        !running && inner is Err ==> r->Err_0 == inner->Err_0,
        r matches Ok(b) ==> b == background,
{
}

} // verus!
