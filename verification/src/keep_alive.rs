//! The liveness signaler's decisions. While an operation is in progress a background loop
//! sends a signal every period; the handle stops it. The loop and the handle ask this state
//! machine what to do, and whoever drives them does it: waits, sends, joins, aborts.
use vstd::prelude::*;

verus! {

/// Where a signaler is in its life. The order is fixed: running, stopping, stopped.
#[derive(Clone, Copy, Debug, PartialEq, Eq, Structural)]
pub enum Phase {
    /// The loop sends a signal every period.
    Running,
    /// A stop was asked for; the loop has not yet been seen to exit.
    Stopping,
    /// The loop is over.
    Stopped,
}

/// What happens to a signaler.
#[derive(Clone, Copy, Debug, PartialEq, Eq, Structural)]
pub enum Event {
    /// A period has passed.
    Tick,
    /// The signal that was being sent has been sent, or has failed.
    SignalDone,
    /// The handle's owner asks for a graceful stop.
    Shutdown,
    /// The loop has exited.
    Exited,
    /// The handle goes away.
    Discarded,
}

/// What is to be done about it.
#[derive(Clone, Copy, Debug, PartialEq, Eq, Structural)]
pub enum Action {
    /// Nothing.
    Idle,
    /// Send one signal, and report when it is done.
    Signal,
    /// Tell the loop to stop and wait until it has exited.
    StopAndJoin,
    /// Tell the loop to stop and cut it off, without waiting.
    StopAndAbort,
}

/// A signaler's state.
pub struct SignalerModel {
    pub phase: Phase,
    /// A signal is being sent.
    pub in_flight: bool,
}

impl SignalerModel {
    /// The state of a signaler that was just started.
    pub open spec fn fresh() -> SignalerModel {
        SignalerModel { phase: Phase::Running, in_flight: false }
    }

    /// The phase's place in the order.
    pub open spec fn rank(self) -> nat {
        match self.phase {
            Phase::Running => 0,
            Phase::Stopping => 1,
            Phase::Stopped => 2,
        }
    }

    /// What is to be done when `event` happens.
    pub open spec fn action(self, event: Event) -> Action {
        match event {
            Event::Tick => if self.phase == Phase::Running && !self.in_flight {
                Action::Signal
            } else {
                Action::Idle
            },
            Event::Shutdown => if self.phase == Phase::Running {
                Action::StopAndJoin
            } else {
                Action::Idle
            },
            Event::Discarded => if self.phase == Phase::Running {
                Action::StopAndAbort
            } else {
                Action::Idle
            },
            Event::SignalDone => Action::Idle,
            Event::Exited => Action::Idle,
        }
    }

    /// The state after `event`.
    pub open spec fn next(self, event: Event) -> SignalerModel {
        match event {
            Event::Tick => if self.phase == Phase::Running {
                SignalerModel { in_flight: true, ..self }
            } else {
                self
            },
            Event::SignalDone => SignalerModel { in_flight: false, ..self },
            Event::Shutdown => if self.phase == Phase::Running {
                SignalerModel { phase: Phase::Stopping, ..self }
            } else {
                self
            },
            Event::Exited => SignalerModel { phase: Phase::Stopped, in_flight: false },
            Event::Discarded => if self.phase == Phase::Running {
                SignalerModel { phase: Phase::Stopped, in_flight: false }
            } else {
                self
            },
        }
    }

    /// The loop is to exit: a stop was asked for and no signal is being sent.
    pub open spec fn loop_is_over(self) -> bool {
        self.phase != Phase::Running && !self.in_flight
    }

    /// The state after the first `n` of `events`.
    pub open spec fn after(self, events: Seq<Event>, n: int) -> SignalerModel
        decreases n,
    {
        if n <= 0 || n > events.len() {
            self
        } else {
            self.after(events, n - 1).next(events[n - 1])
        }
    }

    /// How many signals are started during the first `n` of `events`.
    pub open spec fn started(self, events: Seq<Event>, n: int) -> nat
        decreases n,
    {
        if n <= 0 || n > events.len() {
            0
        } else {
            self.started(events, n - 1) + (if self.after(events, n - 1).action(events[n - 1])
                == Action::Signal {
                1nat
            } else {
                0nat
            })
        }
    }

    /// How many signals that were being sent are done during the first `n` of `events`.
    pub open spec fn completed(self, events: Seq<Event>, n: int) -> nat
        decreases n,
    {
        if n <= 0 || n > events.len() {
            0
        } else {
            self.completed(events, n - 1) + (if events[n - 1] == Event::SignalDone && self.after(
                events,
                n - 1,
            ).in_flight {
                1nat
            } else {
                0nat
            })
        }
    }
}

/// The phases come in order and none comes back: whatever happens, the phase stays or moves
/// on.
pub proof fn phases_move_forward(s: SignalerModel, event: Event)
    ensures
        s.rank() <= s.next(event).rank(),
{
}

/// A stopped signaler stays stopped and does nothing more.
pub proof fn stopped_is_final(s: SignalerModel, event: Event)
    requires
        s.phase == Phase::Stopped,
        !s.in_flight,
    ensures
        s.next(event) == s,
        s.action(event) == Action::Idle,
{
}

/// Asking for a stop twice is asking once: the second request does nothing.
pub proof fn shutdown_is_idempotent(s: SignalerModel)
    ensures
        s.next(Event::Shutdown).action(Event::Shutdown) == Action::Idle,
        s.next(Event::Shutdown).next(Event::Shutdown) == s.next(Event::Shutdown),
{
}

/// Once a stop was asked for, the signaler is never running again.
pub proof fn stays_out_of_running(s: SignalerModel, events: Seq<Event>, n: int)
    requires
        s.phase != Phase::Running,
        0 <= n <= events.len(),
    ensures
        s.after(events, n).phase != Phase::Running,
    decreases n,
{
    if n > 0 {
        stays_out_of_running(s, events, n - 1);
    }
}

/// Signaler ordering: once a stop was asked for, whatever happens afterwards, no signal is
/// started, and at most the one that was being sent at that moment is done.
pub proof fn no_signal_after_stop(s: SignalerModel, events: Seq<Event>, n: int)
    requires
        s.phase != Phase::Running,
        0 <= n <= events.len(),
    ensures
        s.started(events, n) == 0,
        s.completed(events, n) <= 1,
        s.in_flight || s.completed(events, n) == 0,
        s.completed(events, n) == 0 || !s.after(events, n).in_flight,
    decreases n,
{
    if n > 0 {
        no_signal_after_stop(s, events, n - 1);
        stays_out_of_running(s, events, n - 1);
        in_flight_only_falls(s, events, n - 1);
    }
}

/// Once a stop was asked for, a signal that is not being sent never is.
proof fn in_flight_only_falls(s: SignalerModel, events: Seq<Event>, n: int)
    requires
        s.phase != Phase::Running,
        0 <= n <= events.len(),
    ensures
        s.after(events, n).in_flight ==> s.in_flight,
    decreases n,
{
    if n > 0 {
        in_flight_only_falls(s, events, n - 1);
        stays_out_of_running(s, events, n - 1);
    }
}

/// One signaler, as its handle and its loop share it.
pub struct ChatActionKeepAlive {
    phase: Phase,
    in_flight: bool,
    interval_secs: u64,
}

impl View for ChatActionKeepAlive {
    type V = SignalerModel;

    closed spec fn view(&self) -> SignalerModel {
        SignalerModel { phase: self.phase, in_flight: self.in_flight }
    }
}

impl ChatActionKeepAlive {
    /// The period, in seconds.
    pub closed spec fn period(&self) -> u64 {
        self.interval_secs
    }

    /// A running signaler with a period of `interval_secs` seconds.
    pub fn spawn(interval_secs: u64) -> (signaler: ChatActionKeepAlive)
        requires
            interval_secs > 0,
        ensures
            signaler@ == SignalerModel::fresh(),
            signaler.period() == interval_secs,
    {
        ChatActionKeepAlive { phase: Phase::Running, in_flight: false, interval_secs }
    }

    /// The period, in seconds.
    pub fn interval_secs(&self) -> (secs: u64)
        ensures
            secs == self.period(),
    {
        self.interval_secs
    }

    /// The phase.
    pub fn phase(&self) -> (phase: Phase)
        ensures
            phase == self@.phase,
    {
        self.phase
    }

    /// Whether the loop is to exit now.
    pub fn loop_is_over(&self) -> (over: bool)
        ensures
            over == self@.loop_is_over(),
    {
        !matches!(self.phase, Phase::Running) && !self.in_flight
    }

    /// Takes `event` in and says what is to be done.
    pub fn step(&mut self, event: Event) -> (action: Action)
        ensures
            action == old(self)@.action(event),
            final(self)@ == old(self)@.next(event),
            final(self).period() == old(self).period(),
    {
        let running = matches!(self.phase, Phase::Running);
        match event {
            Event::Tick => {
                if running {
                    let action = if self.in_flight {
                        Action::Idle
                    } else {
                        Action::Signal
                    };
                    self.in_flight = true;
                    action
                } else {
                    Action::Idle
                }
            },
            Event::SignalDone => {
                self.in_flight = false;
                Action::Idle
            },
            Event::Shutdown => {
                if running {
                    self.phase = Phase::Stopping;
                    Action::StopAndJoin
                } else {
                    Action::Idle
                }
            },
            Event::Exited => {
                self.phase = Phase::Stopped;
                self.in_flight = false;
                Action::Idle
            },
            Event::Discarded => {
                if running {
                    self.phase = Phase::Stopped;
                    self.in_flight = false;
                    Action::StopAndAbort
                } else {
                    Action::Idle
                }
            },
        }
    }

    /// Asks for a graceful stop. The first request says to stop the loop and to wait for it;
    /// every later one says to do nothing.
    pub fn shutdown(&mut self) -> (action: Action)
        ensures
            action == old(self)@.action(Event::Shutdown),
            final(self)@ == old(self)@.next(Event::Shutdown),
            final(self).period() == old(self).period(),
            final(self)@.phase != Phase::Running,
    {
        self.step(Event::Shutdown)
    }
}

} // verus!
