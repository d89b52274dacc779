//! The scan scheduler: the radio-receive and timer-expiry handlers, as
//! decisions on the schedule that both of them update under one lock.
//!
//! The lock over radio, timer and scanner makes each handler one step on
//! `ScanState`; any interleaving of handler invocations is a sequence of
//! such steps.

use vstd::prelude::*;

verus! {

/// When the scanner wants to be woken next (mirrors rubble's `NextUpdate`,
/// with an instant as its tick count).
#[derive(Clone, Copy)]
pub enum NextUpdate {
    Disable,
    Keep,
    At(u32),
}

/// A command of the scanner: the advertising channel to listen on (`None`:
/// radio off) and the next wake-up.
#[derive(Clone, Copy)]
pub struct ScanCommand {
    pub listen: Option<u8>,
    pub next_update: NextUpdate,
}

/// What the scanner has asked for, and what the timer and radio are set to.
#[derive(Clone, Copy)]
pub struct ScanState {
    pub scanner_wake: Option<u32>,
    pub scanner_listen: Option<u8>,
    pub timer_wake: Option<u32>,
    pub radio_listen: Option<u8>,
}

/// An interrupt as the handlers see it: a receive that returns the scanner's
/// new wake-up time, if any; or a timer expiry with the scanner's command, or
/// `None` when the timer's pending flag was not set.
#[derive(Clone, Copy)]
pub enum ScanEvent {
    Received(Option<u32>),
    TimerFired(Option<ScanCommand>),
}

/// The timer and the radio are set as the scanner last asked.
pub open spec fn consistent(s: ScanState) -> bool {
    s.timer_wake == s.scanner_wake && s.radio_listen == s.scanner_listen
}

pub open spec fn wake_after(current: Option<u32>, n: NextUpdate) -> Option<u32> {
    match n {
        NextUpdate::Disable => None,
        NextUpdate::Keep => current,
        NextUpdate::At(t) => Some(t),
    }
}

/// The state after one handler has run to completion.
pub open spec fn handle(s: ScanState, e: ScanEvent) -> ScanState {
    match e {
        ScanEvent::Received(None) => s,
        ScanEvent::Received(Some(t)) => ScanState { scanner_wake: Some(t), timer_wake: Some(t), ..s },
        ScanEvent::TimerFired(None) => s,
        ScanEvent::TimerFired(Some(c)) => ScanState {
            scanner_wake: wake_after(s.scanner_wake, c.next_update),
            scanner_listen: c.listen,
            timer_wake: wake_after(s.timer_wake, c.next_update),
            radio_listen: c.listen,
        },
    }
}

/// The state after the handlers have run for `events`, one after another.
pub open spec fn handle_all(s: ScanState, events: Seq<ScanEvent>) -> ScanState
    decreases events.len(),
{
    if events.len() == 0 {
        s
    } else {
        handle(handle_all(s, events.drop_last()), events.last())
    }
}

impl ScanState {
    /// The state after start-up has applied the scanner's first command.
    pub fn configured(command: ScanCommand) -> (r: ScanState)
        ensures
            consistent(r),
            r.radio_listen == command.listen,
            r.timer_wake == wake_after(None, command.next_update),
    {
        let wake = match command.next_update {
            NextUpdate::At(t) => Some(t),
            _ => None,
        };
        ScanState {
            scanner_wake: wake,
            scanner_listen: command.listen,
            timer_wake: wake,
            radio_listen: command.listen,
        }
    }
}

/// The radio-receive handler. `next_update` is what the radio driver's
/// receive path returned; the result is the time to arm the timer for, if
/// it is to be re-armed.
pub fn radio(state: &mut ScanState, next_update: Option<u32>) -> (r: Option<u32>)
    ensures
        *final(state) == handle(*old(state), ScanEvent::Received(next_update)),
        r == next_update,
{
    if let Some(t) = next_update {
        state.scanner_wake = Some(t);
        state.timer_wake = Some(t);
    }
    next_update
}

/// The timer-expiry handler. `command` is the scanner's command, or `None`
/// when the timer's pending flag was not set (a spurious interrupt). The
/// result is the command to apply to radio and timer, if any.
pub fn timer0(state: &mut ScanState, command: Option<ScanCommand>) -> (r: Option<ScanCommand>)
    ensures
        *final(state) == handle(*old(state), ScanEvent::TimerFired(command)),
        r == command,
{
    let c = match command {
        None => {
            return None;
        },
        Some(c) => c,
    };
    match c.next_update {
        NextUpdate::Disable => {
            state.scanner_wake = None;
            state.timer_wake = None;
        },
        NextUpdate::Keep => {},
        NextUpdate::At(t) => {
            state.scanner_wake = Some(t);
            state.timer_wake = Some(t);
        },
    }
    state.scanner_listen = c.listen;
    state.radio_listen = c.listen;
    Some(c)
}

/// Whatever the order in which radio-receive and timer-expiry handlers run,
/// each under the lock, the timer and radio never disagree with the
/// scanner's schedule.
pub proof fn lemma_handlers_keep_consistent(s: ScanState, events: Seq<ScanEvent>)
    requires
        consistent(s),
    ensures
        consistent(handle_all(s, events)),
    decreases events.len(),
{
    if events.len() > 0 {
        lemma_handlers_keep_consistent(s, events.drop_last());
    }
}

} // verus!
