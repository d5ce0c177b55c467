//! The control-plane rules shared by the engine and the consumer.
//!
//! Both threads poll the control bus for messages and react to them; neither
//! ever reads the other's state. This module holds the verified decision
//! rules: how a channel-switch message is read, how the engine reacts to a
//! command between steps, how consecutive failures drive the network alert,
//! and what the consumer does with what one iteration handed it.

use vstd::prelude::*;

verus! {

/// The bytes of the command `channel=<digit>`.
pub open spec fn channel_msg(digit: u8) -> Seq<u8> {
    seq![99u8, 104u8, 97u8, 110u8, 110u8, 101u8, 108u8, 61u8, digit]
}

/// The channel index a control-bus message selects: exactly the ASCII form
/// `channel=<n>` with `n` one of the digits `0` through `4`; index zero
/// means stop. Anything else selects nothing.
pub open spec fn channel_command(msg: Option<Seq<u8>>) -> Option<usize> {
    match msg {
        Option::Some(s) => if s == channel_msg(48) {
            Option::Some(0usize)
        } else if s == channel_msg(49) {
            Option::Some(1usize)
        } else if s == channel_msg(50) {
            Option::Some(2usize)
        } else if s == channel_msg(51) {
            Option::Some(3usize)
        } else if s == channel_msg(52) {
            Option::Some(4usize)
        } else {
            Option::None
        },
        Option::None => Option::None,
    }
}

/// Read a channel-switch message from the control bus, if one arrived.
pub fn expect_channel(msg: Option<&[u8]>) -> (r: Option<usize>)
    ensures
        r == channel_command(
            match msg {
                Option::Some(s) => Option::Some(s@),
                Option::None => Option::None,
            },
        ),
{
    let s = match msg {
        Option::Some(s) => s,
        Option::None => {
            return None;
        },
    };

    if s.len() != 9 {
        return None;
    }

    if s[0] != 99 || s[1] != 104 || s[2] != 97 || s[3] != 110 || s[4] != 110 || s[5] != 101
        || s[6] != 108 || s[7] != 61 {
        return None;
    }

    let d = s[8];

    if 48 <= d && d <= 52 {
        proof {
            assert(s@ =~= channel_msg(d));
        }
        Some((d - 48) as usize)
    } else {
        None
    }
}

/// How the engine reacts to a channel command between steps.
#[derive(Clone, Copy, Debug, PartialEq, Eq, Structural)]
pub enum SwitchAction {
    /// No command arrived: keep playing the current channel.
    Stay,
    /// Index zero: end the session and tell the consumer to stop.
    StopSession,
    /// Another channel: publish the restart to the consumer first — so the
    /// stale segments are flushed before any of the new channel's segments
    /// can arrive — then rebuild the session for this index.
    Switch(usize),
}

/// Decide the engine's reaction to a polled channel command.
pub fn switch_action(cmd: Option<usize>) -> (r: SwitchAction)
    ensures
        (match cmd {
            Option::None => r == SwitchAction::Stay,
            Option::Some(n) => if n == 0 {
                r == SwitchAction::StopSession
            } else {
                r == SwitchAction::Switch(n)
            },
        }),
{
    match cmd {
        None => SwitchAction::Stay,
        Some(0) => SwitchAction::StopSession,
        Some(n) => SwitchAction::Switch(n),
    }
}

/// Failures beyond this many in a row raise the network alert.
pub const MAX_ERRS: u64 = 4;

/// The consecutive-failure counter behind the retry/backoff policy. Errors
/// are never fatal: the caller logs them, sleeps a fixed backoff interval
/// and retries; this counter only decides when the outside world is told.
pub struct ErrorCounter {
    /// How many failures arrived since the last success.
    pub errs: u64,
}

/// A failure bumps the counter; it sticks at its ceiling rather than wrap,
/// which no run short enough to matter ever reaches.
pub open spec fn failure_bump(e: u64) -> u64 {
    if e < u64::MAX {
        (e + 1) as u64
    } else {
        e
    }
}

impl ErrorCounter {
    /// A fresh counter: no failures seen.
    pub fn new() -> (c: ErrorCounter)
        ensures
            c.errs == 0,
    {
        ErrorCounter { errs: 0 }
    }

    /// A successful step ends the failure run: the counter resets, so the
    /// alert can only fire again after a full fresh run of failures. This is
    /// one success step of [`errs_after`], and it never alerts.
    pub fn record_success(&mut self)
        ensures
            final(self).errs == 0,
            final(self).errs == errs_after(old(self).errs, seq![false]),
            alerts_in(old(self).errs, seq![false]) == 0,
    {
        proof {
            lemma_single_step(self.errs, false);
        }
        self.errs = 0;
    }

    /// A failed step bumps the counter. The result says whether to publish
    /// the network alert: exactly when the run now exceeds [`MAX_ERRS`].
    /// This is one failure step of [`errs_after`], and it alerts exactly
    /// where [`alerts_in`] counts one.
    pub fn record_failure(&mut self) -> (alert: bool)
        ensures
            final(self).errs == failure_bump(old(self).errs),
            alert == (final(self).errs > MAX_ERRS),
            final(self).errs == errs_after(old(self).errs, seq![true]),
            alerts_in(old(self).errs, seq![true]) == (if alert {
                1nat
            } else {
                0nat
            }),
    {
        proof {
            lemma_single_step(self.errs, true);
        }
        if self.errs < u64::MAX {
            self.errs = self.errs + 1;
        }
        self.errs > MAX_ERRS
    }
}

/// The counter after a run of step outcomes (`true` is a failure), from a
/// starting value: failures bump it, a success resets it.
pub open spec fn errs_after(start: u64, outcomes: Seq<bool>) -> u64
    decreases outcomes.len(),
{
    if outcomes.len() == 0 {
        start
    } else {
        let prev = errs_after(start, outcomes.drop_last());
        if outcomes.last() {
            failure_bump(prev)
        } else {
            0
        }
    }
}

/// How many network alerts a run of step outcomes publishes.
pub open spec fn alerts_in(start: u64, outcomes: Seq<bool>) -> nat
    decreases outcomes.len(),
{
    if outcomes.len() == 0 {
        0
    } else {
        alerts_in(start, outcomes.drop_last()) + (if outcomes.last() && failure_bump(
            errs_after(start, outcomes.drop_last()),
        ) > MAX_ERRS {
            1nat
        } else {
            0nat
        })
    }
}

proof fn lemma_single_step(start: u64, failed: bool)
    ensures
        errs_after(start, seq![failed]) == (if failed {
            failure_bump(start)
        } else {
            0u64
        }),
        alerts_in(start, seq![failed]) == (if failed && failure_bump(start) > MAX_ERRS {
            1nat
        } else {
            0nat
        }),
{
    assert(seq![failed].drop_last() =~= Seq::<bool>::empty());
    assert(seq![failed].last() == failed);
    assert(errs_after(start, Seq::<bool>::empty()) == start);
    assert(alerts_in(start, Seq::<bool>::empty()) == 0);
}

/// A run of `k` failures in a row.
pub open spec fn all_failures(k: nat) -> Seq<bool> {
    Seq::new(k, |i: int| true)
}

proof fn lemma_failure_run(k: nat)
    requires
        k <= u64::MAX,
    ensures
        errs_after(0, all_failures(k)) == k,
        alerts_in(0, all_failures(k)) == if k <= MAX_ERRS {
            0nat
        } else {
            (k - MAX_ERRS) as nat
        },
    decreases k,
{
    if k > 0 {
        assert(all_failures(k).drop_last() =~= all_failures((k - 1) as nat));
        lemma_failure_run((k - 1) as nat);
    }
}

/// The alert law: from a reset counter, a run of exactly `MAX_ERRS + 1`
/// consecutive failures publishes the network alert exactly once.
pub proof fn lemma_alert_once()
    ensures
        alerts_in(0, all_failures((MAX_ERRS + 1) as nat)) == 1,
{
    lemma_failure_run((MAX_ERRS + 1) as nat);
}

/// The reset law: whatever the counter held, a success resets it, so
/// `MAX_ERRS` further failures publish no alert.
pub proof fn lemma_reset_prevents_alert(start: u64)
    ensures
        alerts_in(start, seq![false] + all_failures(MAX_ERRS as nat)) == 0,
{
    lemma_after_success(start, MAX_ERRS as nat);
    lemma_failure_run(MAX_ERRS as nat);
}

proof fn lemma_after_success(start: u64, k: nat)
    requires
        k <= u64::MAX,
    ensures
        errs_after(start, seq![false] + all_failures(k)) == errs_after(0, all_failures(k)),
        alerts_in(start, seq![false] + all_failures(k)) == alerts_in(0, all_failures(k)),
    decreases k,
{
    if k == 0 {
        assert(seq![false] + all_failures(0) =~= seq![false]);
        assert(all_failures(0) =~= Seq::<bool>::empty());
        assert(seq![false].drop_last() =~= Seq::<bool>::empty());
        assert(seq![false].last() == false);
        assert(alerts_in(start, Seq::<bool>::empty()) == 0);
        assert(errs_after(start, Seq::<bool>::empty()) == start);
        assert(alerts_in(start, seq![false]) == 0);
        assert(errs_after(start, seq![false]) == 0);
        assert(alerts_in(0, Seq::<bool>::empty()) == 0);
        assert(errs_after(0, Seq::<bool>::empty()) == 0);
    } else {
        let s_k = seq![false] + all_failures(k);
        let s_k1 = seq![false] + all_failures((k - 1) as nat);
        let f_k = all_failures(k);
        let f_k1 = all_failures((k - 1) as nat);
        assert(s_k.drop_last() =~= s_k1);
        assert(f_k.drop_last() =~= f_k1);
        lemma_after_success(start, (k - 1) as nat);
        assert(s_k.len() == k + 1);
        assert(s_k.last() == true);
        assert(f_k.last() == true);
        assert(errs_after(start, s_k) == failure_bump(errs_after(start, s_k1)));
        assert(errs_after(0, f_k) == failure_bump(errs_after(0, f_k1)));
        assert(alerts_in(start, s_k) == alerts_in(start, s_k1) + (if failure_bump(
            errs_after(start, s_k1),
        ) > MAX_ERRS {
            1nat
        } else {
            0nat
        }));
        assert(alerts_in(0, f_k) == alerts_in(0, f_k1) + (if failure_bump(errs_after(0, f_k1))
            > MAX_ERRS {
            1nat
        } else {
            0nat
        }));
    }
}

/// What the consumer found on the data queue in one iteration.
pub enum QueueEvent {
    /// The oldest queued segment, handed over for playback.
    Segment(Vec<u8>),
    /// Nothing queued right now.
    Idle,
    /// The producer side is gone: the queue will never fill again.
    Closed,
}

/// What the consumer heard on the control bus in one iteration.
#[derive(Clone, Copy, Debug, PartialEq, Eq, Structural)]
pub enum BusEvent {
    /// Discard the queued segments and start a fresh sink cycle.
    Restart,
    /// Terminate the consumer.
    Stop,
    /// No message within the polling timeout.
    Quiet,
}

/// What the consumer must do after one iteration.
#[derive(Clone, Copy, Debug, PartialEq, Eq, Structural)]
pub enum ConsumerDirective {
    /// Keep draining the queue into the current sink.
    Carry,
    /// Flush every queued segment, discard the current sink and start a
    /// fresh one: no stale-channel audio may play.
    FlushAndRestart,
    /// Stop the sink and terminate.
    Shutdown,
}

/// One iteration of the consumer loop, as a decision from what the queue and
/// the bus handed it: the bytes to feed the sink now, if any, and what to do
/// next. A closed queue shuts the consumer down at once; otherwise a restart
/// command preempts playback by flushing, and a stop command terminates.
pub fn consumer_iteration(qe: QueueEvent, be: BusEvent) -> (r: (Option<Vec<u8>>, ConsumerDirective))
    ensures
        (match qe {
            QueueEvent::Closed => r.0 is None && r.1 == ConsumerDirective::Shutdown,
            QueueEvent::Segment(b) => (match r.0 {
                Option::Some(f) => f == b,
                Option::None => false,
            }) && r.1 == directive_for(be),
            QueueEvent::Idle => r.0 is None && r.1 == directive_for(be),
        }),
{
    match qe {
        QueueEvent::Closed => (None, ConsumerDirective::Shutdown),
        QueueEvent::Segment(b) => (Some(b), directive_of(be)),
        QueueEvent::Idle => (None, directive_of(be)),
    }
}

/// The directive a bus event alone dictates.
pub open spec fn directive_for(be: BusEvent) -> ConsumerDirective {
    match be {
        BusEvent::Restart => ConsumerDirective::FlushAndRestart,
        BusEvent::Stop => ConsumerDirective::Shutdown,
        BusEvent::Quiet => ConsumerDirective::Carry,
    }
}

fn directive_of(be: BusEvent) -> (r: ConsumerDirective)
    ensures
        r == directive_for(be),
{
    match be {
        BusEvent::Restart => ConsumerDirective::FlushAndRestart,
        BusEvent::Stop => ConsumerDirective::Shutdown,
        BusEvent::Quiet => ConsumerDirective::Carry,
    }
}

} // verus!
