//! The signal collector: RSSI samples in, smoothed proximity estimate out.
//!
//! Each advertisement that carries an RSSI reading adds one sample to a
//! sample log of capacity 32. When the log is full, or its oldest sample is
//! more than `MAX_DELAY` ticks older than the newest, a burst closes: the
//! minimum magnitude of the recent run of samples is pushed into a minima
//! window, and the mean of that window becomes the published estimate.

use crate::ring::{
    log_enqueue, log_get_signed, log_items, log_len, log_new, log_skip, ring_push, window_enqueue,
    window_get_signed, window_items, window_len, window_new, window_skip,
};
use ringbuffer::ConstGenericRingBuffer;
use vstd::prelude::*;

verus! {

/// Calibration bias subtracted from the absolute RSSI value.
pub const CALIBRATION_BIAS: u8 = 42;

/// Samples older than this many ticks (relative to the newest) are stale.
pub const MAX_DELAY: u32 = 250_000;

/// Capacity of the sample log.
pub const LOG_CAPACITY: usize = 32;

/// Capacity of the minima window.
pub const WINDOW_CAPACITY: usize = 4;

/// One RSSI sample: when it arrived, and its calibrated magnitude.
#[derive(Clone, Copy)]
pub struct RssiEntry {
    pub timestamp: u32,
    pub rssi: u8,
}

impl Default for RssiEntry {
    fn default() -> (r: Self)
        ensures
            r.timestamp == 0,
            r.rssi == u8::MAX,
    {
        RssiEntry { timestamp: 0, rssi: u8::MAX }
    }
}

/// Ticks elapsed from `then` to `now` on a counter that wraps at 2^32.
pub open spec fn age(now: u32, then: u32) -> u32 {
    now.wrapping_sub(then)
}

/// Absolute RSSI less the calibration bias, saturating at 0.
pub open spec fn magnitude_of(rssi: i8) -> u8 {
    let a: int = if rssi < 0 { -rssi } else { rssi as int };
    if a <= CALIBRATION_BIAS { 0 } else { (a - CALIBRATION_BIAS) as u8 }
}

pub open spec fn min_u8(a: u8, b: u8) -> u8 {
    if a <= b { a } else { b }
}

/// Length of the run of recent samples at the newest end of `s`: scanning
/// from the newest, every sample up to the first stale one.
pub open spec fn run_len(s: Seq<RssiEntry>, now: u32) -> nat
    decreases s.len(),
{
    if s.len() == 0 {
        0
    } else if age(now, s.last().timestamp) < MAX_DELAY {
        1 + run_len(s.drop_last(), now)
    } else {
        0
    }
}

/// Least magnitude in the run of recent samples at the newest end of `s`
/// (255 when the run is empty).
pub open spec fn run_min(s: Seq<RssiEntry>, now: u32) -> u8
    decreases s.len(),
{
    if s.len() == 0 {
        u8::MAX
    } else if age(now, s.last().timestamp) < MAX_DELAY {
        min_u8(s.last().rssi, run_min(s.drop_last(), now))
    } else {
        u8::MAX
    }
}

/// Least magnitude among all samples of `s` younger than `MAX_DELAY` at
/// `now`, wherever they stand (255 when there are none).
pub open spec fn recent_min(s: Seq<RssiEntry>, now: u32) -> u8
    decreases s.len(),
{
    if s.len() == 0 {
        u8::MAX
    } else if age(now, s.last().timestamp) < MAX_DELAY {
        min_u8(s.last().rssi, recent_min(s.drop_last(), now))
    } else {
        recent_min(s.drop_last(), now)
    }
}

pub open spec fn sum(s: Seq<u8>) -> int
    decreases s.len(),
{
    if s.len() == 0 {
        0
    } else {
        sum(s.drop_last()) + s.last()
    }
}

/// Truncating mean of a non-empty window.
pub open spec fn mean(s: Seq<u8>) -> int {
    sum(s) / (s.len() as int)
}

/// The state of the collector as plain values.
pub struct CollectorView {
    pub log: Seq<RssiEntry>,
    pub window: Seq<u8>,
    pub published: u8,
}

/// Whether a sample that has just been appended to `log` closes a burst.
pub open spec fn burst_closes(log: Seq<RssiEntry>, now: u32) -> bool {
    log.len() == LOG_CAPACITY || age(now, log[0].timestamp) > MAX_DELAY
}

/// The collector state after a burst closes on `log` (the sample log with the
/// newest sample appended).
pub open spec fn close_burst(v: CollectorView, log: Seq<RssiEntry>, now: u32) -> CollectorView {
    let pushed = ring_push(v.window, run_min(log, now), WINDOW_CAPACITY as nat);
    let avg = mean(pushed) as u8;
    CollectorView {
        log: log.subrange(run_len(log, now) as int, log.len() as int),
        window: if pushed.len() == WINDOW_CAPACITY { pushed.drop_first() } else { pushed },
        published: avg,
    }
}

/// One advertisement seen at tick `now`, with its RSSI reading if any: the
/// state afterwards, and the estimate to publish if a burst closed.
pub open spec fn step(v: CollectorView, now: u32, rssi: Option<i8>) -> (CollectorView, Option<u8>) {
    match rssi {
        None => (v, None),
        Some(x) => {
            let entry = RssiEntry { timestamp: now, rssi: magnitude_of(x) };
            let log = ring_push(v.log, entry, LOG_CAPACITY as nat);
            if burst_closes(log, now) {
                let w = close_burst(v, log, now);
                (w, Some(w.published))
            } else {
                (CollectorView { log, ..v }, None)
            }
        },
    }
}

/// Absolute value of an RSSI reading less the calibration bias, saturating
/// at 0 instead of wrapping.
pub fn magnitude(rssi: i8) -> (r: u8)
    ensures
        r == magnitude_of(rssi),
{
    let a: u8 = if rssi < 0 {
        (-(rssi as i16)) as u8
    } else {
        rssi as u8
    };
    a.saturating_sub(CALIBRATION_BIAS)
}

/// The collector of RSSI samples handed to the BLE scanner.
pub struct BeaconScanCallback {
    log: ConstGenericRingBuffer<RssiEntry, 32>,
    rssi_window: ConstGenericRingBuffer<u8, 4>,
    published: u8,
}

impl BeaconScanCallback {
    pub closed spec fn view(&self) -> CollectorView {
        CollectorView {
            log: log_items(self.log),
            window: window_items(self.rssi_window),
            published: self.published,
        }
    }

    /// The sample log holds at most 32 entries and the minima window at most
    /// 3 between calls.
    pub open spec fn wf(&self) -> bool {
        &&& self.view().log.len() <= LOG_CAPACITY
        &&& self.view().window.len() < WINDOW_CAPACITY
    }

    /// A collector with empty log and window, and a published estimate of 0.
    pub fn new() -> (r: Self)
        ensures
            r.wf(),
            r.view().log.len() == 0,
            r.view().window.len() == 0,
            r.view().published == 0,
    {
        BeaconScanCallback { log: log_new(), rssi_window: window_new(), published: 0 }
    }

    /// The samples of the log, oldest first.
    pub fn samples(&self) -> (r: Vec<RssiEntry>)
        requires
            self.wf(),
        ensures
            r@ == self.view().log,
    {
        let len = log_len(&self.log);
        let mut r: Vec<RssiEntry> = Vec::new();
        let mut i: usize = 0;
        while i < len
            invariant
                len == log_items(self.log).len(),
                len <= LOG_CAPACITY,
                i <= len,
                r@ == log_items(self.log).subrange(0, i as int),
            decreases len - i,
        {
            let e = match log_get_signed(&self.log, i as isize - len as isize) {
                Some(e) => e,
                None => RssiEntry::default(),
            };
            r.push(e);
            i += 1;
            assert(r@ =~= log_items(self.log).subrange(0, i as int));
        }
        assert(log_items(self.log).subrange(0, len as int) =~= log_items(self.log));
        r
    }

    /// The estimate published by the latest burst (0 before any).
    pub fn published(&self) -> (r: u8)
        ensures
            r == self.view().published,
    {
        self.published
    }
}

impl Default for BeaconScanCallback {
    fn default() -> (r: Self)
        ensures
            r.wf(),
            r.view().log.len() == 0,
            r.view().window.len() == 0,
            r.view().published == 0,
    {
        BeaconScanCallback::new()
    }
}


/// Every window of magnitudes sums to at most 255 per entry.
pub proof fn lemma_sum_bounds(s: Seq<u8>)
    ensures
        0 <= sum(s) <= 255 * s.len(),
    decreases s.len(),
{
    if s.len() > 0 {
        lemma_sum_bounds(s.drop_last());
    }
}

/// A mean of magnitudes is itself a magnitude.
pub proof fn lemma_mean_fits(total: int, n: int)
    requires
        n > 0,
        0 <= total <= 255 * n,
    ensures
        0 <= total / n <= 255,
{
    assert(0 <= total / n <= 255) by (nonlinear_arith)
        requires
            n > 0,
            0 <= total <= 255 * n,
    ;
}

impl BeaconScanCallback {
    /// Records one advertisement received at tick `timestamp`, with its RSSI
    /// reading if the radio reported one, and returns the new estimate when
    /// this sample closes a burst.
    pub fn beacon(&mut self, timestamp: u32, rssi: Option<i8>) -> (r: Option<u8>)
        requires
            old(self).wf(),
        ensures
            final(self).wf(),
            (final(self).view(), r) == step(old(self).view(), timestamp, rssi),
    {
        let x = match rssi {
            None => {
                return None;
            },
            Some(x) => x,
        };
        let entry = RssiEntry { timestamp, rssi: magnitude(x) };
        log_enqueue(&mut self.log, entry);
        let ghost l = log_items(self.log);
        let len = log_len(&self.log);
        let getstamp = match log_get_signed(&self.log, -(len as isize)) {
            Some(get) => get.timestamp,
            None => 0,
        };
        let diff = timestamp.wrapping_sub(getstamp);
        if !(len == LOG_CAPACITY || diff > MAX_DELAY) {
            return None;
        }
        // Scan from the newest entry back, over the run of recent samples.

        let mut min_rssi: u8 = u8::MAX;
        let mut valid_items: usize = 0;
        let mut stop = false;
        assert(l.subrange(0, len as int) =~= l);
        while valid_items < len && !stop
            invariant
                len == l.len(),
                1 <= len <= LOG_CAPACITY,
                log_items(self.log) == l,
                0 <= valid_items <= len,
                run_len(l, timestamp) == valid_items + run_len(
                    l.subrange(0, len - valid_items),
                    timestamp,
                ),
                run_min(l, timestamp) == min_u8(
                    min_rssi,
                    run_min(l.subrange(0, len - valid_items), timestamp),
                ),
                stop ==> run_len(l.subrange(0, len - valid_items), timestamp) == 0,
                stop ==> run_min(l.subrange(0, len - valid_items), timestamp) == u8::MAX,
            decreases len - valid_items + if stop { 0int } else { 1int },
        {
            let ghost rest = l.subrange(0, len - valid_items);
            assert(rest.drop_last() =~= l.subrange(0, len - valid_items - 1));
            let item = match log_get_signed(&self.log, -(valid_items as isize) - 1) {
                Some(item) => item,
                None => RssiEntry::default(),
            };
            let d = timestamp.wrapping_sub(item.timestamp);
            if d < MAX_DELAY {
                if item.rssi < min_rssi {
                    min_rssi = item.rssi;
                }
                valid_items += 1;
            } else {
                stop = true;
            }
        }
        assert(valid_items == len ==> l.subrange(0, len - valid_items).len() == 0);
        let ghost k = valid_items;

        // Drain that many entries from the oldest end.
        while valid_items > 0
            invariant
                valid_items <= k <= l.len(),
                l.len() <= LOG_CAPACITY,
                log_items(self.log) == l.subrange(k - valid_items, l.len() as int),
                self.rssi_window == old(self).rssi_window,
                self.published == old(self).published,
            decreases valid_items,
        {
            log_skip(&mut self.log);
            assert(l.subrange(k - valid_items, l.len() as int).drop_first() =~= l.subrange(
                k - valid_items + 1,
                l.len() as int,
            ));
            valid_items -= 1;
        }
        assert(log_items(self.log) =~= l.subrange(k as int, l.len() as int));

        let mut avg_min_rssi: u32 = 0;
        window_enqueue(&mut self.rssi_window, min_rssi);
        let ghost w = window_items(self.rssi_window);
        let wlen = window_len(&self.rssi_window);
        let mut j: usize = 0;
        while j < wlen
            invariant
                wlen == w.len(),
                1 <= wlen <= WINDOW_CAPACITY,
                window_items(self.rssi_window) == w,
                0 <= j <= wlen,
                avg_min_rssi == sum(w.subrange(0, j as int)),
            decreases wlen - j,
        {
            proof {
                assert(w.subrange(0, j + 1).drop_last() =~= w.subrange(0, j as int));
                lemma_sum_bounds(w.subrange(0, j as int));
            }
            let v = match window_get_signed(&self.rssi_window, j as isize - wlen as isize) {
                Some(v) => v,
                None => 0,
            };
            avg_min_rssi += v as u32;
            j += 1;
        }
        assert(w.subrange(0, wlen as int) =~= w);
        proof {
            lemma_sum_bounds(w);
            lemma_mean_fits(sum(w), wlen as int);
        }
        avg_min_rssi /= wlen as u32;
        if wlen == WINDOW_CAPACITY {
            window_skip(&mut self.rssi_window);
        }
        self.published = avg_min_rssi as u8;
        proof {
            let v = old(self).view();
            let cb = close_burst(v, l, timestamp);
            assert(self.view().log =~= cb.log);
            assert(self.view().window =~= cb.window);
        }
        Some(avg_min_rssi as u8)
    }
}


/// The collector state after one advertisement per element of `events`
/// (tick, RSSI reading), in order.
pub open spec fn step_all(v: CollectorView, events: Seq<(u32, Option<i8>)>) -> CollectorView
    decreases events.len(),
{
    if events.len() == 0 {
        v
    } else {
        step(step_all(v, events.drop_last()), events.last().0, events.last().1).0
    }
}

/// Advertisements without an RSSI reading change nothing: fed no samples,
/// the collector keeps its state, and its published estimate (0 at start).
pub proof fn lemma_no_samples_keep_estimate(v: CollectorView, events: Seq<(u32, Option<i8>)>)
    requires
        forall|i: int| 0 <= i < events.len() ==> (#[trigger] events[i]).1 is None,
    ensures
        step_all(v, events) == v,
        step_all(v, events).published == v.published,
    decreases events.len(),
{
    if events.len() > 0 {
        assert(events.last().1 is None);
        let front = events.drop_last();
        assert forall|i: int| 0 <= i < front.len() implies (#[trigger] front[i]).1 is None by {
            assert(front[i] == events[i]);
        }
        lemma_no_samples_keep_estimate(v, front);
    }
}

/// A reading weaker than the calibration bias gives magnitude 0, never a
/// wrapped-around large value.
pub proof fn lemma_magnitude_saturates(rssi: i8)
    ensures
        -(CALIBRATION_BIAS as int) <= rssi <= CALIBRATION_BIAS ==> magnitude_of(rssi) == 0,
        magnitude_of(rssi) <= 128 - CALIBRATION_BIAS,
{
}

/// The samples of `s` are in arrival order as seen from `now`: their ages
/// do not grow from older to newer (timestamps increase modulo wraparound).
pub open spec fn time_ordered(s: Seq<RssiEntry>, now: u32) -> bool {
    forall|i: int, j: int|
        0 <= i < j < s.len() ==> age(now, #[trigger] s[i].timestamp) >= age(
            now,
            #[trigger] s[j].timestamp,
        )
}

proof fn lemma_all_stale(s: Seq<RssiEntry>, now: u32)
    requires
        forall|i: int| 0 <= i < s.len() ==> age(now, #[trigger] s[i].timestamp) >= MAX_DELAY,
    ensures
        recent_min(s, now) == u8::MAX,
    decreases s.len(),
{
    if s.len() > 0 {
        let f = s.drop_last();
        assert forall|i: int| 0 <= i < f.len() implies age(now, #[trigger] f[i].timestamp)
            >= MAX_DELAY by {
            assert(f[i] == s[i]);
        }
        assert(age(now, s[s.len() - 1].timestamp) >= MAX_DELAY);
        lemma_all_stale(f, now);
    }
}

/// On samples in arrival order, the run scanned from the newest end holds
/// exactly the recent samples.
pub proof fn lemma_run_min_is_recent_min(s: Seq<RssiEntry>, now: u32)
    requires
        time_ordered(s, now),
    ensures
        run_min(s, now) == recent_min(s, now),
    decreases s.len(),
{
    if s.len() > 0 {
        let f = s.drop_last();
        assert(time_ordered(f, now)) by {
            assert forall|i: int, j: int| 0 <= i < j < f.len() implies age(
                now,
                #[trigger] f[i].timestamp,
            ) >= age(now, #[trigger] f[j].timestamp) by {
                assert(f[i] == s[i] && f[j] == s[j]);
            }
        }
        if age(now, s.last().timestamp) < MAX_DELAY {
            lemma_run_min_is_recent_min(f, now);
        } else {
            assert forall|i: int| 0 <= i < f.len() implies age(now, #[trigger] f[i].timestamp)
                >= MAX_DELAY by {
                assert(f[i] == s[i]);
                assert(age(now, s[i].timestamp) >= age(now, s[s.len() - 1].timestamp));
            }
            lemma_all_stale(f, now);
        }
    }
}

/// Once a sample fills the log, a burst closes, and the minimum it adds to
/// the window is the least magnitude among all samples of the log younger
/// than `MAX_DELAY` relative to the newest.
pub proof fn lemma_full_log_closes_burst(v: CollectorView, now: u32, rssi: i8)
    requires
        v.log.len() <= LOG_CAPACITY,
        v.window.len() < WINDOW_CAPACITY,
        ring_push(v.log, RssiEntry { timestamp: now, rssi: magnitude_of(rssi) }, LOG_CAPACITY as nat).len()
            == LOG_CAPACITY,
        time_ordered(
            ring_push(v.log, RssiEntry { timestamp: now, rssi: magnitude_of(rssi) }, LOG_CAPACITY as nat),
            now,
        ),
    ensures
        step(v, now, Some(rssi)).1 is Some,
        step(v, now, Some(rssi)).0.window.last() == recent_min(
            ring_push(v.log, RssiEntry { timestamp: now, rssi: magnitude_of(rssi) }, LOG_CAPACITY as nat),
            now,
        ),
{
    let log = ring_push(v.log, RssiEntry { timestamp: now, rssi: magnitude_of(rssi) }, LOG_CAPACITY as nat);
    lemma_run_min_is_recent_min(log, now);
}

} // verus!
