//! Traffic counters and a sliding-window rate meter shared by host and guest.
//!
//! Times are nanoseconds since a moment of the caller's choosing.

use std::collections::VecDeque;
use vstd::prelude::*;

verus! {

/// Cumulative traffic counters.
///
/// `tx` = bytes/packets sent **into the tunnel** by this side, `rx` = received
/// from the tunnel.
#[derive(Clone, Copy, Debug, PartialEq, Eq, Structural)]
pub struct Counters {
    pub tx_bytes: u64,
    pub rx_bytes: u64,
    pub tx_packets: u64,
    pub rx_packets: u64,
}

impl Default for Counters {
    fn default() -> (r: Self)
        ensures
            r == (Counters { tx_bytes: 0, rx_bytes: 0, tx_packets: 0, rx_packets: 0 }),
    {
        Counters { tx_bytes: 0, rx_bytes: 0, tx_packets: 0, rx_packets: 0 }
    }
}

/// A rate, exactly: so many bytes in so many nanoseconds.
#[derive(Clone, Copy, Debug, PartialEq, Eq, Structural)]
pub struct Rate {
    pub bytes: u64,
    pub nanos: u64,
}

impl Default for Rate {
    fn default() -> (r: Self)
        ensures
            r == Rate::zero(),
    {
        Rate { bytes: 0, nanos: 1_000_000_000 }
    }
}

impl Rate {
    /// No bytes in a second.
    pub open spec fn zero() -> Rate {
        Rate { bytes: 0, nanos: 1_000_000_000 }
    }

    /// Whole bits per second, as far as 64 bits hold them. In no time at all
    /// anything is more than that, and nothing is nothing.
    pub open spec fn spec_bits(self) -> u64 {
        if self.nanos == 0 {
            if self.bytes == 0 {
                0
            } else {
                u64::MAX
            }
        } else {
            let bits = self.bytes as nat * 8_000_000_000 / self.nanos as nat;
            if bits <= u64::MAX {
                bits as u64
            } else {
                u64::MAX
            }
        }
    }

    /// Whole bits per second, as far as 64 bits hold them.
    pub fn bits(&self) -> (r: u64)
        ensures
            r == self.spec_bits(),
    {
        if self.nanos == 0 {
            return if self.bytes == 0 {
                0
            } else {
                u64::MAX
            };
        }
        let bits: u128 = self.bytes as u128 * 8_000_000_000 / self.nanos as u128;
        if bits <= u64::MAX as u128 {
            bits as u64
        } else {
            u64::MAX
        }
    }
}

/// What was recorded in one slice of time.
#[derive(Clone, Copy, Debug, PartialEq, Eq, Structural)]
pub struct Bucket {
    /// Start of the slice, a multiple of its length.
    pub start: u64,
    pub tx: u64,
    pub rx: u64,
}

/// Bytes sent, over all of `b`.
pub open spec fn sum_tx(b: Seq<Bucket>) -> nat
    decreases b.len(),
{
    if b.len() == 0 {
        0
    } else {
        sum_tx(b.drop_last()) + b.last().tx as nat
    }
}

/// Bytes received, over all of `b`.
pub open spec fn sum_rx(b: Seq<Bucket>) -> nat
    decreases b.len(),
{
    if b.len() == 0 {
        0
    } else {
        sum_rx(b.drop_last()) + b.last().rx as nat
    }
}

/// The moment before which everything is out of the window.
pub open spec fn cutoff(now: nat, window: nat) -> nat {
    if now < window {
        0
    } else {
        (now - window) as nat
    }
}

/// The start of the slice that holds `now`.
pub open spec fn grid(now: nat, slice: nat) -> nat {
    if slice == 0 {
        0
    } else {
        now / slice * slice
    }
}

/// A slice that starts at `start` has not ended before the window does.
pub open spec fn is_live(start: nat, slice: nat, now: nat, window: nat) -> bool {
    start + slice > cutoff(now, window)
}

/// The buckets that still count at `now`.
pub open spec fn live(b: Seq<Bucket>, slice: nat, now: nat, window: nat) -> Seq<Bucket> {
    b.filter(|x: Bucket| is_live(x.start as nat, slice, now, window))
}

/// The buckets after recording `tx` and `rx` bytes at `now`: what is out of the
/// window goes, and the bytes are added to the slice that is open, or to a new
/// one if that has ended.
pub open spec fn bumped(
    b: Seq<Bucket>,
    slice: nat,
    now: nat,
    window: nat,
    tx: u64,
    rx: u64,
) -> Seq<Bucket> {
    let kept = live(b, slice, now, window);
    if kept.len() > 0 && now < kept.last().start + slice {
        kept.drop_last().push(
            Bucket {
                start: kept.last().start,
                tx: kept.last().tx.wrapping_add(tx),
                rx: kept.last().rx.wrapping_add(rx),
            },
        )
    } else {
        kept.push(Bucket { start: grid(now, slice) as u64, tx, rx })
    }
}

/// Each bucket starts on the grid, and no earlier than its predecessor ends.
pub open spec fn in_order(b: Seq<Bucket>, slice: nat) -> bool {
    &&& forall|i: int|
        0 <= i < b.len() ==> (#[trigger] b[i]).start as nat == grid(b[i].start as nat, slice)
    &&& forall|i: int, j: int|
        0 <= i < j < b.len() ==> (#[trigger] b[i]).start + slice <= (#[trigger] b[j]).start
}

/// A number of bytes as far as 64 bits hold it: more wraps around.
pub open spec fn wrapped(n: nat) -> u64 {
    (n % 0x1_0000_0000_0000_0000) as u64
}

/// Sliding-window throughput meter with cumulative counters.
#[derive(Debug)]
pub struct RateMeter {
    window: u64,
    bucket_len: u64,
    counts: Counters,
    buckets: VecDeque<Bucket>,
}

impl RateMeter {
    /// Length of the averaging window in nanoseconds.
    pub closed spec fn spec_window(&self) -> u64 {
        self.window
    }

    /// Length of a slice in nanoseconds: a tenth of the window.
    pub open spec fn slice(&self) -> nat {
        self.spec_window() as nat / 10
    }

    /// What has been counted since the last reset.
    pub closed spec fn spec_counters(&self) -> Counters {
        self.counts
    }

    /// The slices that are held.
    pub closed spec fn held(&self) -> Seq<Bucket> {
        self.buckets@
    }

    /// What every operation keeps.
    pub closed spec fn wf(&self) -> bool {
        &&& self.window > 0
        &&& self.bucket_len as nat == self.slice()
        &&& in_order(self.buckets@, self.slice())
    }

    /// No more is held than was counted. This is so from the start and from
    /// every reset on, until a counter wraps around.
    pub open spec fn counts_cover(&self) -> bool {
        &&& sum_tx(self.held()) <= self.spec_counters().tx_bytes
        &&& sum_rx(self.held()) <= self.spec_counters().rx_bytes
    }

    /// Create a meter averaging over `window` nanoseconds (must be non-zero).
    pub fn new(window: u64) -> (r: Self)
        requires
            window > 0,
        ensures
            r.wf(),
            r.counts_cover(),
            r.spec_window() == window,
            r.held() == Seq::<Bucket>::empty(),
            r.spec_counters() == (Counters {
                tx_bytes: 0,
                rx_bytes: 0,
                tx_packets: 0,
                rx_packets: 0,
            }),
    {
        RateMeter {
            window,
            bucket_len: window / 10,
            counts: Counters::default(),
            buckets: VecDeque::with_capacity(11),
        }
    }

    /// Length of the averaging window in nanoseconds.
    pub fn window(&self) -> (r: u64)
        ensures
            r == self.spec_window(),
    {
        self.window
    }

    /// Record one packet of `bytes` sent into the tunnel at `now`. The counters
    /// wrap around.
    pub fn record_tx(&mut self, bytes: usize, now: u64)
        requires
            old(self).wf(),
        ensures
            final(self).wf(),
            final(self).spec_window() == old(self).spec_window(),
            old(self).spec_counters().tx_bytes + bytes <= u64::MAX
                && old(self).spec_counters().tx_packets < u64::MAX ==> final(self).spec_counters()
                == (Counters {
                tx_bytes: (old(self).spec_counters().tx_bytes + bytes) as u64,
                tx_packets: (old(self).spec_counters().tx_packets + 1) as u64,
                ..old(self).spec_counters()
            }),
            final(self).spec_counters() == (Counters {
                tx_bytes: old(self).spec_counters().tx_bytes.wrapping_add(bytes as u64),
                tx_packets: old(self).spec_counters().tx_packets.wrapping_add(1),
                ..old(self).spec_counters()
            }),
            final(self).held() == bumped(
                old(self).held(),
                old(self).slice(),
                now as nat,
                old(self).spec_window() as nat,
                bytes as u64,
                0,
            ),
            old(self).counts_cover() && old(self).spec_counters().tx_bytes + bytes <= u64::MAX
                ==> final(self).counts_cover(),
    {
        self.counts.tx_bytes = self.counts.tx_bytes.wrapping_add(bytes as u64);
        self.counts.tx_packets = self.counts.tx_packets.wrapping_add(1);
        self.bump(bytes as u64, 0, now);
    }

    /// Record one packet of `bytes` received from the tunnel at `now`. The
    /// counters wrap around.
    pub fn record_rx(&mut self, bytes: usize, now: u64)
        requires
            old(self).wf(),
        ensures
            final(self).wf(),
            final(self).spec_window() == old(self).spec_window(),
            old(self).spec_counters().rx_bytes + bytes <= u64::MAX
                && old(self).spec_counters().rx_packets < u64::MAX ==> final(self).spec_counters()
                == (Counters {
                rx_bytes: (old(self).spec_counters().rx_bytes + bytes) as u64,
                rx_packets: (old(self).spec_counters().rx_packets + 1) as u64,
                ..old(self).spec_counters()
            }),
            final(self).spec_counters() == (Counters {
                rx_bytes: old(self).spec_counters().rx_bytes.wrapping_add(bytes as u64),
                rx_packets: old(self).spec_counters().rx_packets.wrapping_add(1),
                ..old(self).spec_counters()
            }),
            final(self).held() == bumped(
                old(self).held(),
                old(self).slice(),
                now as nat,
                old(self).spec_window() as nat,
                0,
                bytes as u64,
            ),
            old(self).counts_cover() && old(self).spec_counters().rx_bytes + bytes <= u64::MAX
                ==> final(self).counts_cover(),
    {
        self.counts.rx_bytes = self.counts.rx_bytes.wrapping_add(bytes as u64);
        self.counts.rx_packets = self.counts.rx_packets.wrapping_add(1);
        self.bump(0, bytes as u64, now);
    }

    /// `(tx, rx)` rates over the window that ends at `now`.
    pub fn rates(&mut self, now: u64) -> (r: (Rate, Rate))
        requires
            old(self).wf(),
        ensures
            final(self).wf(),
            final(self).spec_window() == old(self).spec_window(),
            final(self).spec_counters() == old(self).spec_counters(),
            final(self).held() == live(
                old(self).held(),
                old(self).slice(),
                now as nat,
                old(self).spec_window() as nat,
            ),
            r.0 == (Rate {
                bytes: wrapped(sum_tx(final(self).held())),
                nanos: old(self).spec_window(),
            }),
            r.1 == (Rate {
                bytes: wrapped(sum_rx(final(self).held())),
                nanos: old(self).spec_window(),
            }),
            old(self).counts_cover() ==> final(self).counts_cover(),
    {
        self.prune(now);
        let (tx, rx) = self.held_bytes();
        (Rate { bytes: tx, nanos: self.window }, Rate { bytes: rx, nanos: self.window })
    }

    /// Bytes `(sent, received)` in all the slices that are held.
    fn held_bytes(&self) -> (r: (u64, u64))
        requires
            self.wf(),
        ensures
            r.0 == wrapped(sum_tx(self.held())),
            r.1 == wrapped(sum_rx(self.held())),
    {
        let mut tx: u64 = 0;
        let mut rx: u64 = 0;
        let mut i: usize = 0;
        while i < self.buckets.len()
            invariant
                self.wf(),
                i <= self.buckets@.len(),
                tx == wrapped(sum_tx(self.buckets@.take(i as int))),
                rx == wrapped(sum_rx(self.buckets@.take(i as int))),
            decreases self.buckets@.len() - i,
        {
            let ghost next = self.buckets@.take(i + 1);
            proof {
                assert(next.drop_last() =~= self.buckets@.take(i as int));
                wrapped_step(sum_tx(next.drop_last()), next.last().tx);
                wrapped_step(sum_rx(next.drop_last()), next.last().rx);
            }
            tx = tx.wrapping_add(self.buckets[i].tx);
            rx = rx.wrapping_add(self.buckets[i].rx);
            i = i + 1;
        }
        proof {
            assert(self.buckets@.take(i as int) =~= self.buckets@);
        }
        (tx, rx)
    }

    /// Snapshot of the cumulative counters.
    pub fn counters(&self) -> (r: Counters)
        ensures
            r == self.spec_counters(),
    {
        self.counts
    }

    /// Reset counters and the window.
    pub fn reset(&mut self)
        requires
            old(self).wf(),
        ensures
            final(self).wf(),
            final(self).spec_window() == old(self).spec_window(),
            final(self).counts_cover(),
            final(self).held() == Seq::<Bucket>::empty(),
            final(self).spec_counters() == (Counters {
                tx_bytes: 0,
                rx_bytes: 0,
                tx_packets: 0,
                rx_packets: 0,
            }),
    {
        self.counts = Counters::default();
        self.buckets.clear();
    }

    fn bump(&mut self, tx: u64, rx: u64, now: u64)
        requires
            old(self).wf(),
        ensures
            final(self).wf(),
            final(self).spec_window() == old(self).spec_window(),
            final(self).spec_counters() == old(self).spec_counters(),
            final(self).held() == bumped(
                old(self).held(),
                old(self).slice(),
                now as nat,
                old(self).spec_window() as nat,
                tx,
                rx,
            ),
            sum_tx(final(self).held()) <= sum_tx(old(self).held()) + tx,
            sum_rx(final(self).held()) <= sum_rx(old(self).held()) + rx,
    {
        self.prune(now);
        let ghost kept = self.buckets@;
        let ghost slice = self.slice();
        let n: usize = self.buckets.len();
        let needs_new: bool = n == 0 || now as u128 >= self.buckets[n - 1].start as u128
            + self.bucket_len as u128;
        if needs_new {
            // Align the start to the grid so that slices don't drift.
            let start: u64 = if self.bucket_len == 0 {
                0
            } else {
                proof {
                    vstd::arithmetic::div_mod::lemma_fundamental_div_mod(
                        now as int,
                        self.bucket_len as int,
                    );
                    vstd::arithmetic::mul::lemma_mul_is_commutative(
                        now as int / self.bucket_len as int,
                        self.bucket_len as int,
                    );
                }
                now / self.bucket_len * self.bucket_len
            };
            proof {
                grid_facts(now as nat, slice);
                if kept.len() > 0 && slice > 0 {
                    grid_step(kept.last().start as nat, now as nat, slice);
                }
            }
            self.buckets.push_back(Bucket { start, tx, rx });
            proof {
                assert(self.buckets@.drop_last() =~= kept);
                assert(self.buckets@ =~= kept.push(Bucket { start, tx, rx }));
            }
        } else {
            let last = self.buckets.pop_back();
            match last {
                Some(b) => {
                    proof {
                        assert(b == kept.last());
                        assert(self.buckets@ =~= kept.drop_last());
                    }
                    let grown = Bucket { start: b.start, tx: b.tx.wrapping_add(tx), rx: b.rx.wrapping_add(rx) };
                    self.buckets.push_back(grown);
                    proof {
                        assert(self.buckets@.drop_last() =~= kept.drop_last());
                        assert(self.buckets@ =~= kept.drop_last().push(grown));
                    }
                },
                None => {},
            }
        }
    }

    fn prune(&mut self, now: u64)
        requires
            old(self).wf(),
        ensures
            final(self).wf(),
            final(self).spec_window() == old(self).spec_window(),
            final(self).spec_counters() == old(self).spec_counters(),
            final(self).held() == live(
                old(self).held(),
                old(self).slice(),
                now as nat,
                old(self).spec_window() as nat,
            ),
            sum_tx(final(self).held()) <= sum_tx(old(self).held()),
            sum_rx(final(self).held()) <= sum_rx(old(self).held()),
    {
        let ghost all = self.buckets@;
        let ghost slice = self.slice();
        let ghost window = self.window as nat;
        let ghost mut gone: int = 0;
        let cut: u64 = if now < self.window {
            0
        } else {
            now - self.window
        };
        proof {
            assert(all.skip(0) =~= all);
        }
        loop
            invariant
                self.wf(),
                self.window == old(self).window,
                self.counts == old(self).counts,
                slice == self.slice(),
                window == self.window as nat,
                cut as nat == cutoff(now as nat, window),
                0 <= gone <= all.len(),
                self.buckets@ == all.skip(gone),
                sum_tx(self.buckets@) <= sum_tx(all),
                sum_rx(self.buckets@) <= sum_rx(all),
                in_order(all, slice),
                forall|i: int|
                    0 <= i < gone ==> !is_live(
                        (#[trigger] all[i]).start as nat,
                        slice,
                        now as nat,
                        window,
                    ),
            ensures
                self.buckets@.len() > 0 ==> is_live(
                    self.buckets@[0].start as nat,
                    slice,
                    now as nat,
                    window,
                ),
            decreases all.len() - gone,
        {
            if self.buckets.len() == 0 {
                break;
            }
            // A bucket is stale once it ends before the cutoff.
            if self.buckets[0].start as u128 + self.bucket_len as u128 <= cut as u128 {
                proof {
                    assert(all[gone] == self.buckets@[0]);
                    sum_of_suffix(self.buckets@);
                    assert(self.buckets@.skip(1) =~= all.skip(gone + 1));
                }
                let _ = self.buckets.pop_front();
                proof {
                    gone = gone + 1;
                    assert(self.buckets@ =~= all.skip(gone));
                }
            } else {
                break;
            }
        }
        proof {
            assert forall|i: int| gone <= i < all.len() implies is_live(
                (#[trigger] all[i]).start as nat,
                slice,
                now as nat,
                window,
            ) by {
                assert(self.buckets@[0] == all[gone]);
                if i > gone {
                    assert(all[gone].start + slice <= all[i].start);
                }
            }
            filter_is_suffix(all, gone, slice, now as nat, window);
        }
    }
}

impl Default for RateMeter {
    /// One second window, 100 ms buckets.
    fn default() -> (r: Self)
        ensures
            r.wf(),
            r.counts_cover(),
            r.spec_window() == 1_000_000_000,
            r.held() == Seq::<Bucket>::empty(),
            r.spec_counters() == (Counters {
                tx_bytes: 0,
                rx_bytes: 0,
                tx_packets: 0,
                rx_packets: 0,
            }),
    {
        RateMeter::new(1_000_000_000)
    }
}

/// A window is never empty.
pub proof fn a_window_has_a_length(m: RateMeter)
    requires
        m.wf(),
    ensures
        m.spec_window() > 0,
{
}

/// As long as its counters do not wrap around, the rates of a meter are of all
/// the bytes that it holds.
pub proof fn what_is_counted_is_shown(m: RateMeter)
    requires
        m.counts_cover(),
    ensures
        wrapped(sum_tx(m.held())) == sum_tx(m.held()),
        wrapped(sum_rx(m.held())) == sum_rx(m.held()),
{
    vstd::arithmetic::div_mod::lemma_small_mod(sum_tx(m.held()), 0x1_0000_0000_0000_0000);
    vstd::arithmetic::div_mod::lemma_small_mod(sum_rx(m.held()), 0x1_0000_0000_0000_0000);
}

/// A meter that holds nothing, as after a reset, shows no traffic at any
/// moment.
pub proof fn an_empty_meter_is_still(m: RateMeter, now: nat)
    requires
        m.held() == Seq::<Bucket>::empty(),
    ensures
        ({
            let kept = live(m.held(), m.slice(), now, m.spec_window() as nat);
            &&& wrapped(sum_tx(kept)) == 0
            &&& wrapped(sum_rx(kept)) == 0
        }),
{
    let live_at = |x: Bucket| is_live(x.start as nat, m.slice(), now, m.spec_window() as nat);
    reveal(Seq::filter);
    assert(m.held().filter(live_at) =~= Seq::<Bucket>::empty());
}

/// Sums that wrap around go on by additions that do.
proof fn wrapped_step(sum: nat, more: u64)
    ensures
        wrapped(sum + more as nat) == wrapped(sum).wrapping_add(more),
{
    let m: int = 0x1_0000_0000_0000_0000;
    vstd::arithmetic::div_mod::lemma_add_mod_noop(sum as int, more as int, m);
    vstd::arithmetic::div_mod::lemma_small_mod(more as nat, m as nat);
    let low = sum as int % m;
    if low + more < m {
        vstd::arithmetic::div_mod::lemma_small_mod((low + more) as nat, m as nat);
    } else {
        vstd::arithmetic::div_mod::lemma_mod_add_multiples_vanish(low + more - m, m);
        vstd::arithmetic::div_mod::lemma_small_mod((low + more - m) as nat, m as nat);
    }
}

proof fn grid_facts(now: nat, slice: nat)
    ensures
        grid(now, slice) <= now,
        slice > 0 ==> now < grid(now, slice) + slice,
        grid(grid(now, slice), slice) == grid(now, slice),
{
    if slice > 0 {
        vstd::arithmetic::div_mod::lemma_fundamental_div_mod(now as int, slice as int);
        vstd::arithmetic::mul::lemma_mul_is_commutative(now as int / slice as int, slice as int);
        vstd::arithmetic::div_mod::lemma_div_multiples_vanish(
            now as int / slice as int,
            slice as int,
        );
        vstd::arithmetic::mul::lemma_mul_is_commutative(
            slice as int,
            now as int / slice as int,
        );
        assert(now as int / slice as int == now / slice);
        assert((now / slice * slice) as int / slice as int == now / slice);
    }
}

/// A moment past the end of a slice lies in a later slice.
proof fn grid_step(start: nat, now: nat, slice: nat)
    requires
        slice > 0,
        start == grid(start, slice),
        now >= start + slice,
    ensures
        start + slice <= grid(now, slice),
{
    grid_facts(now, slice);
    let k = start / slice;
    let m = now / slice;
    assert(m * slice <= now < m * slice + slice);
    assert(k * slice == start);
    assert((k + 1) * slice == k * slice + slice) by (nonlinear_arith);
    if m < k + 1 {
        assert(m * slice <= k * slice) by (nonlinear_arith)
            requires
                m < k + 1,
        ;
    } else {
        assert((k + 1) * slice <= m * slice) by (nonlinear_arith)
            requires
                m >= k + 1,
        ;
    }
}

proof fn sum_of_suffix(b: Seq<Bucket>)
    requires
        b.len() > 0,
    ensures
        sum_tx(b.skip(1)) + b[0].tx == sum_tx(b),
        sum_rx(b.skip(1)) + b[0].rx == sum_rx(b),
    decreases b.len(),
{
    if b.len() == 1 {
        assert(b.drop_last() =~= Seq::<Bucket>::empty());
        assert(b.skip(1) =~= Seq::<Bucket>::empty());
    } else {
        sum_of_suffix(b.drop_last());
        assert(b.drop_last().skip(1) =~= b.skip(1).drop_last());
    }
}

/// If exactly the buckets from `gone` on are live, they are the live ones.
proof fn filter_is_suffix(b: Seq<Bucket>, gone: int, slice: nat, now: nat, window: nat)
    requires
        0 <= gone <= b.len(),
        forall|i: int|
            0 <= i < gone ==> !is_live((#[trigger] b[i]).start as nat, slice, now, window),
        forall|i: int|
            gone <= i < b.len() ==> is_live((#[trigger] b[i]).start as nat, slice, now, window),
    ensures
        live(b, slice, now, window) == b.skip(gone),
    decreases b.len(),
{
    reveal(Seq::filter);
    let p = |x: Bucket| is_live(x.start as nat, slice, now, window);
    if b.len() == 0 {
        assert(b.skip(gone) =~= Seq::<Bucket>::empty());
    } else {
        let front = b.drop_last();
        if gone == b.len() {
            filter_is_suffix(front, gone - 1, slice, now, window);
            assert(!p(b.last()));
            assert(front.skip(gone - 1) =~= Seq::<Bucket>::empty());
            assert(b.skip(gone) =~= Seq::<Bucket>::empty());
        } else {
            filter_is_suffix(front, gone, slice, now, window);
            assert(p(b.last()));
            assert(b.skip(gone) =~= front.skip(gone).push(b.last()));
        }
    }
}

/// Bytes recorded at one moment.
pub struct Sample {
    pub at: nat,
    pub tx: u64,
    pub rx: u64,
}

/// The slices that a fresh meter holds after recording `h` in order.
pub open spec fn replay(h: Seq<Sample>, slice: nat, window: nat) -> Seq<Bucket>
    decreases h.len(),
{
    if h.len() == 0 {
        Seq::empty()
    } else {
        let e = h.last();
        bumped(replay(h.drop_last(), slice, window), slice, e.at, window, e.tx, e.rx)
    }
}

/// The bytes sent in those samples of `h` whose slice still counts at `now`.
pub open spec fn counted_tx(h: Seq<Sample>, slice: nat, now: nat, window: nat) -> nat
    decreases h.len(),
{
    if h.len() == 0 {
        0
    } else {
        counted_tx(h.drop_last(), slice, now, window) + if is_live(
            grid(h.last().at, slice),
            slice,
            now,
            window,
        ) {
            h.last().tx as nat
        } else {
            0
        }
    }
}

/// The bytes received in those samples of `h` whose slice still counts at `now`.
pub open spec fn counted_rx(h: Seq<Sample>, slice: nat, now: nat, window: nat) -> nat
    decreases h.len(),
{
    if h.len() == 0 {
        0
    } else {
        counted_rx(h.drop_last(), slice, now, window) + if is_live(
            grid(h.last().at, slice),
            slice,
            now,
            window,
        ) {
            h.last().rx as nat
        } else {
            0
        }
    }
}

/// All bytes sent and received in `h`.
pub open spec fn recorded(h: Seq<Sample>) -> (nat, nat)
    decreases h.len(),
{
    if h.len() == 0 {
        (0, 0)
    } else {
        let before = recorded(h.drop_last());
        (before.0 + h.last().tx as nat, before.1 + h.last().rx as nat)
    }
}

/// A history that one meter can have seen: the clock does not run backwards,
/// and times and totals fit their fields.
pub open spec fn is_history(h: Seq<Sample>) -> bool {
    &&& forall|i: int, j: int| 0 <= i <= j < h.len() ==> (#[trigger] h[i]).at <= (#[trigger] h[j]).at
    &&& forall|i: int| 0 <= i < h.len() ==> (#[trigger] h[i]).at <= u64::MAX
    &&& recorded(h).0 <= u64::MAX
    &&& recorded(h).1 <= u64::MAX
}

proof fn live_push(b: Seq<Bucket>, x: Bucket, slice: nat, now: nat, window: nat)
    ensures
        live(b.push(x), slice, now, window) == if is_live(x.start as nat, slice, now, window) {
            live(b, slice, now, window).push(x)
        } else {
            live(b, slice, now, window)
        },
{
    reveal(Seq::filter);
    assert(b.push(x).drop_last() =~= b);
}

/// Dropping what is stale early changes nothing later.
proof fn live_again(b: Seq<Bucket>, slice: nat, earlier: nat, now: nat, window: nat)
    requires
        earlier <= now,
    ensures
        live(live(b, slice, earlier, window), slice, now, window) == live(b, slice, now, window),
    decreases b.len(),
{
    reveal(Seq::filter);
    if b.len() > 0 {
        let front = b.drop_last();
        live_again(front, slice, earlier, now, window);
        assert(front.push(b.last()) =~= b);
        live_push(front, b.last(), slice, earlier, window);
        live_push(front, b.last(), slice, now, window);
        live_push(live(front, slice, earlier, window), b.last(), slice, now, window);
    }
}

/// What is kept comes from what there was, in its order.
proof fn live_keeps_order(b: Seq<Bucket>, slice: nat, now: nat, window: nat, bound: nat)
    requires
        in_order(b, slice),
        forall|i: int| 0 <= i < b.len() ==> (#[trigger] b[i]).start <= bound,
    ensures
        in_order(live(b, slice, now, window), slice),
        forall|i: int|
            0 <= i < live(b, slice, now, window).len() ==> (#[trigger] live(
                b,
                slice,
                now,
                window,
            )[i]).start <= bound,
        sum_tx(live(b, slice, now, window)) <= sum_tx(b),
        sum_rx(live(b, slice, now, window)) <= sum_rx(b),
    decreases b.len(),
{
    reveal(Seq::filter);
    if b.len() > 0 {
        let front = b.drop_last();
        let last = b.last();
        assert forall|i: int| 0 <= i < front.len() implies (#[trigger] front[i]).start + slice
            <= last.start by {
            assert(front[i] == b[i]);
        }
        assert(in_order(front, slice));
        live_keeps_order(front, slice, now, window, bound);
        let kept = live(front, slice, now, window);
        assert(front.push(last) =~= b);
        live_push(front, last, slice, now, window);
        if is_live(last.start as nat, slice, now, window) {
            assert forall|i: int| 0 <= i < kept.len() implies (#[trigger] kept[i]).start + slice
                <= last.start by {
                kept_is_from(front, slice, now, window, i);
            }
            assert(kept.push(last).drop_last() =~= kept);
        }
    }
}

proof fn kept_is_from(b: Seq<Bucket>, slice: nat, now: nat, window: nat, i: int)
    requires
        0 <= i < live(b, slice, now, window).len(),
    ensures
        exists|j: int| 0 <= j < b.len() && #[trigger] b[j] == live(b, slice, now, window)[i],
{
    let p = |x: Bucket| is_live(x.start as nat, slice, now, window);
    let kept = b.filter(p);
    assert(kept.contains(kept[i]));
    b.lemma_filter_contains_rev(p, kept[i]);
}

/// What the meter counts is what was recorded: at any moment from the last
/// record on, the bytes inside the window are those of the samples whose slice
/// has not ended before the window begins. Pruning along the way loses nothing
/// else, and merging samples into slices adds nothing.
pub proof fn window_counts_what_was_recorded(h: Seq<Sample>, slice: nat, window: nat, now: nat)
    requires
        is_history(h),
        h.len() > 0 ==> h.last().at <= now,
    ensures
        sum_tx(live(replay(h, slice, window), slice, now, window)) == counted_tx(
            h,
            slice,
            now,
            window,
        ),
        sum_rx(live(replay(h, slice, window), slice, now, window)) == counted_rx(
            h,
            slice,
            now,
            window,
        ),
        in_order(replay(h, slice, window), slice),
        sum_tx(replay(h, slice, window)) <= recorded(h).0,
        sum_rx(replay(h, slice, window)) <= recorded(h).1,
        forall|i: int|
            0 <= i < replay(h, slice, window).len() ==> (#[trigger] replay(
                h,
                slice,
                window,
            )[i]).start <= h.last().at,
    decreases h.len(),
{
    reveal(Seq::filter);
    if h.len() > 0 {
        let e = h.last();
        let past = h.drop_last();
        assert(is_history(past)) by {
            assert forall|i: int, j: int| 0 <= i <= j < past.len() implies (#[trigger] past[i]).at
                <= (#[trigger] past[j]).at by {
                assert(past[i] == h[i] && past[j] == h[j]);
            }
            assert forall|i: int| 0 <= i < past.len() implies (#[trigger] past[i]).at
                <= u64::MAX by {
                assert(past[i] == h[i]);
            }
        }
        assert(e == h[h.len() - 1]);
        if past.len() > 0 {
            assert(past.last() == h[h.len() - 2]);
            assert(h[h.len() - 2].at <= h[h.len() - 1].at);
        }
        window_counts_what_was_recorded(past, slice, window, now);
        let b = replay(past, slice, window);
        let kept = live(b, slice, e.at, window);
        assert(forall|i: int| 0 <= i < b.len() ==> (#[trigger] b[i]).start <= e.at);
        live_keeps_order(b, slice, e.at, window, e.at);
        live_again(b, slice, e.at, now, window);
        grid_facts(e.at, slice);
        let after = replay(h, slice, window);
        if kept.len() > 0 && e.at < kept.last().start + slice {
            let old_last = kept.last();
            let front = kept.drop_last();
            let grown = Bucket {
                start: old_last.start,
                tx: (old_last.tx + e.tx) as u64,
                rx: (old_last.rx + e.rx) as u64,
            };
            assert(after == front.push(grown));
            assert(front.push(old_last) =~= kept);
            same_slice(old_last.start as nat, e.at, slice);
            live_push(front, old_last, slice, now, window);
            live_push(front, grown, slice, now, window);
            let l = live(front, slice, now, window);
            assert(l.push(old_last).drop_last() =~= l);
            assert(l.push(grown).drop_last() =~= l);
            assert(front.push(grown).drop_last() =~= front);
        } else {
            let fresh = Bucket { start: grid(e.at, slice) as u64, tx: e.tx as u64, rx: e.rx as u64 };
            assert(after == kept.push(fresh));
            if kept.len() > 0 && slice > 0 {
                grid_step(kept.last().start as nat, e.at, slice);
            }
            if slice == 0 && kept.len() > 0 {
                kept_is_live(b, slice, e.at, window, 0);
            }
            live_push(kept, fresh, slice, now, window);
            let l = live(kept, slice, now, window);
            assert(l.push(fresh).drop_last() =~= l);
            assert(kept.push(fresh).drop_last() =~= kept);
            assert forall|i: int, j: int| 0 <= i < j < after.len() implies (#[trigger] after[i]).start
                + slice <= (#[trigger] after[j]).start by {
                if j == kept.len() {
                    assert(kept[i].start + slice <= kept.last().start + slice) by {
                        if i < kept.len() - 1 {
                            assert(kept[i].start + slice <= kept[kept.len() - 1].start);
                        }
                    }
                }
            }
        }
    }
}

proof fn kept_is_live(b: Seq<Bucket>, slice: nat, now: nat, window: nat, i: int)
    requires
        0 <= i < live(b, slice, now, window).len(),
    ensures
        is_live(live(b, slice, now, window)[i].start as nat, slice, now, window),
{
    broadcast use vstd::seq_lib::group_filter_ensures;

    let p = |x: Bucket| is_live(x.start as nat, slice, now, window);
    assert(p(b.filter(p)[i]));
}

/// A moment inside a slice has that slice on the grid.
proof fn same_slice(start: nat, now: nat, slice: nat)
    requires
        start == grid(start, slice),
        start <= now < start + slice,
    ensures
        grid(now, slice) == start,
{
    grid_facts(now, slice);
    let k = start / slice;
    let m = now / slice;
    assert(m * slice <= now < m * slice + slice);
    assert(k * slice == start);
    if m > k {
        assert(m * slice >= (k + 1) * slice) by (nonlinear_arith)
            requires
                m > k,
        ;
        assert((k + 1) * slice == k * slice + slice) by (nonlinear_arith);
    } else if m < k {
        assert((m + 1) * slice <= k * slice) by (nonlinear_arith)
            requires
                m < k,
        ;
        assert((m + 1) * slice == m * slice + slice) by (nonlinear_arith);
    }
}

/// Bytes recorded no longer ago than the window are inside it.
pub proof fn recent_sample_counts(at: nat, slice: nat, now: nat, window: nat)
    requires
        slice > 0,
        at <= now,
        now < at + window,
    ensures
        is_live(grid(at, slice), slice, now, window),
{
    grid_facts(at, slice);
}

/// Bytes recorded a window and a slice ago are out of it.
pub proof fn old_sample_expires(at: nat, slice: nat, now: nat, window: nat)
    requires
        now >= at + window + slice,
    ensures
        !is_live(grid(at, slice), slice, now, window),
{
    grid_facts(at, slice);
}

/// A rate in bits per second is eight times the bytes over the seconds, rounded
/// down.
pub proof fn bits_are_bytes_over_time(r: Rate)
    requires
        r.nanos > 0,
    ensures
        r.spec_bits() < u64::MAX ==> {
            &&& r.spec_bits() * r.nanos <= r.bytes * 8_000_000_000
            &&& r.bytes * 8_000_000_000 < (r.spec_bits() + 1) * r.nanos
        },
        r.bytes * 8_000_000_000 < u64::MAX * r.nanos ==> r.spec_bits() < u64::MAX,
        r.bytes == 0 ==> r.spec_bits() == 0,
{
    let (x, n) = (r.bytes as nat * 8_000_000_000, r.nanos as nat);
    let q = x / n;
    assert(q * n <= x && x < (q + 1) * n) by (nonlinear_arith)
        requires
            n > 0,
            q == x / n,
    ;
    if x < u64::MAX * n {
        assert(q < u64::MAX) by (nonlinear_arith)
            requires
                q * n <= x,
                x < u64::MAX * n,
                n > 0,
        ;
    }
    if r.bytes == 0 {
        assert(q == 0) by (nonlinear_arith)
            requires
                x == 0,
                n > 0,
                q == x / n,
        ;
    }
}

} // verus!
