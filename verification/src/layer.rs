use std::time::Duration;
use vstd::prelude::*;

use crate::error::{ProtError, ProtResult};
use crate::helper::append_bytes;
use crate::proxy::{decimal, decimal_bytes};

verus! {

// ---------------------------------------------------------------------------
// Timeouts
// ---------------------------------------------------------------------------

/// Whether `elapsed` is strictly longer than `limit`.
pub uninterp spec fn duration_exceeds(elapsed: Duration, limit: Duration) -> bool;

/// `>` on `std::time::Duration`: true when `elapsed` is strictly longer than
/// `limit`. Claimed: the answer is [`duration_exceeds`] of the two values.
#[verifier::external_body]
fn exceeds(elapsed: Duration, limit: Duration) -> (r: bool)
    ensures
        r == duration_exceeds(elapsed, limit),
{
    elapsed > limit
}

/// The time limits of a connection: for reading a request, for writing the
/// answer, and for the whole exchange.
#[derive(Debug, Clone, Copy)]
pub struct TimeoutLayer {
    pub read_timeout: Option<Duration>,
    pub write_timeout: Option<Duration>,
    pub timeout: Option<Duration>,
}

/// Which limit, if any, a connection that has been busy for `elapsed` has
/// passed: reading counts while the read side is open, writing while the
/// write side is open, the overall limit while both are.
pub open spec fn spec_timeout_check(
    layer: TimeoutLayer,
    elapsed: Duration,
    is_read_end: bool,
    is_write_end: bool,
) -> Option<&'static str> {
    if !is_read_end && layer.read_timeout is Some && duration_exceeds(elapsed, layer.read_timeout->0) {
        Some("read timeout")
    } else if !is_write_end && layer.write_timeout is Some && duration_exceeds(elapsed, layer.write_timeout->0) {
        Some("write timeout")
    } else if !is_read_end && !is_write_end && layer.timeout is Some && duration_exceeds(elapsed, layer.timeout->0) {
        Some("timeout")
    } else {
        None
    }
}

/// A connection whose reading and writing are both over never times out,
/// and one without any limit never does either.
pub proof fn law_no_timeout_when_done(layer: TimeoutLayer, elapsed: Duration, is_read_end: bool, is_write_end: bool)
    ensures
        spec_timeout_check(layer, elapsed, true, true) is None,
        (layer.read_timeout is None && layer.write_timeout is None && layer.timeout is None)
            ==> spec_timeout_check(layer, elapsed, is_read_end, is_write_end) is None,
{
}

/// Each limit counts on its own: a connection whose read side is open
/// and that passed its read limit times out, whatever the write side does;
/// one whose write side is open and that passed its write limit times out,
/// whatever the read side does; one with both sides open that passed the
/// overall limit times out. A connection that passed no limit that counts
/// does not time out.
pub proof fn law_each_limit_counts(layer: TimeoutLayer, elapsed: Duration, is_read_end: bool, is_write_end: bool)
    ensures
        !is_read_end && layer.read_timeout is Some && duration_exceeds(elapsed, layer.read_timeout->0)
            ==> spec_timeout_check(layer, elapsed, is_read_end, is_write_end) is Some,
        !is_write_end && layer.write_timeout is Some && duration_exceeds(elapsed, layer.write_timeout->0)
            ==> spec_timeout_check(layer, elapsed, is_read_end, is_write_end) is Some,
        !is_read_end && !is_write_end && layer.timeout is Some && duration_exceeds(elapsed, layer.timeout->0)
            ==> spec_timeout_check(layer, elapsed, is_read_end, is_write_end) is Some,
        spec_timeout_check(layer, elapsed, is_read_end, is_write_end) is Some ==> (
            (!is_read_end && layer.read_timeout is Some && duration_exceeds(elapsed, layer.read_timeout->0))
            || (!is_write_end && layer.write_timeout is Some && duration_exceeds(elapsed, layer.write_timeout->0))
            || (!is_read_end && !is_write_end && layer.timeout is Some && duration_exceeds(elapsed, layer.timeout->0))),
{
}

impl TimeoutLayer {
    /// No limit at all.
    pub fn new() -> (r: TimeoutLayer)
        ensures
            r.read_timeout is None,
            r.write_timeout is None,
            r.timeout is None,
    {
        TimeoutLayer { read_timeout: None, write_timeout: None, timeout: None }
    }

    pub fn set_read_timeout(&mut self, read_timeout: Option<Duration>)
        ensures
            *final(self) == (TimeoutLayer { read_timeout, ..*old(self) }),
    {
        self.read_timeout = read_timeout;
    }

    pub fn set_write_timeout(&mut self, write_timeout: Option<Duration>)
        ensures
            *final(self) == (TimeoutLayer { write_timeout, ..*old(self) }),
    {
        self.write_timeout = write_timeout;
    }

    pub fn set_timeout(&mut self, timeout: Option<Duration>)
        ensures
            *final(self) == (TimeoutLayer { timeout, ..*old(self) }),
    {
        self.timeout = timeout;
    }

    /// The verdict on a connection that became ready `elapsed` ago: the
    /// first limit passed, in the order read, write, overall, is the error.
    pub fn check(&self, elapsed: Duration, is_read_end: bool, is_write_end: bool) -> (r: ProtResult<()>)
        ensures
            match spec_timeout_check(*self, elapsed, is_read_end, is_write_end) {
                Some(msg) => r == Err::<(), ProtError>(ProtError::Extension(msg)),
                None => r is Ok,
            },
            !is_write_end && self.write_timeout is Some && duration_exceeds(elapsed, self.write_timeout->0) ==> r is Err,
            !is_read_end && self.read_timeout is Some && duration_exceeds(elapsed, self.read_timeout->0) ==> r is Err,
    {
        if !is_read_end {
            if let Some(read) = self.read_timeout {
                if exceeds(elapsed, read) {
                    return Err(ProtError::Extension("read timeout"));
                }
            }
        }
        if !is_write_end {
            if let Some(write) = self.write_timeout {
                if exceeds(elapsed, write) {
                    return Err(ProtError::Extension("write timeout"));
                }
            }
        }
        if !is_read_end && !is_write_end {
            if let Some(time) = self.timeout {
                if exceeds(elapsed, time) {
                    return Err(ProtError::Extension("timeout"));
                }
            }
        }
        Ok(())
    }
}

// ---------------------------------------------------------------------------
// Rate limits
// ---------------------------------------------------------------------------

/// Whole seconds of a duration.
pub uninterp spec fn duration_secs(d: Duration) -> u64;

/// Milliseconds of a duration beyond its whole seconds.
pub uninterp spec fn duration_subsec_millis(d: Duration) -> u32;

/// `Duration::as_secs`: the whole seconds. Claimed: the answer is
/// [`duration_secs`] of the value.
#[verifier::external_body]
fn secs_of(d: Duration) -> (r: u64)
    ensures
        r == duration_secs(d),
{
    d.as_secs()
}

/// `Duration::subsec_millis`: the milliseconds past the whole seconds, below
/// 1000 as std documents. Claimed: the answer is [`duration_subsec_millis`]
/// of the value, and is below 1000.
#[verifier::external_body]
fn subsec_millis_of(d: Duration) -> (r: u32)
    ensures
        r == duration_subsec_millis(d),
        r < 1000,
{
    d.subsec_millis()
}

/// `String::from_utf8` on bytes that are all ASCII, which std documents as
/// always valid: the string holds the same characters.
#[verifier::external_body]
fn ascii_to_string(bytes: Vec<u8>) -> (r: String)
    requires
        forall|i: int| 0 <= i < bytes@.len() ==> bytes@[i] < 128,
    ensures
        r@.len() == bytes@.len(),
        forall|i: int| 0 <= i < bytes@.len() ==> r@[i] == (bytes@[i] as char),
{
    String::from_utf8(bytes).unwrap()
}

/// How much may pass per period.
#[derive(Debug, Clone, Copy)]
pub struct Rate {
    /// What may pass within one period.
    pub nums: u64,
    /// The length of a period.
    pub per: Duration,
}

/// `h`, `min`, `s`, `ms`.
pub open spec fn unit_h() -> Seq<u8> {
    seq![104u8]
}

pub open spec fn unit_min() -> Seq<u8> {
    seq![109u8, 105u8, 110u8]
}

pub open spec fn unit_s() -> Seq<u8> {
    seq![115u8]
}

pub open spec fn unit_ms() -> Seq<u8> {
    seq![109u8, 115u8]
}

/// A period written in its largest whole unit: milliseconds when it has a
/// millisecond part, else hours, minutes or seconds.
pub open spec fn spec_period_text(secs: nat, millis: nat) -> Seq<u8> {
    if millis > 0 {
        decimal(millis + secs * 1000) + unit_ms()
    } else if secs >= 3600 && secs % 3600 == 0 {
        decimal(secs / 3600) + unit_h()
    } else if secs >= 60 && secs % 60 == 0 {
        decimal(secs / 60) + unit_min()
    } else {
        decimal(secs) + unit_s()
    }
}

proof fn lemma_decimal_ascii(n: nat)
    ensures
        forall|i: int| 0 <= i < decimal(n).len() ==> 48 <= #[trigger] decimal(n)[i] <= 57,
    decreases n,
{
    if n >= 10 {
        lemma_decimal_ascii(n / 10);
        let d = decimal(n / 10);
        assert(decimal(n) == d.push((48 + n % 10) as u8));
        assert forall|i: int| 0 <= i < decimal(n).len() implies 48 <= #[trigger] decimal(n)[i] <= 57 by {
            if i < d.len() {
                assert(decimal(n)[i] == d[i]);
            }
        }
    }
}

/// The text of a period of `secs` seconds and `millis` milliseconds.
pub fn period_text(secs: u64, millis: u32) -> (r: Vec<u8>)
    requires
        millis < 1000,
    ensures
        r@ == spec_period_text(secs as nat, millis as nat),
{
    let mut out: Vec<u8>;
    if millis > 0 {
        let total: u128 = millis as u128 + secs as u128 * 1000;
        out = decimal_bytes(total);
        let unit: [u8; 2] = [109, 115];
        proof { assert(unit@ =~= unit_ms()); }
        append_bytes(&mut out, &unit);
    } else if secs >= 3600 && secs % 3600 == 0 {
        out = decimal_bytes((secs / 3600) as u128);
        let unit: [u8; 1] = [104];
        proof { assert(unit@ =~= unit_h()); }
        append_bytes(&mut out, &unit);
    } else if secs >= 60 && secs % 60 == 0 {
        out = decimal_bytes((secs / 60) as u128);
        let unit: [u8; 3] = [109, 105, 110];
        proof { assert(unit@ =~= unit_min()); }
        append_bytes(&mut out, &unit);
    } else {
        out = decimal_bytes(secs as u128);
        let unit: [u8; 1] = [115];
        proof { assert(unit@ =~= unit_s()); }
        append_bytes(&mut out, &unit);
    }
    out
}

impl Rate {
    pub fn new(nums: u64, per: Duration) -> (r: Rate)
        ensures
            r.nums == nums,
            r.per == per,
    {
        Rate { nums, per }
    }

    /// The period written in its largest whole unit (`500ms`, `2h`,
    /// `3min`, `45s`).
    pub fn to_string(&self) -> (r: String)
        ensures
            ({
                let t = spec_period_text(duration_secs(self.per) as nat, duration_subsec_millis(self.per) as nat);
                &&& r@.len() == t.len()
                &&& forall|i: int| 0 <= i < t.len() ==> r@[i] == (t[i] as char)
            }),
    {
        let secs = secs_of(self.per);
        let millis = subsec_millis_of(self.per);
        let text = period_text(secs, millis);
        proof {
            let t = spec_period_text(secs as nat, millis as nat);
            if millis > 0 {
                lemma_decimal_ascii((millis + secs * 1000) as nat);
                assert forall|i: int| 0 <= i < t.len() implies #[trigger] t[i] < 128 by {
                    let d = decimal((millis + secs * 1000) as nat);
                    if i >= d.len() {
                        assert(t[i] == unit_ms()[i - d.len()]);
                    } else {
                        assert(t[i] == d[i]);
                    }
                }
            } else if secs >= 3600 && secs % 3600 == 0 {
                lemma_decimal_ascii((secs / 3600) as nat);
                assert forall|i: int| 0 <= i < t.len() implies #[trigger] t[i] < 128 by {
                    let d = decimal((secs / 3600) as nat);
                    if i >= d.len() {
                        assert(t[i] == unit_h()[i - d.len()]);
                    } else {
                        assert(t[i] == d[i]);
                    }
                }
            } else if secs >= 60 && secs % 60 == 0 {
                lemma_decimal_ascii((secs / 60) as nat);
                assert forall|i: int| 0 <= i < t.len() implies #[trigger] t[i] < 128 by {
                    let d = decimal((secs / 60) as nat);
                    if i >= d.len() {
                        assert(t[i] == unit_min()[i - d.len()]);
                    } else {
                        assert(t[i] == d[i]);
                    }
                }
            } else {
                lemma_decimal_ascii(secs as nat);
                assert forall|i: int| 0 <= i < t.len() implies #[trigger] t[i] < 128 by {
                    let d = decimal(secs as nat);
                    if i >= d.len() {
                        assert(t[i] == unit_s()[i - d.len()]);
                    } else {
                        assert(t[i] == d[i]);
                    }
                }
            }
        }
        ascii_to_string(text)
    }
}

/// What a call that wants to pass `count` units does to the units left in
/// the current period.
#[derive(Debug, Clone, Copy, PartialEq, Eq, Structural)]
pub enum Spend {
    /// Nothing is left: the limiter is already waiting.
    Waiting,
    /// The call fits; this much is left.
    Left(u64),
    /// The call uses up the period, with this much beyond it.
    Exhausted(u64),
}

/// Takes `count` units out of `left`.
pub fn spend(left: u64, count: u64) -> (r: Spend)
    ensures
        left == 0 ==> r == Spend::Waiting,
        left > 0 && left > count ==> r == Spend::Left((left - count) as u64),
        left > 0 && left <= count ==> r == Spend::Exhausted((count - left) as u64),
{
    if left == 0 {
        return Spend::Waiting;
    }
    if left > count {
        return Spend::Left(left - count);
    }
    Spend::Exhausted(count - left)
}

} // verus!
