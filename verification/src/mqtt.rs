//! MQTT side of the library: broker configuration, lulu-logs topics, client
//! IDs and the reconnect back-off of the event loop.

use crate::text::{concat3, hex_padded, push_hex_padded, string_of};
use vstd::arithmetic::power2::{lemma_pow2_unfold, pow2};
use vstd::prelude::*;

verus! {

// ---------------------------------------------------------------------------
// MqttConfig
// ---------------------------------------------------------------------------

/// Configuration of the MQTT connection.
#[derive(Debug)]
pub struct MqttConfig {
    /// MQTT broker hostname or IP address.
    pub broker_host: String,
    /// MQTT broker TCP port.
    pub broker_port: u16,
    /// Prefix of the MQTT client ID (`{prefix}-{random}`).
    pub client_id_prefix: String,
    /// MQTT keep-alive interval in seconds.
    pub keep_alive_secs: u64,
}

impl Default for MqttConfig {
    /// A local broker on the standard port, prefix `lulu-serial-port`,
    /// keep-alive of 5 seconds.
    fn default() -> (res: MqttConfig)
        ensures
            res.broker_host@ == "127.0.0.1"@,
            res.broker_port == 1883,
            res.client_id_prefix@ == "lulu-serial-port"@,
            res.keep_alive_secs == 5,
    {
        MqttConfig {
            broker_host: string_of("127.0.0.1"),
            broker_port: 1883,
            client_id_prefix: string_of("lulu-serial-port"),
            keep_alive_secs: 5,
        }
    }
}

impl Clone for MqttConfig {
    fn clone(&self) -> (res: MqttConfig)
        ensures
            res.broker_host@ == self.broker_host@,
            res.broker_port == self.broker_port,
            res.client_id_prefix@ == self.client_id_prefix@,
            res.keep_alive_secs == self.keep_alive_secs,
    {
        MqttConfig {
            broker_host: self.broker_host.clone(),
            broker_port: self.broker_port,
            client_id_prefix: self.client_id_prefix.clone(),
            keep_alive_secs: self.keep_alive_secs,
        }
    }
}

impl MqttConfig {
    /// The client ID for this configuration: `{prefix}-{short_id}`.
    pub fn client_id(&self, short_id: &str) -> (res: String)
        ensures
            res@ == self.client_id_prefix@ + "-"@ + short_id@,
    {
        concat3(self.client_id_prefix.as_str(), "-", short_id)
    }
}

// ---------------------------------------------------------------------------
// Topics
// ---------------------------------------------------------------------------

/// The lulu-logs topic `lulu/{source}/{attribute}`.
pub open spec fn lulu_topic_spec(source: Seq<char>, attribute: Seq<char>) -> Seq<char> {
    "lulu/"@ + source + "/"@ + attribute
}

/// The lulu-logs topic `lulu/{source}/{attribute}` that messages of a
/// source's attribute are published to.
pub fn lulu_topic(source: &str, attribute: &str) -> (res: String)
    ensures
        res@ == lulu_topic_spec(source@, attribute@),
{
    let mut topic = concat3("lulu/", source, "/");
    topic.append(attribute);
    topic
}

// ---------------------------------------------------------------------------
// Client IDs
// ---------------------------------------------------------------------------

/// `std::time::SystemTime`, carried through opaquely.
#[verifier::external_type_specification]
#[verifier::external_body]
pub struct ExSystemTime(std::time::SystemTime);

/// `SystemTime::now`: the current time; nothing is stated of it.
#[verifier::external_body]
fn system_now() -> std::time::SystemTime {
    std::time::SystemTime::now()
}

/// `std::time::SystemTimeError`, carried through opaquely.
#[verifier::external_type_specification]
#[verifier::external_body]
pub struct ExSystemTimeError(std::time::SystemTimeError);

/// `SystemTime::duration_since(UNIX_EPOCH)`: the time elapsed since the Unix
/// epoch, or an error for a time before it; nothing is stated of either.
#[verifier::external_body]
fn since_unix_epoch(t: &std::time::SystemTime) -> Result<
    std::time::Duration,
    std::time::SystemTimeError,
> {
    t.duration_since(std::time::UNIX_EPOCH)
}

/// What `Duration::subsec_nanos` returns for a duration: its fractional
/// part in nanoseconds, a function of the duration alone.
pub uninterp spec fn duration_subsec_nanos(d: std::time::Duration) -> u32;

/// `Duration::subsec_nanos`: the fractional part of a duration in
/// nanoseconds, named `duration_subsec_nanos`, which its documentation
/// states is less than one billion.
#[verifier::external_body]
fn subsec_nanos(d: &std::time::Duration) -> (n: u32)
    ensures
        n == duration_subsec_nanos(*d),
        n < 1_000_000_000,
{
    d.subsec_nanos()
}

/// A short client-ID suffix from a nanosecond count: eight lowercase
/// hexadecimal digits (`{:08x}`).
pub fn short_id_from_nanos(nanos: u32) -> (res: String)
    ensures
        res@ == hex_padded(nanos as nat, 8),
{
    let mut out = String::new();
    push_hex_padded(&mut out, nanos, 8);
    out
}

/// The sub-second part, in nanoseconds, of the time elapsed since the Unix
/// epoch; a clock set before the epoch counts as no time elapsed, so gives 0.
pub fn elapsed_nanos(since_epoch: Result<std::time::Duration, std::time::SystemTimeError>) -> (n:
    u32)
    ensures
        since_epoch matches Ok(d) ==> n == duration_subsec_nanos(d),
        since_epoch is Err ==> n == 0,
        n < 1_000_000_000,
{
    match since_epoch {
        Ok(elapsed) => subsec_nanos(&elapsed),
        Err(_) => 0,
    }
}

/// Generates a short string for use in MQTT client IDs: the sub-second
/// nanoseconds of the current time, as eight lowercase hexadecimal digits.
pub fn generate_short_id() -> (res: String)
    ensures
        exists|n: u32| n < 1_000_000_000 && res@ == #[trigger] hex_padded(n as nat, 8),
{
    let now = system_now();
    let nanos = elapsed_nanos(since_unix_epoch(&now));
    short_id_from_nanos(nanos)
}

// ---------------------------------------------------------------------------
// Reconnect back-off
// ---------------------------------------------------------------------------

/// Delay before the first retry, and after any successful event, in milliseconds.
pub const INITIAL_BACKOFF_MS: u64 = 1_000;

/// Upper bound of the retry delay, in milliseconds.
pub const MAX_BACKOFF_MS: u64 = 30_000;

/// The delay that follows `d` after a failed poll: doubled, capped.
pub open spec fn doubled_capped(d: nat) -> nat {
    if 2 * d <= MAX_BACKOFF_MS {
        2 * d
    } else {
        MAX_BACKOFF_MS as nat
    }
}

/// The delay after `k` failed polls in a row from a fresh or reset state.
pub open spec fn delay_after_failures(k: nat) -> nat
    decreases k,
{
    if k == 0 {
        INITIAL_BACKOFF_MS as nat
    } else {
        doubled_capped(delay_after_failures((k - 1) as nat))
    }
}

/// The sleep a poll asks for, given the current delay: none after a
/// success, the current delay after a failure.
pub open spec fn sleep_after(delay: nat, succeeded: bool) -> Option<nat> {
    if succeeded {
        None
    } else {
        Some(delay)
    }
}

/// The delay that follows a poll, given the current delay: reset after a
/// success, doubled up to the cap after a failure.
pub open spec fn delay_after(delay: nat, succeeded: bool) -> nat {
    if succeeded {
        INITIAL_BACKOFF_MS as nat
    } else {
        doubled_capped(delay)
    }
}

/// The delay after a sequence of poll outcomes (`true` for success), from
/// the delay `start`.
pub open spec fn delay_after_polls(start: nat, outcomes: Seq<bool>) -> nat
    decreases outcomes.len(),
{
    if outcomes.len() == 0 {
        start
    } else {
        delay_after(delay_after_polls(start, outcomes.drop_last()), outcomes.last())
    }
}

/// The number of failures at the end of a sequence of poll outcomes, since
/// its start or its last success.
pub open spec fn trailing_failures(outcomes: Seq<bool>) -> nat
    decreases outcomes.len(),
{
    if outcomes.len() == 0 || outcomes.last() {
        0
    } else {
        trailing_failures(outcomes.drop_last()) + 1
    }
}

/// Retry delay of the MQTT event loop: reset on every successful event,
/// doubled (up to 30 s) after every error.
pub struct ReconnectBackoff {
    delay_ms: u64,
}

impl ReconnectBackoff {
    #[verifier::type_invariant]
    spec fn in_range(self) -> bool {
        INITIAL_BACKOFF_MS <= self.delay_ms <= MAX_BACKOFF_MS
    }

    /// The delay that the next failed poll waits, in milliseconds.
    pub closed spec fn delay(self) -> nat {
        self.delay_ms as nat
    }

    /// A fresh back-off, at the initial delay.
    pub fn new() -> (res: ReconnectBackoff)
        ensures
            res.delay() == INITIAL_BACKOFF_MS,
    {
        ReconnectBackoff { delay_ms: INITIAL_BACKOFF_MS }
    }

    /// The delay that the next failed poll waits, in milliseconds.
    pub fn current_delay_ms(&self) -> (res: u64)
        ensures
            res == self.delay(),
            INITIAL_BACKOFF_MS <= res <= MAX_BACKOFF_MS,
    {
        proof {
            use_type_invariant(self);
        }
        self.delay_ms
    }

    /// Records the outcome of one poll of the event loop.  A success resets
    /// the delay and asks for no wait; a failure asks to sleep for the
    /// current delay, then doubles it up to the cap.
    pub fn on_poll(&mut self, succeeded: bool) -> (sleep_ms: Option<u64>)
        ensures
            match sleep_ms {
                Some(ms) => sleep_after(old(self).delay(), succeeded) == Some(ms as nat),
                None => sleep_after(old(self).delay(), succeeded) is None,
            },
            final(self).delay() == delay_after(old(self).delay(), succeeded),
            INITIAL_BACKOFF_MS <= final(self).delay() <= MAX_BACKOFF_MS,
    {
        proof {
            use_type_invariant(&*self);
        }
        if succeeded {
            self.delay_ms = INITIAL_BACKOFF_MS;
            None
        } else {
            let current = self.delay_ms;
            self.delay_ms = if current * 2 <= MAX_BACKOFF_MS {
                current * 2
            } else {
                MAX_BACKOFF_MS
            };
            Some(current)
        }
    }
}

/// After `k` failed polls in a row from a fresh or reset back-off, the delay
/// is `1000 * 2^k` milliseconds, capped at 30 000.
pub proof fn lemma_backoff_doubles_to_cap(k: nat)
    ensures
        delay_after_failures(k) as int == if INITIAL_BACKOFF_MS * pow2(k) <= MAX_BACKOFF_MS {
            INITIAL_BACKOFF_MS * pow2(k)
        } else {
            MAX_BACKOFF_MS as int
        },
    decreases k,
{
    if k == 0 {
        vstd::arithmetic::power2::lemma2_to64();
    } else {
        lemma_backoff_doubles_to_cap((k - 1) as nat);
        lemma_pow2_unfold(k);
    }
}

/// The delay never leaves the range `[1000, 30000]`, whatever the
/// sequence of poll outcomes.
pub proof fn lemma_delay_after_failures_in_range(k: nat)
    ensures
        INITIAL_BACKOFF_MS <= delay_after_failures(k) <= MAX_BACKOFF_MS,
    decreases k,
{
    if k > 0 {
        lemma_delay_after_failures_in_range((k - 1) as nat);
    }
}

/// From a fresh back-off, the delay after any sequence of poll outcomes is
/// that after the failures since the last success (or the start).
proof fn lemma_delay_after_polls(outcomes: Seq<bool>)
    ensures
        delay_after_polls(INITIAL_BACKOFF_MS as nat, outcomes) == delay_after_failures(
            trailing_failures(outcomes),
        ),
    decreases outcomes.len(),
{
    if outcomes.len() > 0 {
        lemma_delay_after_polls(outcomes.drop_last());
    }
}

/// The back-off over a whole run of the event loop, from a fresh state:
/// the poll at position `i` sleeps not at all when it succeeds, and when it
/// is the `k`-th failure in a row (counted from the start or from the last
/// success) sleeps `min(1000 * 2^(k-1), 30000)` ms: 1000, 2000, 4000, 8000,
/// 16000, then 30000 for every further failure.
pub proof fn lemma_backoff_over_polls(outcomes: Seq<bool>, i: int)
    requires
        0 <= i < outcomes.len(),
    ensures
        outcomes[i] ==> sleep_after(
            delay_after_polls(INITIAL_BACKOFF_MS as nat, outcomes.take(i)),
            outcomes[i],
        ) is None,
        !outcomes[i] ==> trailing_failures(outcomes.take(i + 1)) >= 1 && sleep_after(
            delay_after_polls(INITIAL_BACKOFF_MS as nat, outcomes.take(i)),
            outcomes[i],
        ) == Some(
            (if INITIAL_BACKOFF_MS * pow2((trailing_failures(outcomes.take(i + 1)) - 1) as nat)
                <= MAX_BACKOFF_MS {
                INITIAL_BACKOFF_MS * pow2((trailing_failures(outcomes.take(i + 1)) - 1) as nat)
            } else {
                MAX_BACKOFF_MS as int
            }) as nat,
        ),
{
    let before = outcomes.take(i);
    let upto = outcomes.take(i + 1);
    lemma_delay_after_polls(before);
    assert(upto.drop_last() =~= before);
    assert(upto.last() == outcomes[i]);
    if !outcomes[i] {
        lemma_backoff_doubles_to_cap(trailing_failures(before));
    }
}

} // verus!
