//! The sources: the HTTP endpoint that accepts metric samples, and the
//! timer-driven sources that make up events.

use vstd::prelude::*;

use crate::event::{Event, Metric};

verus! {

/// How the HTTP source is configured.
#[derive(Debug)]
pub struct HttpServerConfig {
    /// The address to listen on.
    pub address: String,
}

/// `204 No Content`: the sample was passed on.
pub const NO_CONTENT: u16 = 204;

/// `429 Too Many Requests`: the sample could not be passed on.
pub const TOO_MANY_REQUESTS: u16 = 429;

/// The status the HTTP source answers a posted sample with, given whether
/// it could pass the sample on.
pub fn handle_metric(delivered: bool) -> (status: u16)
    ensures
        status == (if delivered { NO_CONTENT } else { TOO_MANY_REQUESTS }),
{
    if delivered {
        NO_CONTENT
    } else {
        TOO_MANY_REQUESTS
    }
}

/// The `n` words of lorem ipsum text that `lipsum::lipsum_words(n)` returns.
pub uninterp spec fn lipsum_text(n: usize) -> Seq<char>;

/// Trusted: `lipsum::lipsum_words`. Its documentation says the text is
/// sampled deterministically (its source seeds the generator with a fixed
/// number), so the result is named as a function of `n` alone.
#[verifier::external_body]
fn lipsum_words(n: usize) -> (s: String)
    ensures
        s@ == lipsum_text(n),
{
    lipsum::lipsum_words(n)
}

/// The number of words in each made-up log message.
pub const MESSAGE_WORDS: usize = 5;

/// Makes up a log entry on each tick.
#[derive(Debug, Clone, Copy, PartialEq, Eq)]
pub struct RandomLogsExecutor;

impl RandomLogsExecutor {
    /// The message of the next made-up log entry.
    pub fn message(&self) -> (s: String)
        ensures
            s@ == lipsum_text(MESSAGE_WORDS),
    {
        lipsum_words(MESSAGE_WORDS)
    }
}

/// The sample a timer source sends on each tick: `instant`, valued 0, untagged.
pub open spec fn is_instant(e: Event) -> bool {
    &&& e matches Event::Metric(m)
    &&& m.name@ == "instant"@
    &&& m.value_bits == 0
    &&& m.tags.view() == Map::<Seq<char>, String>::empty()
}

fn instant() -> (e: Event)
    ensures
        is_instant(e),
{
    // 0 is the bit pattern of the double 0.0
    Event::Metric(Metric::now("instant".to_owned(), 0))
}

/// Sends an `instant` sample on each tick.
#[derive(Debug, Clone, Copy, PartialEq, Eq)]
pub struct RandomMetricsExecutor;

impl RandomMetricsExecutor {
    /// The event to send on this tick.
    pub fn next_event(&self) -> (e: Event)
        ensures
            is_instant(e),
    {
        instant()
    }
}

/// Sends an `instant` sample on each tick.
#[derive(Debug, Clone, Copy, PartialEq, Eq)]
pub struct TimerExecutor;

impl TimerExecutor {
    /// The event to send on this tick.
    pub fn next_event(&self) -> (e: Event)
        ensures
            is_instant(e),
    {
        instant()
    }
}

} // verus!
