//! The batch accumulator and dispatcher: serialized records are grouped by
//! count and by a wait window measured from the batch's first record, and a
//! batch is flushed as one JSON array payload spliced from the records'
//! pre-serialized bytes.

use vstd::prelude::*;
use vstd::string::StringExecFns;
use crate::config::Config;

verus! {

/// The sum of the lengths of the members.
pub open spec fn sum_lens(bufs: Seq<Seq<u8>>) -> int
    decreases bufs.len(),
{
    if bufs.len() == 0 {
        0
    } else {
        sum_lens(bufs.drop_last()) + bufs.last().len()
    }
}

/// The members joined by commas (byte 44), in order.
pub open spec fn comma_join(bufs: Seq<Seq<u8>>) -> Seq<u8>
    decreases bufs.len(),
{
    if bufs.len() == 0 {
        Seq::<u8>::empty()
    } else if bufs.len() == 1 {
        bufs[0]
    } else {
        comma_join(bufs.drop_last()) + seq![44u8] + bufs.last()
    }
}

/// The flush payload: a JSON array literal, the members' bytes spliced in
/// unchanged, comma-separated, bracketed by `[` (91) and `]` (93).
pub open spec fn payload_of(bufs: Seq<Seq<u8>>) -> Seq<u8> {
    seq![91u8] + comma_join(bufs) + seq![93u8]
}

/// The payload's byte length: the members' lengths, one comma between each
/// adjacent pair, and the two brackets.
pub proof fn lemma_payload_len(bufs: Seq<Seq<u8>>)
    ensures
        payload_of(bufs).len() == (if bufs.len() == 0 {
            2int
        } else {
            sum_lens(bufs) + (bufs.len() - 1) + 2
        }),
    decreases bufs.len(),
{
    if bufs.len() == 0 {
        assert(payload_of(bufs).len() == 2);
    } else if bufs.len() == 1 {
        assert(bufs.drop_last().len() == 0);
        assert(sum_lens(bufs.drop_last()) == 0);
        assert(sum_lens(bufs) == bufs[0].len());
        assert(comma_join(bufs) == bufs[0]);
        assert(payload_of(bufs).len() == bufs[0].len() + 2);
    } else {
        lemma_payload_len(bufs.drop_last());
        assert(comma_join(bufs) == comma_join(bufs.drop_last()) + seq![44u8] + bufs.last());
        assert(comma_join(bufs).len() == comma_join(bufs.drop_last()).len() + 1
            + bufs.last().len());
        assert(payload_of(bufs.drop_last()).len() == comma_join(bufs.drop_last()).len() + 2);
        assert(sum_lens(bufs) == sum_lens(bufs.drop_last()) + bufs.last().len());
        assert(payload_of(bufs).len() == comma_join(bufs).len() + 2);
    }
}

/// Serializes a batch: each record's pre-built bytes are spliced in without
/// re-parsing, separated by commas, bracketed as one JSON array.
pub fn write_events_json(events: &Vec<Vec<u8>>) -> (r: Vec<u8>)
    ensures
        r@ == payload_of(events@.map_values(|b: Vec<u8>| b@)),
{
    let ghost evs = events@.map_values(|b: Vec<u8>| b@);
    let mut out: Vec<u8> = Vec::new();
    out.push(91u8);
    let n = events.len();
    let mut i: usize = 0;
    proof {
        assert(out@ =~= seq![91u8] + comma_join(evs.take(0)));
    }
    while i < n
        invariant
            n == events@.len(),
            evs == events@.map_values(|b: Vec<u8>| b@),
            i <= n,
            out@ == seq![91u8] + comma_join(evs.take(i as int)),
        decreases n - i,
    {
        proof {
            assert(evs.take(i + 1).drop_last() =~= evs.take(i as int));
            assert(evs.take(i + 1).last() == evs[i as int]);
            assert(evs[i as int] == events@[i as int]@);
        }
        if i > 0 {
            out.push(44u8);
        }
        out.extend_from_slice(events[i].as_slice());
        i = i + 1;
        proof {
            if i == 1 {
                assert(out@ =~= seq![91u8] + comma_join(evs.take(1)));
            } else {
                assert(out@ =~= seq![91u8] + comma_join(evs.take(i as int)));
            }
        }
    }
    out.push(93u8);
    proof {
        assert(evs.take(n as int) =~= evs);
        assert(out@ =~= payload_of(evs));
    }
    out
}

/// The batch accumulator: the buffered serialized records, the arrival time
/// of the current batch's first record, and the configured bounds.
pub struct Batcher {
    pub buffer: Vec<Vec<u8>>,
    pub first_event_time: Option<u64>,
    pub max_size: usize,
    pub max_wait: u64,
}

/// Milliseconds until the wait window elapses: infinite (u64::MAX) for an
/// empty batch, zero once the window has passed.
pub open spec fn timeout_of(b: Batcher, now_ms: u64) -> u64 {
    match b.first_event_time {
        Some(t) => {
            let elapsed = if now_ms >= t {
                now_ms - t
            } else {
                0
            };
            if elapsed >= b.max_wait {
                0u64
            } else {
                (b.max_wait - elapsed) as u64
            }
        },
        None => u64::MAX,
    }
}

impl Batcher {
    /// A fresh, empty accumulator with the configured bounds.
    pub fn new(max_size: usize, max_wait: u64) -> (r: Batcher)
        ensures
            r.buffer@ == Seq::<Vec<u8>>::empty(),
            r.first_event_time is None,
            r.max_size == max_size,
            r.max_wait == max_wait,
    {
        let r = Batcher { buffer: Vec::new(), first_event_time: None, max_size, max_wait };
        proof {
            assert(r.buffer@ =~= Seq::<Vec<u8>>::empty());
        }
        r
    }

    /// Appends one record; the first record of a batch starts the wait
    /// window at its arrival time.
    pub fn handle_new_event(&mut self, event: Vec<u8>, now_ms: u64)
        ensures
            final(self).buffer@ == old(self).buffer@.push(event),
            final(self).first_event_time == (match old(self).first_event_time {
                Some(t) => Some(t),
                None => Some(now_ms),
            }),
            final(self).max_size == old(self).max_size,
            final(self).max_wait == old(self).max_wait,
    {
        if self.first_event_time.is_none() {
            self.first_event_time = Some(now_ms);
        }
        self.buffer.push(event);
    }

    /// Whether the size bound forces an immediate flush.
    pub fn should_flush(&self) -> (r: bool)
        ensures
            r == (self.buffer@.len() >= self.max_size),
    {
        self.buffer.len() >= self.max_size
    }

    /// Whether a batch is open (so the wait window is armed).
    pub fn has_events(&self) -> (r: bool)
        ensures
            r == (self.first_event_time is Some),
    {
        self.first_event_time.is_some()
    }

    /// How long the consumer may wait before a timer-driven flush: the rest
    /// of the wait window, zero when it has elapsed, effectively infinite
    /// while the batch is empty. Expects a clock that never runs backwards.
    pub fn calculate_timeout(&self, now_ms: u64) -> (r: u64)
        ensures
            r == timeout_of(*self, now_ms),
    {
        match self.first_event_time {
            Some(t) => {
                let elapsed = if now_ms >= t {
                    now_ms - t
                } else {
                    0
                };
                if elapsed >= self.max_wait {
                    0
                } else {
                    self.max_wait - elapsed
                }
            },
            None => u64::MAX,
        }
    }

    /// Clears the accumulator after a flush, whatever the delivery outcome:
    /// the buffer empties and the wait window disarms.
    pub fn reset(&mut self)
        ensures
            final(self).buffer@ == Seq::<Vec<u8>>::empty(),
            final(self).first_event_time is None,
            final(self).max_size == old(self).max_size,
            final(self).max_wait == old(self).max_wait,
    {
        self.first_event_time = None;
        self.buffer.clear();
    }
}

/// One outbound delivery, ready for the HTTP client: method, full URL, the
/// fixed headers, and the serialized array payload.
pub struct DeliveryRequest {
    pub method: String,
    pub url: String,
    pub headers: Vec<(String, String)>,
    pub body: Vec<u8>,
}

/// Builds the delivery for a batch: one POST to the events path under the
/// configured base URI, with the content-type and application-id headers
/// and the spliced array payload. An empty batch is never delivered.
pub fn build_batch_delivery(config: &Config, events: &Vec<Vec<u8>>) -> (r: Option<DeliveryRequest>)
    ensures
        r is Some <==> events@.len() > 0,
        r matches Some(d) ==> ({
            &&& d.method@ == "POST"@
            &&& d.url@ == config.env.base_uri@ + "/v1/events/batch"@
            &&& d.body@ == payload_of(events@.map_values(|b: Vec<u8>| b@))
            &&& d.headers@.len() == 2
            &&& d.headers@[0].0@ == "content-type"@
            &&& d.headers@[0].1@ == "application/json"@
            &&& d.headers@[1].0@ == "x-moesif-application-id"@
            &&& d.headers@[1].1@ == config.env.moesif_application_id@
        }),
{
    if events.is_empty() {
        return None;
    }
    let body = write_events_json(events);
    let url = config.env.base_uri.clone().concat("/v1/events/batch");
    let mut headers: Vec<(String, String)> = Vec::new();
    headers.push((String::from_str("content-type"), String::from_str("application/json")));
    headers.push(
        (String::from_str("x-moesif-application-id"), config.env.moesif_application_id.clone()),
    );
    Some(DeliveryRequest { method: String::from_str("POST"), url, headers, body })
}

} // verus!
