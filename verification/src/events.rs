//! Event envelopes and the per-stream sequence numbers they carry.
use vstd::prelude::*;
use crate::errors::{message_prefix, AppError, ErrorKind, IpcError, error_code, error_suggestion};
use crate::text::{cat, str_eq};

verus! {

/// One event as the interface receives it: a format version, its number within its stream,
/// when it was emitted (RFC 3339) and its payload.
#[derive(Debug, Clone)]
pub struct EventEnvelope<T> {
    pub event_version: u16,
    pub sequence: u64,
    pub emitted_at: String,
    pub payload: T,
}

impl<T> EventEnvelope<T> {
    pub fn new(sequence: u64, payload: T, emitted_at: String) -> (envelope: EventEnvelope<T>)
        ensures
            envelope.event_version == 1,
            envelope.sequence == sequence,
            envelope.emitted_at == emitted_at,
            envelope.payload == payload,
    {
        EventEnvelope { event_version: 1, sequence, emitted_at, payload }
    }
}

/// The last number given out on one stream of one event.
#[derive(Debug, Clone)]
pub struct StreamCounter {
    pub event: String,
    pub stream: String,
    pub last: u64,
}

pub open spec fn counter_is(c: StreamCounter, event: Seq<char>, stream: Seq<char>) -> bool {
    c.event@ == event && c.stream@ == stream
}

/// The last number of a stream: that of its newest counter, 0 when it has none.
pub open spec fn last_of(counters: Seq<StreamCounter>, event: Seq<char>, stream: Seq<char>) -> u64
    decreases counters.len(),
{
    if counters.len() == 0 {
        0
    } else if counter_is(counters.last(), event, stream) {
        counters.last().last
    } else {
        last_of(counters.drop_last(), event, stream)
    }
}

pub open spec fn saturating_inc(a: u64) -> u64 {
    if a == u64::MAX { a } else { (a + 1) as u64 }
}

/// Numbers events per stream so that the interface can drop stale or repeated deliveries.
pub struct EventStreams {
    counters: Vec<StreamCounter>,
}

impl EventStreams {
    /// The last number given out on a stream; 0 for a new or cleared stream.
    pub closed spec fn last(&self, event: Seq<char>, stream: Seq<char>) -> u64 {
        last_of(self.counters@, event, stream)
    }

    pub fn new() -> (streams: EventStreams)
        ensures
            forall|e: Seq<char>, s: Seq<char>| #[trigger] streams.last(e, s) == 0,
    {
        EventStreams { counters: Vec::new() }
    }

    /// The counters without those of one stream, and that stream's last number.
    fn without(&self, event: &str, stream: &str) -> (result: (Vec<StreamCounter>, u64))
        ensures
            result.1 == self.last(event@, stream@),
            forall|e: Seq<char>, s: Seq<char>| #[trigger] last_of(result.0@, e, s) == if e == event@ && s == stream@ {
                0
            } else {
                self.last(e, s)
            },
    {
        let mut kept: Vec<StreamCounter> = Vec::new();
        let mut found: u64 = 0;
        let mut i: usize = 0;
        while i < self.counters.len()
            invariant
                i <= self.counters@.len(),
                found == last_of(self.counters@.subrange(0, i as int), event@, stream@),
                forall|e: Seq<char>, s: Seq<char>| #[trigger] last_of(kept@, e, s) == if e == event@ && s == stream@ {
                    0
                } else {
                    last_of(self.counters@.subrange(0, i as int), e, s)
                },
            decreases self.counters@.len() - i,
        {
            let c = &self.counters[i];
            let ghost before = kept@;
            proof {
                assert(self.counters@.subrange(0, i + 1).drop_last() =~= self.counters@.subrange(0, i as int));
                assert(self.counters@.subrange(0, i + 1).last() == self.counters@[i as int]);
            }
            let ghost sub = self.counters@.subrange(0, i + 1);
            if str_eq(c.event.as_str(), event) && str_eq(c.stream.as_str(), stream) {
                found = c.last;
                assert forall|e: Seq<char>, s: Seq<char>| #[trigger] last_of(kept@, e, s) == if e == event@ && s == stream@ {
                    0
                } else {
                    last_of(sub, e, s)
                } by {
                    assert(sub.drop_last() =~= self.counters@.subrange(0, i as int));
                }
            } else {
                kept.push(StreamCounter { event: c.event.clone(), stream: c.stream.clone(), last: c.last });
                assert forall|e: Seq<char>, s: Seq<char>| #[trigger] last_of(kept@, e, s) == if e == event@ && s == stream@ {
                    0
                } else {
                    last_of(sub, e, s)
                } by {
                    assert(kept@.drop_last() =~= before);
                    assert(sub.drop_last() =~= self.counters@.subrange(0, i as int));
                    assert(kept@.last().event@ == sub.last().event@);
                    assert(kept@.last().stream@ == sub.last().stream@);
                    assert(kept@.last().last == sub.last().last);
                    assert(last_of(before, e, s) == if e == event@ && s == stream@ {
                        0
                    } else {
                        last_of(self.counters@.subrange(0, i as int), e, s)
                    });
                }
            }
            i += 1;
        }
        assert(self.counters@.subrange(0, self.counters@.len() as int) =~= self.counters@);
        (kept, found)
    }

    /// The next number on a stream: one more than the last (held at the maximum).
    pub fn next_sequence(&mut self, event: &str, stream: &str) -> (sequence: u64)
        ensures
            sequence == saturating_inc(old(self).last(event@, stream@)),
            final(self).last(event@, stream@) == sequence,
            forall|e: Seq<char>, s: Seq<char>| !(e == event@ && s == stream@) ==> #[trigger] final(self).last(e, s) == old(self).last(e, s),
    {
        let (mut kept, last) = self.without(event, stream);
        let next = if last == u64::MAX { last } else { last + 1 };
        let ghost before = kept@;
        kept.push(StreamCounter { event: event.to_owned(), stream: stream.to_owned(), last: next });
        let ghost k = kept@;
        assert(k.drop_last() =~= before);
        assert forall|e: Seq<char>, s: Seq<char>| !(e == event@ && s == stream@) implies #[trigger] last_of(k, e, s) == old(self).last(e, s) by {
            assert(last_of(before, e, s) == old(self).last(e, s));
        }
        self.counters = kept;
        next
    }

    /// Forgets a stream: its numbering starts again from 1.
    pub fn clear_stream(&mut self, event: &str, stream: &str)
        ensures
            final(self).last(event@, stream@) == 0,
            forall|e: Seq<char>, s: Seq<char>| !(e == event@ && s == stream@) ==> #[trigger] final(self).last(e, s) == old(self).last(e, s),
    {
        let (kept, _) = self.without(event, stream);
        self.counters = kept;
    }
}

/// The chat event streams of one job.
pub open spec fn chat_event_names() -> Seq<Seq<char>> {
    seq!["chat://token"@, "chat://usage"@, "chat://state-changed"@, "chat://context"@]
}

/// Forgets the token, usage, state and context streams of a chat job.
pub fn clear_event_streams(events: &mut EventStreams, job_id: &str)
    ensures
        forall|i: int| 0 <= i < 4 ==> #[trigger] final(events).last(chat_event_names()[i], job_id@) == 0,
        forall|e: Seq<char>, s: Seq<char>| !(s == job_id@ && chat_event_names().contains(e)) ==> #[trigger] final(events).last(e, s) == old(events).last(e, s),
{
    events.clear_stream("chat://token", job_id);
    events.clear_stream("chat://usage", job_id);
    events.clear_stream("chat://state-changed", job_id);
    events.clear_stream("chat://context", job_id);
    let ghost names = chat_event_names();
    assert(names[0] == "chat://token"@ && names[1] == "chat://usage"@ && names[2] == "chat://state-changed"@ && names[3] == "chat://context"@);
    assert forall|e: Seq<char>, s: Seq<char>| !(s == job_id@ && names.contains(e)) implies #[trigger] events.last(e, s) == old(events).last(e, s) by {
        if s == job_id@ {
            assert(e != names[0] && e != names[1] && e != names[2] && e != names[3]) by {
                if e == names[0] || e == names[1] || e == names[2] || e == names[3] {
                    assert(names.contains(e));
                }
            }
        }
    }
}

/// The error a background task reports when it stops before finishing.
pub fn task_error(detail: &str) -> (error: IpcError)
    ensures
        error.code@ == error_code(ErrorKind::Operation),
        error.message@ == message_prefix(ErrorKind::Operation) + "the background model task stopped unexpectedly: "@ + detail@,
        error.suggestion matches Some(s) && s@ == error_suggestion(ErrorKind::Operation),
{
    let e = AppError::Operation(cat("the background model task stopped unexpectedly: ", detail));
    IpcError::from_app_error(e)
}

/// The application's state as the interface first sees it.
#[derive(Debug, Clone)]
pub struct AppSnapshot {
    pub version: &'static str,
    pub database_ready: bool,
    pub first_run_complete: bool,
    pub running_engines: usize,
    pub active_jobs: usize,
}

impl AppSnapshot {
    /// A snapshot of a started application: its database is open and first-run setup is
    /// still offered.
    pub fn new(version: &'static str, running_engines: usize, active_jobs: usize) -> (snapshot: AppSnapshot)
        ensures
            snapshot.version@ == version@,
            snapshot.database_ready,
            !snapshot.first_run_complete,
            snapshot.running_engines == running_engines,
            snapshot.active_jobs == active_jobs,
    {
        AppSnapshot { version, database_ready: true, first_run_complete: false, running_engines, active_jobs }
    }
}

} // verus!
