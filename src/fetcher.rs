//! The state machine of one segment fetcher. The runtime performs each action
//! (a request, a read, a write) and reports what came of it; the fetcher
//! decides what comes next: read on, retry within the budget, finish or fail.

use vstd::prelude::*;
use crate::segments::Segment;

verus! {

/// Where a fetcher stands.
#[derive(Debug, Clone, Copy, PartialEq, Eq, Structural)]
pub enum FetchPhase {
    /// About to issue a request.
    Connecting,
    /// Reading the response body.
    Streaming,
    /// The segment is downloaded.
    Done,
    /// The segment failed for good.
    Failed,
}

/// A transient fault, retried within the budget.
#[derive(Debug, Clone, Copy, PartialEq, Eq, Structural)]
pub enum Fault {
    Network,
    Timeout,
    Stream,
    Write,
    EarlyEnd,
}

/// Why a fetcher failed for good.
#[derive(Debug, Clone, Copy, PartialEq, Eq, Structural)]
pub enum FetchError {
    /// The server answered with a non-success status.
    BadStatus,
    /// The retry budget ran out on this fault; the whole job is to be cancelled.
    Exhausted(Fault),
}

/// What came of a request.
#[derive(Debug, Clone, Copy, PartialEq, Eq, Structural)]
pub enum Response {
    /// A success status: the body can be read.
    Opened,
    /// A non-success status.
    BadStatus,
    /// The request did not get through.
    NetworkError,
}

/// What came of waiting for the next chunk of the body.
#[derive(Debug, Clone, Copy, PartialEq, Eq, Structural)]
pub enum ChunkEvent {
    /// A chunk of this many bytes.
    Data(u64),
    /// No chunk within the read timeout.
    Timeout,
    /// The body stream reported an error.
    StreamError,
    /// The body ended.
    End,
}

/// What the runtime is to do next.
#[derive(Debug, Clone, Copy, PartialEq, Eq, Structural)]
pub enum FetchAction {
    /// Issue a GET; with `ranged`, ask for the bytes `from..=to`. Write the body
    /// into the destination from offset `from` on.
    Request { from: u64, to: u64, ranged: bool },
    /// Wait for the next chunk.
    Read,
    /// Write the first `take` bytes of the chunk, then report it.
    Write { take: u64 },
    /// Begin a new attempt; with `reset`, the job's byte counter restarts at zero.
    Retry { reset: bool },
    /// The segment is complete.
    Done,
    /// The segment failed.
    Fail(FetchError),
}

/// One fetcher of the inclusive range `[start, end]`.
#[derive(Debug, Clone, Copy)]
pub struct SegmentFetcher {
    pub index: u64,
    pub start: u64,
    pub end: u64,
    /// The total size is known, so the segment has a length.
    pub sized: bool,
    /// The fetcher covers the whole file on its own.
    pub single: bool,
    /// The server serves byte ranges.
    pub ranged: bool,
    /// Retries allowed.
    pub retries: u8,
    /// Number of the current attempt, from 1.
    pub attempt: u16,
    /// Bytes of the segment written so far.
    pub progress: u64,
    pub phase: FetchPhase,
}

impl SegmentFetcher {
    /// Bytes in the segment.
    pub open spec fn len(&self) -> int {
        self.end - self.start + 1
    }

    /// Every byte of a sized segment is written.
    pub open spec fn complete(&self) -> bool {
        self.sized && self.progress >= self.len()
    }

    /// The fetcher is consistent: the range is ordered, a sized segment never
    /// gets more bytes than it has, a fetcher without ranges covers the file
    /// from its start, and the attempt count stays within the budget.
    pub open spec fn wf(&self) -> bool {
        &&& self.start <= self.end
        &&& self.start + self.progress <= u64::MAX
        &&& self.sized ==> self.progress <= self.len()
        &&& !self.ranged ==> self.single && self.start == 0
        &&& 1 <= self.attempt <= self.retries as int + 1
        &&& self.phase == FetchPhase::Done ==> (self.complete() || self.single)
    }

    /// The fetcher after a transient fault: the same fetcher with one more
    /// attempt, restarting from the segment's start when ranges are not served.
    pub open spec fn after_fault(&self) -> SegmentFetcher {
        SegmentFetcher {
            attempt: (self.attempt + 1) as u16,
            progress: if self.ranged { self.progress } else { 0 },
            phase: FetchPhase::Connecting,
            ..*self
        }
    }

    /// How much of an `n`-byte chunk belongs to the segment: all of it,
    /// except what lies beyond the end of a sized segment.
    pub open spec fn take_of(&self, n: u64) -> u64 {
        if self.sized && n > self.len() - self.progress {
            (self.len() - self.progress) as u64
        } else {
            n
        }
    }

    /// The budget is spent: the current attempt is beyond the retries allowed.
    pub open spec fn exhausted(&self) -> bool {
        self.attempt > self.retries
    }

    /// A fetcher of `seg`, in a job whose total size is known when
    /// `total_known`, with `retries` retries allowed.
    pub fn new(seg: Segment, total_known: bool, single: bool, ranged: bool, retries: u8) -> (r: SegmentFetcher)
        requires
            seg.start <= seg.end,
            !ranged ==> single && seg.start == 0,
        ensures
            r == (SegmentFetcher {
                index: seg.index,
                start: seg.start,
                end: seg.end,
                sized: total_known,
                single,
                ranged,
                retries,
                attempt: 1,
                progress: 0,
                phase: FetchPhase::Connecting,
            }),
            r.wf(),
    {
        SegmentFetcher {
            index: seg.index,
            start: seg.start,
            end: seg.end,
            sized: total_known,
            single,
            ranged,
            retries,
            attempt: 1,
            progress: 0,
            phase: FetchPhase::Connecting,
        }
    }

    /// A transient fault: retry while the budget lasts, else fail for good.
    fn fault(&mut self, f: Fault) -> (a: FetchAction)
        requires
            old(self).wf(),
        ensures
            old(self).exhausted() ==> *final(self) == (SegmentFetcher { phase: FetchPhase::Failed, ..*old(self) })
                && a == FetchAction::Fail(FetchError::Exhausted(f)),
            !old(self).exhausted() ==> *final(self) == old(self).after_fault()
                && a == (FetchAction::Retry { reset: !old(self).ranged }),
            final(self).wf(),
            old(self).ranged ==> final(self).progress >= old(self).progress,
    {
        if self.attempt > self.retries as u16 {
            self.phase = FetchPhase::Failed;
            return FetchAction::Fail(FetchError::Exhausted(f));
        }
        self.attempt = self.attempt + 1;
        if !self.ranged {
            self.progress = 0;
        }
        self.phase = FetchPhase::Connecting;
        FetchAction::Retry { reset: !self.ranged }
    }

    /// Starts an attempt: a complete segment is done; otherwise a request for
    /// the bytes not yet written (the whole file without ranges).
    pub fn begin(&mut self) -> (a: FetchAction)
        requires
            old(self).wf(),
            old(self).phase == FetchPhase::Connecting,
        ensures
            old(self).complete() ==> *final(self) == (SegmentFetcher { phase: FetchPhase::Done, ..*old(self) })
                && a == FetchAction::Done,
            !old(self).complete() ==> *final(self) == *old(self) && a == (FetchAction::Request {
                from: (old(self).start + old(self).progress) as u64,
                to: old(self).end,
                ranged: old(self).ranged,
            }),
            final(self).wf(),
            old(self).ranged ==> final(self).progress >= old(self).progress,
    {
        if self.sized && self.progress > self.end - self.start {
            self.phase = FetchPhase::Done;
            return FetchAction::Done;
        }
        FetchAction::Request { from: self.start + self.progress, to: self.end, ranged: self.ranged }
    }

    /// What came of the request: read the body, fail on a bad status, or
    /// handle a network error as a transient fault.
    pub fn on_response(&mut self, resp: Response) -> (a: FetchAction)
        requires
            old(self).wf(),
            old(self).phase == FetchPhase::Connecting,
        ensures
            resp == Response::Opened ==> *final(self) == (SegmentFetcher { phase: FetchPhase::Streaming, ..*old(self) })
                && a == FetchAction::Read,
            resp == Response::BadStatus ==> *final(self) == (SegmentFetcher { phase: FetchPhase::Failed, ..*old(self) })
                && a == FetchAction::Fail(FetchError::BadStatus),
            resp == Response::NetworkError ==> (if old(self).exhausted() {
                *final(self) == (SegmentFetcher { phase: FetchPhase::Failed, ..*old(self) })
                    && a == FetchAction::Fail(FetchError::Exhausted(Fault::Network))
            } else {
                *final(self) == old(self).after_fault() && a == (FetchAction::Retry { reset: !old(self).ranged })
            }),
            final(self).wf(),
            old(self).ranged ==> final(self).progress >= old(self).progress,
    {
        match resp {
            Response::Opened => {
                self.phase = FetchPhase::Streaming;
                FetchAction::Read
            },
            Response::BadStatus => {
                self.phase = FetchPhase::Failed;
                FetchAction::Fail(FetchError::BadStatus)
            },
            Response::NetworkError => self.fault(Fault::Network),
        }
    }

    /// What came of waiting for a chunk. An empty chunk is skipped; a chunk is
    /// written up to the end of a sized segment; the end of the body finishes a
    /// single fetcher or a complete segment and is a fault otherwise; a timeout
    /// or a stream error is a fault.
    pub fn on_chunk(&mut self, ev: ChunkEvent) -> (a: FetchAction)
        requires
            old(self).wf(),
            old(self).phase == FetchPhase::Streaming,
            !old(self).complete(),
        ensures
            ev == ChunkEvent::Data(0) ==> *final(self) == *old(self) && a == FetchAction::Read,
            (ev is Data && ev->Data_0 > 0) ==> *final(self) == *old(self)
                && a == (FetchAction::Write { take: old(self).take_of(ev->Data_0) }),
            ev == ChunkEvent::End && old(self).single ==> *final(self) == (SegmentFetcher { phase: FetchPhase::Done, ..*old(self) })
                && a == FetchAction::Done,
            (ev == ChunkEvent::Timeout || ev == ChunkEvent::StreamError || (ev == ChunkEvent::End && !old(self).single)) ==> {
                let f = match ev { ChunkEvent::Timeout => Fault::Timeout, ChunkEvent::StreamError => Fault::Stream, _ => Fault::EarlyEnd };
                if old(self).exhausted() {
                    *final(self) == (SegmentFetcher { phase: FetchPhase::Failed, ..*old(self) })
                        && a == FetchAction::Fail(FetchError::Exhausted(f))
                } else {
                    *final(self) == old(self).after_fault() && a == (FetchAction::Retry { reset: !old(self).ranged })
                }
            },
            final(self).wf(),
            old(self).ranged ==> final(self).progress >= old(self).progress,
    {
        match ev {
            ChunkEvent::Data(n) => {
                if n == 0 {
                    return FetchAction::Read;
                }
                let take = if self.sized && n - 1 > self.end - self.start - self.progress {
                    self.end - self.start - self.progress + 1
                } else {
                    n
                };
                FetchAction::Write { take }
            },
            ChunkEvent::Timeout => self.fault(Fault::Timeout),
            ChunkEvent::StreamError => self.fault(Fault::Stream),
            ChunkEvent::End => {
                if self.single {
                    self.phase = FetchPhase::Done;
                    FetchAction::Done
                } else {
                    self.fault(Fault::EarlyEnd)
                }
            },
        }
    }

    /// `n` bytes were written at offset `start + progress` and credited to
    /// the job: done once the segment is complete, else read on.
    pub fn on_written(&mut self, n: u64) -> (a: FetchAction)
        requires
            old(self).wf(),
            old(self).phase == FetchPhase::Streaming,
            old(self).sized ==> old(self).progress + n <= old(self).len(),
            old(self).start + old(self).progress + n <= u64::MAX,
        ensures
            final(self).progress == old(self).progress + n,
            final(self).complete() ==> *final(self) == (SegmentFetcher {
                progress: (old(self).progress + n) as u64,
                phase: FetchPhase::Done,
                ..*old(self)
            }) && a == FetchAction::Done,
            !final(self).complete() ==> *final(self) == (SegmentFetcher {
                progress: (old(self).progress + n) as u64,
                ..*old(self)
            }) && a == FetchAction::Read,
            final(self).wf(),
            old(self).ranged ==> final(self).progress >= old(self).progress,
    {
        self.progress = self.progress + n;
        if self.sized && self.progress > self.end - self.start {
            self.phase = FetchPhase::Done;
            return FetchAction::Done;
        }
        FetchAction::Read
    }

    /// A write failed: a transient fault.
    pub fn on_write_error(&mut self) -> (a: FetchAction)
        requires
            old(self).wf(),
            old(self).phase == FetchPhase::Streaming,
        ensures
            old(self).exhausted() ==> *final(self) == (SegmentFetcher { phase: FetchPhase::Failed, ..*old(self) })
                && a == FetchAction::Fail(FetchError::Exhausted(Fault::Write)),
            !old(self).exhausted() ==> *final(self) == old(self).after_fault()
                && a == (FetchAction::Retry { reset: !old(self).ranged }),
            final(self).wf(),
            old(self).ranged ==> final(self).progress >= old(self).progress,
    {
        self.fault(Fault::Write)
    }
}

} // verus!
