//! The pump between an upstream and a transcoder: what is to be done before
//! each read of the upstream, and what is handed on after it.
//!
//! The pump reads the upstream once for each item that it hands on. A
//! failure of the transcoder comes after the bytes of the chunk that caused
//! it, as an item of its own, and nothing comes after a failure.

use crate::emission::ChunkOutput;
use crate::error::{AppError, AppErrorView};
use crate::view::opt_view;
use vstd::prelude::*;

verus! {

/// The state of a pump: a failure that is still to be handed on, and whether
/// the stream is over.
#[derive(Debug, PartialEq, Eq)]
pub struct Pump {
    pub queued: Option<AppError>,
    pub closed: bool,
}

/// The model of a [`Pump`].
pub struct PumpView {
    pub queued: Option<AppErrorView>,
    pub closed: bool,
}

impl View for Pump {
    type V = PumpView;

    open spec fn view(&self) -> PumpView {
        PumpView { queued: opt_view(self.queued), closed: self.closed }
    }
}

/// What is to be done before a read.
#[derive(Debug, PartialEq, Eq)]
pub enum Next {
    /// Hand this failure on; the stream is over after it.
    Fail(AppError),
    /// The stream is over.
    Stop,
    /// Read the upstream.
    Read,
}

/// The model of a [`Next`].
pub enum NextView {
    Fail(AppErrorView),
    Stop,
    Read,
}

impl View for Next {
    type V = NextView;

    open spec fn view(&self) -> NextView {
        match self {
            Next::Fail(e) => NextView::Fail(e@),
            Next::Stop => NextView::Stop,
            Next::Read => NextView::Read,
        }
    }
}

/// What came of a read.
#[derive(Debug, PartialEq, Eq)]
pub enum Arrival {
    /// A chunk came, and the transcoder made this of it.
    Chunk(ChunkOutput),
    /// The read failed.
    Broken,
    /// The upstream ended, and the transcoder made this of the end.
    End(ChunkOutput),
}

/// The model of an [`Arrival`].
pub enum ArrivalView {
    Chunk { bytes: Seq<u8>, error: Option<AppErrorView> },
    Broken,
    End { bytes: Seq<u8>, error: Option<AppErrorView> },
}

impl View for Arrival {
    type V = ArrivalView;

    open spec fn view(&self) -> ArrivalView {
        match self {
            Arrival::Chunk(out) => ArrivalView::Chunk {
                bytes: out.bytes@,
                error: opt_view(out.error),
            },
            Arrival::Broken => ArrivalView::Broken,
            Arrival::End(out) => ArrivalView::End { bytes: out.bytes@, error: opt_view(out.error) },
        }
    }
}

/// What is handed on after a read.
#[derive(Debug, PartialEq, Eq)]
pub enum Delivery {
    /// Hand these bytes on.
    Bytes(Vec<u8>),
    /// Hand the failure of the read on; the stream is over after it.
    Broken,
    /// The stream is over, and there is nothing to hand on.
    Nothing,
}

/// The model of a [`Delivery`].
pub enum DeliveryView {
    Bytes(Seq<u8>),
    Broken,
    Nothing,
}

impl View for Delivery {
    type V = DeliveryView;

    open spec fn view(&self) -> DeliveryView {
        match self {
            Delivery::Bytes(b) => DeliveryView::Bytes(b@),
            Delivery::Broken => DeliveryView::Broken,
            Delivery::Nothing => DeliveryView::Nothing,
        }
    }
}

impl PumpView {
    /// The pump before the first read.
    pub open spec fn start() -> PumpView {
        PumpView { queued: None, closed: false }
    }

    /// What is to be done before a read, and the pump after the decision. A
    /// failure that is still to be handed on comes first, and the stream is
    /// over with it. Otherwise the stream is over where it was over before
    /// or where the transcoder has finished the answer; and otherwise the
    /// upstream is read.
    pub open spec fn next(self, finished: bool) -> (PumpView, NextView) {
        match self.queued {
            Some(e) => (PumpView { queued: None, closed: true }, NextView::Fail(e)),
            None => if self.closed || finished {
                (PumpView { queued: None, closed: true }, NextView::Stop)
            } else {
                (self, NextView::Read)
            },
        }
    }

    /// What is handed on after a read, and the pump after it. The bytes of a
    /// chunk are handed on, also where there are none, and a failure of the
    /// transcoder is kept to come next. A read that failed is handed on as
    /// such, and the stream is over. At the end of the upstream the stream
    /// is over: the bytes of the end are handed on and a failure is kept to
    /// come next, or, where there is neither, nothing is handed on.
    pub open spec fn deliver(self, arrival: ArrivalView) -> (PumpView, DeliveryView) {
        match arrival {
            ArrivalView::Chunk { bytes, error } => (
                PumpView { queued: error, closed: self.closed },
                DeliveryView::Bytes(bytes),
            ),
            ArrivalView::Broken => (PumpView { queued: None, closed: true }, DeliveryView::Broken),
            ArrivalView::End { bytes, error } => (
                PumpView { queued: error, closed: true },
                if bytes.len() == 0 && error is None {
                    DeliveryView::Nothing
                } else {
                    DeliveryView::Bytes(bytes)
                },
            ),
        }
    }
}

impl Pump {
    /// The pump before the first read.
    pub fn new() -> (r: Pump)
        ensures
            r@ == PumpView::start(),
    {
        Pump { queued: None, closed: false }
    }

    /// Decides what is to be done before a read, as [`PumpView::next`] says.
    /// `finished` says whether the transcoder has finished the answer.
    pub fn next(&mut self, finished: bool) -> (r: Next)
        ensures
            final(self)@ == old(self)@.next(finished).0,
            r@ == old(self)@.next(finished).1,
    {
        let mut queued: Option<AppError> = None;
        std::mem::swap(&mut queued, &mut self.queued);
        match queued {
            Some(e) => {
                self.closed = true;
                Next::Fail(e)
            },
            None => {
                if self.closed || finished {
                    self.closed = true;
                    Next::Stop
                } else {
                    Next::Read
                }
            },
        }
    }

    /// Decides what is handed on after a read, as [`PumpView::deliver`]
    /// says.
    pub fn deliver(&mut self, arrival: Arrival) -> (r: Delivery)
        ensures
            final(self)@ == old(self)@.deliver(arrival@).0,
            r@ == old(self)@.deliver(arrival@).1,
    {
        match arrival {
            Arrival::Chunk(out) => {
                self.queued = out.error;
                Delivery::Bytes(out.bytes)
            },
            Arrival::Broken => {
                self.queued = None;
                self.closed = true;
                Delivery::Broken
            },
            Arrival::End(out) => {
                let nothing = out.bytes.len() == 0 && out.error.is_none();
                self.queued = out.error;
                self.closed = true;
                if nothing {
                    Delivery::Nothing
                } else {
                    Delivery::Bytes(out.bytes)
                }
            },
        }
    }
}

/// Nothing comes after a failure: once a failure was handed on, or a read
/// failed, or the stream was over, every later decision is to stop.
pub proof fn lemma_nothing_follows_a_failure(p: PumpView, finished: bool, later: bool)
    ensures
        p.next(finished).1 is Fail || p.next(finished).1 is Stop ==> p.next(finished).0.next(
            later,
        ) == (p.next(finished).0, NextView::Stop),
        p.deliver(ArrivalView::Broken).0.next(later).1 is Stop,
{
}

/// A failure of the transcoder comes right after the bytes of its chunk:
/// where a chunk fails the stream, its bytes are handed on first, the
/// failure is the next thing handed on, and the stream is over.
pub proof fn lemma_failure_follows_its_chunk(
    p: PumpView,
    bytes: Seq<u8>,
    e: AppErrorView,
    finished: bool,
)
    ensures
        ({
            let (p1, d) = p.deliver(ArrivalView::Chunk { bytes, error: Some(e) });
            &&& d == DeliveryView::Bytes(bytes)
            &&& p1.next(finished).1 == NextView::Fail(e)
            &&& p1.next(finished).0.closed
        }),
{
}

/// The end of the upstream ends the stream: whatever the transcoder made of
/// the end, after it is handed on the pump reads no more.
pub proof fn lemma_end_ends_the_stream(
    p: PumpView,
    bytes: Seq<u8>,
    error: Option<AppErrorView>,
    finished: bool,
)
    ensures
        !(p.deliver(ArrivalView::End { bytes, error }).0.next(finished).1 is Read),
{
}

} // verus!
