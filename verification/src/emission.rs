//! What a transcoder emits, and how emissions are written as lines of
//! newline-delimited JSON.

use crate::clock::{elapsed_millis, timestamp_now};
use crate::error::AppError;
use crate::message::{frame_text, FrameView, OllamaChatResponse, RespMessage, RespMessageView, Role};
use crate::sse::LINE_FEED;
use crate::upstream::Usage;
use vstd::prelude::*;

verus! {

/// What a transcoder returns for a chunk: the bytes to send, and the failure
/// that ended the stream in this chunk, if one did.
#[derive(Debug, PartialEq, Eq)]
pub struct ChunkOutput {
    pub bytes: Vec<u8>,
    pub error: Option<AppError>,
}

/// What the transcoder emits: a message, or the end of the answer with the
/// usage that the last frame reports.
#[derive(Debug, PartialEq, Eq)]
pub enum Emission {
    Message(RespMessage),
    Last(Usage),
}

/// The model of an [`Emission`].
pub enum EmissionView {
    Message(RespMessageView),
    Last(Usage),
}

impl View for Emission {
    type V = EmissionView;

    open spec fn view(&self) -> EmissionView {
        match self {
            Emission::Message(m) => EmissionView::Message(m@),
            Emission::Last(u) => EmissionView::Last(*u),
        }
    }
}

/// The models of a sequence of emissions.
pub open spec fn emissions_view(es: Seq<Emission>) -> Seq<EmissionView> {
    Seq::new(es.len(), |i: int| es[i]@)
}

/// The message that carries `content` in the name of `role`.
pub open spec fn says(role: Role, content: Seq<char>) -> EmissionView {
    EmissionView::Message(RespMessageView::plain(role, content))
}

/// Adds a message to what was emitted.
pub fn emit(out: &mut Vec<Emission>, role: Role, content: String)
    ensures
        emissions_view(final(out)@) == emissions_view(old(out)@).push(says(role, content@)),
{
    out.push(Emission::Message(RespMessage::plain(role, content)));
    assert(emissions_view(out@) =~= emissions_view(old(out)@).push(says(role, content@)));
}

/// No emission of the sequence ends the answer.
pub open spec fn none_is_last(es: Seq<EmissionView>) -> bool {
    forall|i: int| 0 <= i < es.len() ==> !((#[trigger] es[i]) is Last)
}

/// Exactly one emission of the sequence ends the answer, and it is the last.
pub open spec fn one_last_at_end(es: Seq<EmissionView>) -> bool {
    &&& es.len() > 0
    &&& es.last() is Last
    &&& none_is_last(es.drop_last())
}

/// The frame that an emission becomes, given the stamp of the wall clock and
/// the milliseconds since the answer began.
pub open spec fn emission_frame(
    model: Seq<char>,
    e: EmissionView,
    created_at: Seq<char>,
    elapsed: u32,
) -> FrameView {
    match e {
        EmissionView::Message(m) => FrameView::delta(model, m, created_at),
        EmissionView::Last(usage) => FrameView::last(model, None, usage, elapsed, created_at),
    }
}

/// The bytes of one line of output: the text of a frame in UTF-8, and a line
/// feed.
pub open spec fn frame_line(f: FrameView) -> Seq<u8> {
    vstd::utf8::encode_utf8(frame_text(f)).push(LINE_FEED)
}

/// The bytes that a sequence of emissions makes on the wire, where
/// `stamps[i]` holds the stamp and the elapsed milliseconds that were read
/// for the emission `i`.
pub open spec fn rendered(
    model: Seq<char>,
    es: Seq<EmissionView>,
    stamps: Seq<(Seq<char>, u32)>,
) -> Seq<u8>
    decreases es.len(),
{
    if es.len() == 0 {
        Seq::empty()
    } else {
        rendered(model, es.drop_last(), stamps.drop_last()) + frame_line(
            emission_frame(model, es.last(), stamps.last().0, stamps.last().1),
        )
    }
}

/// The line of one emission of an answer of `model_id`, stamped with the
/// given time.
pub fn render_emission(model_id: &str, e: &Emission, created_at: String, elapsed: u32) -> (r:
    String)
    ensures
        r@ == frame_text(emission_frame(model_id@, e@, created_at@, elapsed)),
{
    let frame = match e {
        Emission::Message(m) => OllamaChatResponse::delta(model_id, m.clone(), created_at),
        Emission::Last(usage) => OllamaChatResponse::last(
            model_id,
            None,
            usage,
            elapsed,
            created_at,
        ),
    };
    frame.to_line()
}

/// Writes emissions as lines of output, each stamped with the wall clock
/// and with the milliseconds since `since` plus `extra`, as read when the
/// line is written.
pub fn write_lines(
    model_id: &str,
    since: &std::time::Instant,
    es: &Vec<Emission>,
    extra: u32,
) -> (r: Vec<u8>)
    ensures
        exists|stamps: Seq<(Seq<char>, u32)>|
            stamps.len() == es.len() && r@ == #[trigger] rendered(
                model_id@,
                emissions_view(es@),
                stamps,
            ),
{
    let mut out: Vec<u8> = Vec::new();
    let ghost mut stamps: Seq<(Seq<char>, u32)> = Seq::empty();
    let ghost all = emissions_view(es@);
    let mut i: usize = 0;
    assert(all.take(0) =~= Seq::<EmissionView>::empty());
    while i < es.len()
        invariant
            i <= es.len(),
            all == emissions_view(es@),
            stamps.len() == i,
            out@ == rendered(model_id@, all.take(i as int), stamps),
        decreases es.len() - i,
    {
        let created_at = timestamp_now();
        let elapsed = elapsed_millis(since).wrapping_add(extra);
        let ghost stamp = (created_at@, elapsed);
        let line = render_emission(model_id, &es[i], created_at, elapsed);
        let ghost old_out = out@;
        let bytes = line.as_str().as_bytes();
        let mut k: usize = 0;
        while k < bytes.len()
            invariant
                k <= bytes.len(),
                out@ == old_out + bytes@.take(k as int),
            decreases bytes.len() - k,
        {
            out.push(bytes[k]);
            assert(bytes@.take(k + 1) =~= bytes@.take(k as int).push(bytes@[k as int]));
            k += 1;
        }
        out.push(LINE_FEED);
        proof {
            assert(bytes@.take(k as int) =~= bytes@);
            let next = stamps.push(stamp);
            assert(all.take(i + 1).drop_last() =~= all.take(i as int));
            assert(next.drop_last() =~= stamps);
            assert(all.take(i + 1).last() == es@[i as int]@);
            assert(out@ =~= old_out + frame_line(
                emission_frame(model_id@, all[i as int], stamp.0, stamp.1),
            ));
            stamps = next;
        }
        i += 1;
    }
    assert(all.take(i as int) =~= all);
    out
}


} // verus!
