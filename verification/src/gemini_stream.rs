//! The streaming transcoder for the grouped-content provider.
//!
//! Every event of this upstream is a whole answer document. The transcoder
//! has two states: it is chatting until an event names a finish reason, and
//! finished after. Like the transcoder of the flat-message kind it is driven
//! byte by byte, so that what it emits depends on the bytes alone.

use crate::emission::{
    emissions_view, emit, none_is_last, one_last_at_end, rendered, says, write_lines, ChunkOutput,
    Emission, EmissionView,
};
use crate::error::{AppError, AppErrorView};
use crate::gemini::{decode_gemini, GeminiResponse, GeminiResponseView};
use crate::json::{json_parse, parse};
use crate::message::Role;
use crate::sse::{decode_lossy, decoded, joined, payload_of, spec_payload_of, LINE_FEED};
use crate::upstream::{usage_or_zero, Usage};
use crate::view::opt_view;
use vstd::prelude::*;

verus! {

/// Where a streamed answer stands.
#[derive(Clone, Copy, Debug, PartialEq, Eq, Structural)]
pub enum ChatRespStatus {
    /// The answer is under way.
    Chatting,
    /// The answer is over.
    ChatFinished,
}

/// The model of a transcoder: its state, the bytes of the line that is not
/// complete yet, the usage of the last event that was read, as the last
/// frame reports it, and the failure that ended the stream, if one did.
pub struct TranscoderView {
    pub model: Seq<char>,
    pub status: ChatRespStatus,
    pub pending: Seq<u8>,
    pub usage: Option<Usage>,
    pub failure: Option<AppErrorView>,
}

impl TranscoderView {
    /// The transcoder before the first byte.
    pub open spec fn start(model: Seq<char>) -> TranscoderView {
        TranscoderView {
            model,
            status: ChatRespStatus::Chatting,
            pending: Seq::empty(),
            usage: None,
            failure: None,
        }
    }

    /// Whether the answer is over.
    pub open spec fn finished(self) -> bool {
        self.status == ChatRespStatus::ChatFinished
    }

    /// The transcoder once the answer is over.
    pub open spec fn end(self) -> TranscoderView {
        TranscoderView { status: ChatRespStatus::ChatFinished, pending: Seq::empty(), ..self }
    }

    /// The transcoder once the stream has failed.
    pub open spec fn fail(self, e: AppErrorView) -> TranscoderView {
        TranscoderView { failure: Some(e), ..self.end() }
    }
}

/// What one event of the upstream does to a transcoder: nothing once the
/// answer is over. An event without a candidate, or whose first candidate
/// has no part, fails the stream. Of any other event the usage is kept, and
/// the text of the first part of the first candidate is emitted in the name
/// of the assistant. Where the candidate names a finish reason, the last
/// frame follows with the counters of the usage, and the answer is over.
pub open spec fn spec_on_event(t: TranscoderView, resp: GeminiResponseView) -> (
    TranscoderView,
    Seq<EmissionView>,
) {
    if t.finished() {
        (t, Seq::empty())
    } else if resp.candidates.len() == 0 || resp.candidates[0].parts.len() == 0 {
        (t.fail(AppErrorView::EmptyChoices), Seq::empty())
    } else {
        let candidate = resp.candidates[0];
        let usage = resp.usage_metadata.spec_reported();
        let kept = TranscoderView { usage: Some(usage), ..t };
        let message = says(Role::Assistant, candidate.parts[0]);
        if candidate.finish_reason is None {
            (kept, seq![message])
        } else {
            (kept.end(), seq![message, EmissionView::Last(usage)])
        }
    }
}

/// What one complete line does to a transcoder that is not finished.
///
/// A line without the prefix `data: ` is passed over. The payload of any
/// other line must be the JSON document of an answer, which is then taken as
/// an event; a payload that is no such document fails the stream.
pub open spec fn on_line(t: TranscoderView, line: Seq<u8>) -> (TranscoderView, Seq<EmissionView>) {
    match spec_payload_of(line) {
        None => (t, Seq::empty()),
        Some(payload) => match json_parse(decoded(payload)) {
            None => (t.fail(AppErrorView::MalformedPayload), Seq::empty()),
            Some(doc) => match decode_gemini(doc) {
                None => (t.fail(AppErrorView::MalformedPayload), Seq::empty()),
                Some(resp) => spec_on_event(t, resp),
            },
        },
    }
}

/// What one byte does to a transcoder: nothing once the answer is over; a
/// line feed completes the pending line; any other byte joins it.
pub open spec fn feed_byte(t: TranscoderView, b: u8) -> (TranscoderView, Seq<EmissionView>) {
    if t.finished() {
        (t, Seq::empty())
    } else if b == LINE_FEED {
        on_line(TranscoderView { pending: Seq::empty(), ..t }, t.pending)
    } else {
        (TranscoderView { pending: t.pending.push(b), ..t }, Seq::empty())
    }
}

/// What a sequence of bytes does to a transcoder: the state after the last
/// byte and everything that was emitted on the way, in order.
pub open spec fn feed(t: TranscoderView, bytes: Seq<u8>) -> (TranscoderView, Seq<EmissionView>)
    decreases bytes.len(),
{
    if bytes.len() == 0 {
        (t, Seq::empty())
    } else {
        let (t1, e1) = feed(t, bytes.drop_last());
        let (t2, e2) = feed_byte(t1, bytes.last());
        (t2, e1 + e2)
    }
}

/// What the end of the input does to a transcoder: nothing once the answer
/// is over. Otherwise a pending line that has no line feed yet is read as a
/// line; where the answer is still under way after it, the last frame is
/// emitted with the usage of the last event, or zero, and the answer is
/// over. So every stream that does not fail ends with the last frame,
/// whether the upstream named a finish reason or not.
pub open spec fn close(t: TranscoderView) -> (TranscoderView, Seq<EmissionView>) {
    if t.finished() {
        (t, Seq::empty())
    } else {
        let (t1, e1) = on_line(TranscoderView { pending: Seq::empty(), ..t }, t.pending);
        if t1.finished() {
            (t1, e1)
        } else {
            (t1.end(), e1.push(EmissionView::Last(usage_or_zero(t1.usage))))
        }
    }
}

/// The transcoder of one streamed answer.
pub struct OllamaBytesState {
    status: ChatRespStatus,
    model_id: String,
    ins: std::time::Instant,
    pending: Vec<u8>,
    usage: Option<Usage>,
    failure: Option<AppError>,
}

impl View for OllamaBytesState {
    type V = TranscoderView;

    closed spec fn view(&self) -> TranscoderView {
        TranscoderView {
            model: self.model_id@,
            status: self.status,
            pending: self.pending@,
            usage: self.usage,
            failure: match self.failure {
                Some(e) => Some(e@),
                None => None,
            },
        }
    }
}

impl OllamaBytesState {
    /// The transcoder of an answer that begins now.
    pub fn new(model_id: String) -> (r: OllamaBytesState)
        ensures
            r@ == TranscoderView::start(model_id@),
    {
        OllamaBytesState {
            status: ChatRespStatus::Chatting,
            model_id,
            ins: std::time::Instant::now(),
            pending: Vec::new(),
            usage: None,
            failure: None,
        }
    }

    /// The state of the answer.
    pub fn status(&self) -> (r: ChatRespStatus)
        ensures
            r == self@.status,
    {
        self.status
    }

    /// Whether the answer is over.
    pub fn is_finished(&self) -> (r: bool)
        ensures
            r == self@.finished(),
    {
        match self.status {
            ChatRespStatus::ChatFinished => true,
            _ => false,
        }
    }

    /// The failure that ended the stream, if one did.
    pub fn failure(&self) -> (r: Option<AppError>)
        ensures
            opt_view(r) == self@.failure,
    {
        match &self.failure {
            Some(e) => Some(e.clone()),
            None => None,
        }
    }

    /// Ends the answer.
    fn end(&mut self)
        ensures
            final(self)@ == old(self)@.end(),
    {
        self.status = ChatRespStatus::ChatFinished;
        self.pending = Vec::new();
    }

    /// Fails the stream.
    fn fail(&mut self, e: AppError)
        ensures
            final(self)@ == old(self)@.fail(e@),
    {
        self.end();
        self.failure = Some(e);
    }

    /// Reads one complete line, as [`on_line`] says.
    fn handle_line(&mut self, line: &[u8], out: &mut Vec<Emission>)
        ensures
            final(self)@ == on_line(old(self)@, line@).0,
            emissions_view(final(out)@) == emissions_view(old(out)@) + on_line(old(self)@, line@).1,
    {
        let ghost before = emissions_view(out@);
        assert(before + Seq::<EmissionView>::empty() =~= before);
        let payload = match payload_of(line) {
            Some(p) => p,
            None => {
                return ;
            },
        };
        let text = decode_lossy(payload);
        let doc = match parse(text.as_str()) {
            Some(doc) => doc,
            None => {
                self.fail(AppError::MalformedPayload);
                return ;
            },
        };
        let resp = match GeminiResponse::from_json(&doc) {
            Some(resp) => resp,
            None => {
                self.fail(AppError::MalformedPayload);
                return ;
            },
        };
        self.on_event(&resp, out);
    }

    /// Takes one event of the upstream, as [`spec_on_event`] says: changes
    /// the state and adds to `out` what the event emits.
    pub fn on_event(&mut self, resp: &GeminiResponse, out: &mut Vec<Emission>)
        ensures
            final(self)@ == spec_on_event(old(self)@, resp@).0,
            emissions_view(final(out)@) == emissions_view(old(out)@) + spec_on_event(
                old(self)@,
                resp@,
            ).1,
    {
        let ghost before = emissions_view(out@);
        assert(before + Seq::<EmissionView>::empty() =~= before);
        if self.is_finished() {
            return ;
        }
        if resp.candidates.len() == 0 || resp.candidates[0].parts.len() == 0 {
            self.fail(AppError::EmptyChoices);
            return ;
        }
        let candidate = &resp.candidates[0];
        proof {
            assert(resp@.candidates[0] == candidate@);
            assert(candidate@.parts[0] == candidate.parts[0]@);
        }
        let usage = resp.usage_metadata.reported();
        let ghost message = says(Role::Assistant, candidate.parts[0]@);
        self.usage = Some(usage);
        emit(out, Role::Assistant, candidate.parts[0].clone());
        match &candidate.finish_reason {
            None => {
                assert(spec_on_event(old(self)@, resp@).1 == seq![message]);
                assert(emissions_view(out@) =~= before + seq![message]);
            },
            Some(_) => {
                let ghost mid = emissions_view(out@);
                out.push(Emission::Last(usage));
                assert(emissions_view(out@) =~= mid.push(EmissionView::Last(usage)));
                assert(spec_on_event(old(self)@, resp@).1 == seq![
                    message,
                    EmissionView::Last(usage),
                ]);
                assert(emissions_view(out@) =~= before + seq![message, EmissionView::Last(usage)]);
                self.end();
            },
        }
    }

    /// Takes the next bytes of the upstream and returns what they emit.
    ///
    /// The result and the new state are those of [`feed`]: they depend on the
    /// bytes seen so far, not on where the chunks were cut.
    pub fn advance(&mut self, chunk: &[u8]) -> (r: Vec<Emission>)
        ensures
            final(self)@ == feed(old(self)@, chunk@).0,
            emissions_view(r@) == feed(old(self)@, chunk@).1,
    {
        let mut out: Vec<Emission> = Vec::new();
        let mut i: usize = 0;
        assert(chunk@.take(0) =~= Seq::<u8>::empty());
        assert(emissions_view(out@) =~= Seq::<EmissionView>::empty());
        while i < chunk.len()
            invariant
                i <= chunk.len(),
                self@ == feed(old(self)@, chunk@.take(i as int)).0,
                emissions_view(out@) == feed(old(self)@, chunk@.take(i as int)).1,
            decreases chunk.len() - i,
        {
            let ghost e1 = emissions_view(out@);
            proof {
                assert(chunk@.take(i + 1).drop_last() =~= chunk@.take(i as int));
                assert(chunk@.take(i + 1).last() == chunk@[i as int]);
                assert(e1 + Seq::<EmissionView>::empty() =~= e1);
            }
            let b = chunk[i];
            if self.is_finished() {
            } else if b == LINE_FEED {
                let mut line: Vec<u8> = Vec::new();
                std::mem::swap(&mut line, &mut self.pending);
                self.handle_line(line.as_slice(), &mut out);
            } else {
                self.pending.push(b);
            }
            i += 1;
        }
        assert(chunk@.take(i as int) =~= chunk@);
        out
    }

    /// Ends the input, as [`close`] says: reads a pending line that has no
    /// line feed yet and, where the answer is still under way, ends it with
    /// the last frame. Returns what was emitted.
    pub fn finish(&mut self) -> (r: Vec<Emission>)
        ensures
            final(self)@ == close(old(self)@).0,
            emissions_view(r@) == close(old(self)@).1,
    {
        let mut out: Vec<Emission> = Vec::new();
        assert(emissions_view(out@) =~= Seq::<EmissionView>::empty());
        if !self.is_finished() {
            let mut line: Vec<u8> = Vec::new();
            std::mem::swap(&mut line, &mut self.pending);
            self.handle_line(line.as_slice(), &mut out);
            if !self.is_finished() {
                let usage = match self.usage {
                    Some(u) => u,
                    None => Usage::default(),
                };
                let ghost emitted = emissions_view(out@);
                out.push(Emission::Last(usage));
                assert(emissions_view(out@) =~= emitted.push(EmissionView::Last(usage)));
                self.end();
            }
            assert(emissions_view(out@) =~= close(old(self)@).1);
        }
        out
    }

    /// Writes emissions as lines of output, each stamped with the wall clock
    /// and with the milliseconds since the answer began, plus one.
    pub fn write_lines(&self, es: &Vec<Emission>) -> (r: Vec<u8>)
        ensures
            exists|stamps: Seq<(Seq<char>, u32)>|
                stamps.len() == es.len() && r@ == #[trigger] rendered(
                    self@.model,
                    emissions_view(es@),
                    stamps,
                ),
    {
        let r = write_lines(self.model_id.as_str(), &self.ins, es, 1);
        proof {
            let stamps = choose|stamps: Seq<(Seq<char>, u32)>|
                stamps.len() == es.len() && r@ == #[trigger] rendered(
                    self.model_id@,
                    emissions_view(es@),
                    stamps,
                );
            assert(r@ == rendered(self@.model, emissions_view(es@), stamps));
        }
        r
    }

    /// Ends the input, as [`close`] says, and returns the bytes to send: the
    /// lines of what a pending line emits and, where the answer was still
    /// under way, the line of the last frame.
    pub fn finish_msg(&mut self) -> (r: ChunkOutput)
        ensures
            final(self)@ == close(old(self)@).0,
            exists|stamps: Seq<(Seq<char>, u32)>|
                stamps.len() == close(old(self)@).1.len() && r.bytes@ == #[trigger] rendered(
                    old(self)@.model,
                    close(old(self)@).1,
                    stamps,
                ),
            old(self)@.failure is Some ==> r.error is None,
            old(self)@.failure is None ==> opt_view(r.error) == final(self)@.failure,
    {
        let failed_before = self.failure.is_some();
        let es = self.finish();
        let bytes = self.write_lines(&es);
        let error = if failed_before {
            None
        } else {
            self.failure()
        };
        ChunkOutput { bytes, error }
    }

    /// Takes the next chunk of the upstream and returns the bytes to send.
    ///
    /// The state moves as [`feed`] says. The bytes are the lines of what was
    /// emitted, each a frame in JSON followed by a line feed. Where the chunk
    /// fails the stream, the lines emitted before the failure are still
    /// returned, together with the failure.
    pub fn process_msg(&mut self, chunk: &[u8]) -> (r: ChunkOutput)
        ensures
            final(self)@ == feed(old(self)@, chunk@).0,
            exists|stamps: Seq<(Seq<char>, u32)>|
                stamps.len() == feed(old(self)@, chunk@).1.len() && r.bytes@ == #[trigger] rendered(
                    old(self)@.model,
                    feed(old(self)@, chunk@).1,
                    stamps,
                ),
            old(self)@.failure is Some ==> r.error is None,
            old(self)@.failure is None ==> opt_view(r.error) == final(self)@.failure,
    {
        let failed_before = self.failure.is_some();
        let es = self.advance(chunk);
        proof {
            lemma_feed_keeps_model(old(self)@, chunk@);
        }
        let bytes = self.write_lines(&es);
        let error = if failed_before {
            None
        } else {
            self.failure()
        };
        ChunkOutput { bytes, error }
    }
}

/// The model's name never changes.
pub proof fn lemma_feed_keeps_model(t: TranscoderView, bytes: Seq<u8>)
    ensures
        feed(t, bytes).0.model == t.model,
    decreases bytes.len(),
{
    if bytes.len() > 0 {
        lemma_feed_keeps_model(t, bytes.drop_last());
    }
}

/// Feeding two runs of bytes one after the other is feeding them at once:
/// the state is the same and what is emitted is the same, in the same order.
pub proof fn lemma_feed_concat(t: TranscoderView, a: Seq<u8>, b: Seq<u8>)
    ensures
        feed(t, a + b).0 == feed(feed(t, a).0, b).0,
        feed(t, a + b).1 == feed(t, a).1 + feed(feed(t, a).0, b).1,
    decreases b.len(),
{
    let (t1, e1) = feed(t, a);
    if b.len() == 0 {
        assert(a + b =~= a);
        assert(e1 + Seq::<EmissionView>::empty() =~= e1);
    } else {
        lemma_feed_concat(t, a, b.drop_last());
        assert((a + b).drop_last() =~= a + b.drop_last());
        assert((a + b).last() == b.last());
        let (t2, e2) = feed(t1, b.drop_last());
        let (t3, e3) = feed_byte(t2, b.last());
        assert((e1 + e2) + e3 =~= e1 + (e2 + e3));
    }
}

/// A line either ends the answer with one last emission behind a message,
/// or fails the stream and emits nothing, or emits a message and leaves the
/// answer open.
pub proof fn lemma_line_outcome(t: TranscoderView, line: Seq<u8>)
    requires
        !t.finished(),
        t.failure is None,
    ensures
        ({
            let (t2, es) = on_line(t, line);
            if t2.finished() && t2.failure is None {
                one_last_at_end(es)
            } else {
                none_is_last(es)
            }
        }),
{
    let (t2, es) = on_line(t, line);
    if t2.finished() && t2.failure is None {
        assert(es.len() == 2);
        assert(es.drop_last() =~= seq![es[0]]);
    }
}

/// Every answer that does not fail ends with exactly one last frame: from
/// the first byte to the end of the input, whatever the upstream sent and
/// whether or not it named a finish reason, exactly one emission ends the
/// answer and nothing follows it. An answer that fails has none.
pub proof fn lemma_one_last_frame_in_answer(model: Seq<char>, bytes: Seq<u8>)
    ensures
        ({
            let (t1, e1) = feed(TranscoderView::start(model), bytes);
            let (t2, e2) = close(t1);
            &&& t2.finished()
            &&& t2.failure is None ==> one_last_at_end(e1 + e2)
            &&& t2.failure is Some ==> none_is_last(e1 + e2)
        }),
{
    let t = TranscoderView::start(model);
    lemma_one_last_frame(t, bytes);
    let (t1, e1) = feed(t, bytes);
    let (t2, e2) = close(t1);
    if t1.finished() {
        assert(e1 + e2 =~= e1);
    } else {
        let t1c = TranscoderView { pending: Seq::empty(), ..t1 };
        lemma_line_outcome(t1c, t1.pending);
        let (t3, e3) = on_line(t1c, t1.pending);
        if t2.failure is None {
            assert((e1 + e2).drop_last() =~= e1 + e2.drop_last());
            assert((e1 + e2).last() == e2.last());
            if !t3.finished() {
                assert(e2.drop_last() =~= e3);
            }
        }
    }
}

/// Of all that a transcoder emits for any bytes, at most one emission ends
/// the answer, and nothing follows it. Exactly one does where the answer
/// reached its end without a failure, and none does otherwise.
pub proof fn lemma_one_last_frame(t: TranscoderView, bytes: Seq<u8>)
    requires
        !t.finished(),
        t.failure is None,
    ensures
        ({
            let (t2, es) = feed(t, bytes);
            &&& (t2.failure is None && t2.finished()) ==> one_last_at_end(es)
            &&& !(t2.failure is None && t2.finished()) ==> none_is_last(es)
            &&& !t2.finished() ==> t2.failure is None
        }),
    decreases bytes.len(),
{
    if bytes.len() > 0 {
        lemma_one_last_frame(t, bytes.drop_last());
        let (t1, e1) = feed(t, bytes.drop_last());
        let (t2, e2) = feed_byte(t1, bytes.last());
        if t1.finished() {
            assert(e1 + e2 =~= e1);
        } else if bytes.last() == LINE_FEED {
            let t1c = TranscoderView { pending: Seq::empty(), ..t1 };
            lemma_line_outcome(t1c, t1.pending);
            if t2.finished() && t2.failure is None {
                assert((e1 + e2).drop_last() =~= e1 + e2.drop_last());
                assert((e1 + e2).last() == e2.last());
            }
        } else {
            assert(e1 + e2 =~= e1);
        }
    }
}

/// What a sequence of chunks does to a transcoder, fed one chunk at a time.
pub open spec fn feed_all(t: TranscoderView, chunks: Seq<Seq<u8>>) -> (
    TranscoderView,
    Seq<EmissionView>,
)
    decreases chunks.len(),
{
    if chunks.len() == 0 {
        (t, Seq::empty())
    } else {
        let (t1, e1) = feed_all(t, chunks.drop_last());
        let (t2, e2) = feed(t1, chunks.last());
        (t2, e1 + e2)
    }
}

/// Where the upstream cuts its chunks does not matter: feeding the chunks one
/// by one gives the state and the emissions of feeding all their bytes at
/// once.
pub proof fn lemma_chunking_is_immaterial(t: TranscoderView, chunks: Seq<Seq<u8>>)
    ensures
        feed_all(t, chunks) == feed(t, joined(chunks)),
    decreases chunks.len(),
{
    if chunks.len() > 0 {
        lemma_chunking_is_immaterial(t, chunks.drop_last());
        lemma_feed_concat(t, joined(chunks.drop_last()), chunks.last());
    }
}

/// Once the answer is over, nothing is emitted and nothing changes.
pub proof fn lemma_finished_is_silent(t: TranscoderView, bytes: Seq<u8>)
    requires
        t.finished(),
    ensures
        feed(t, bytes) == (t, Seq::<EmissionView>::empty()),
        close(t) == (t, Seq::<EmissionView>::empty()),
    decreases bytes.len(),
{
    if bytes.len() > 0 {
        lemma_finished_is_silent(t, bytes.drop_last());
        assert(Seq::<EmissionView>::empty() + Seq::<EmissionView>::empty() =~= Seq::<
            EmissionView,
        >::empty());
    }
}

/// An answer whose upstream ends at once is the last frame alone, with a
/// usage of zero.
pub proof fn lemma_empty_answer_is_the_last_frame(model: Seq<char>)
    ensures
        close(TranscoderView::start(model)) == (
            TranscoderView::start(model).end(),
            seq![EmissionView::Last(Usage::zero())],
        ),
{
    let t = TranscoderView::start(model);
    assert(spec_payload_of(t.pending) is None);
    assert(TranscoderView { pending: Seq::empty(), ..t } == t);
    assert(Seq::<EmissionView>::empty().push(EmissionView::Last(Usage::zero())) =~= seq![
        EmissionView::Last(Usage::zero()),
    ]);
}

} // verus!
