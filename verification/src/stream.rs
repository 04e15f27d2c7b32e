//! The streaming transcoder for upstreams of the flat-message kind.
//!
//! The upstream sends server-sent events in chunks that do not respect line
//! boundaries. The transcoder is a state machine driven byte by byte: it
//! gathers the bytes of a line, and at each line feed it reads the line as an
//! event and emits the frames that the event calls for. What it emits
//! therefore depends on the bytes alone, never on how they were cut into
//! chunks.

use crate::emission::{
    emissions_view, emit, none_is_last, one_last_at_end, rendered, says, write_lines, ChunkOutput,
    Emission, EmissionView,
};
use crate::error::{AppError, AppErrorView};
use crate::json::{json_parse, parse};
use crate::message::Role;
use crate::sse::{
    data_prefix, decode_lossy, decoded, done_bytes, is_done_marker, joined,
    lemma_done_bytes_are_the_marker, payload_of, spec_is_done_marker, spec_payload_of, LINE_FEED,
};
use crate::text::{
    contains, from_chars, lemma_strip_leading, occurs, occurs_at, strip_all, to_chars, without,
};
use crate::upstream::{
    decode_response, reasoning_of, usage_or_zero, ApiResponse, ApiResponseView, Delta, DeltaView,
    Usage,
};
use crate::view::opt_view;
use vstd::prelude::*;

verus! {

/// Where a streamed answer stands.
#[derive(Clone, Copy, Debug, PartialEq, Eq, Structural)]
pub enum ChatRespStatus {
    /// Nothing was emitted yet.
    Init,
    /// The upstream is sending its reasoning in the side channel.
    ReasoningThinking,
    /// The upstream is sending its reasoning inline, behind `<think>`.
    ContentThinking,
    /// The reasoning is over, or there was none.
    ThinkFinished,
    /// The answer is over.
    ChatFinished,
}

/// A think marker, followed by the rest of the content where there is any.
pub open spec fn marker_then(marker: Seq<char>, role: Role, rest: Seq<char>) -> Seq<EmissionView> {
    if rest.len() > 0 {
        seq![says(Role::Assistant, marker), says(role, rest)]
    } else {
        seq![says(Role::Assistant, marker)]
    }
}

/// One transition of the state machine: the next state and what is emitted
/// for one delta.
pub open spec fn spec_step(status: ChatRespStatus, d: DeltaView) -> (ChatRespStatus, Seq<
    EmissionView,
>) {
    match status {
        ChatRespStatus::Init => {
            if occurs(d.content, "<think>"@) {
                (
                    ChatRespStatus::ContentThinking,
                    marker_then("<think>"@, d.role, strip_all(d.content, "<think>"@)),
                )
            } else if reasoning_of(d) is Some {
                (
                    ChatRespStatus::ReasoningThinking,
                    seq![says(Role::Assistant, "<think>"@), says(d.role, reasoning_of(d)->Some_0)],
                )
            } else if d.content.len() > 0 {
                (ChatRespStatus::ThinkFinished, Seq::empty())
            } else {
                (ChatRespStatus::Init, Seq::empty())
            }
        },
        ChatRespStatus::ContentThinking => {
            if occurs(d.content, "</think>"@) {
                (
                    ChatRespStatus::ThinkFinished,
                    marker_then("</think>"@, d.role, strip_all(d.content, "</think>"@)),
                )
            } else {
                (ChatRespStatus::ContentThinking, seq![says(d.role, d.content)])
            }
        },
        ChatRespStatus::ReasoningThinking => {
            if d.content.len() > 0 || d.reasoning_content is None {
                (ChatRespStatus::ThinkFinished, marker_then("</think>"@, d.role, d.content))
            } else {
                (
                    ChatRespStatus::ReasoningThinking,
                    seq![says(d.role, d.reasoning_content->Some_0)],
                )
            }
        },
        ChatRespStatus::ThinkFinished => (
            ChatRespStatus::ThinkFinished,
            seq![says(d.role, d.content)],
        ),
        ChatRespStatus::ChatFinished => (ChatRespStatus::ChatFinished, Seq::empty()),
    }
}

/// Adds a think marker to what was emitted, and the rest of the content
/// behind it where there is any.
fn emit_marker_then(out: &mut Vec<Emission>, marker: &str, role: Role, rest: String)
    ensures
        emissions_view(final(out)@) == emissions_view(old(out)@) + marker_then(
            marker@,
            role,
            rest@,
        ),
{
    let ghost before = emissions_view(out@);
    emit(out, Role::Assistant, marker.to_owned());
    if !rest.as_str().is_empty() {
        emit(out, role, rest);
    }
    assert(emissions_view(out@) =~= before + marker_then(marker@, role, rest@));
}

/// Makes one transition of the state machine: returns the next state and
/// adds to `out` what is emitted for the delta.
pub fn step(status: ChatRespStatus, delta: &Delta, out: &mut Vec<Emission>) -> (next:
    ChatRespStatus)
    ensures
        next == spec_step(status, delta@).0,
        emissions_view(final(out)@) == emissions_view(old(out)@) + spec_step(status, delta@).1,
{
    let ghost before = emissions_view(out@);
    assert(before + Seq::<EmissionView>::empty() =~= before);
    match status {
        ChatRespStatus::Init => {
            let content = to_chars(delta.content.as_str());
            let open = to_chars("<think>");
            proof {
                reveal_strlit("<think>");
            }
            if contains(content.as_slice(), open.as_slice()) {
                let rest = without(content.as_slice(), open.as_slice());
                emit_marker_then(out, "<think>", delta.role, from_chars(rest.as_slice()));
                return ChatRespStatus::ContentThinking;
            }
            match &delta.reasoning_content {
                Some(r) => {
                    if !r.as_str().is_empty() {
                        emit(out, Role::Assistant, "<think>".to_owned());
                        emit(out, delta.role, r.clone());
                        assert(emissions_view(out@) =~= before + spec_step(status, delta@).1);
                        return ChatRespStatus::ReasoningThinking;
                    }
                },
                None => {},
            }
            if !delta.content.as_str().is_empty() {
                ChatRespStatus::ThinkFinished
            } else {
                ChatRespStatus::Init
            }
        },
        ChatRespStatus::ContentThinking => {
            let content = to_chars(delta.content.as_str());
            let close = to_chars("</think>");
            proof {
                reveal_strlit("</think>");
            }
            if contains(content.as_slice(), close.as_slice()) {
                let rest = without(content.as_slice(), close.as_slice());
                emit_marker_then(out, "</think>", delta.role, from_chars(rest.as_slice()));
                ChatRespStatus::ThinkFinished
            } else {
                emit(out, delta.role, delta.content.clone());
                assert(emissions_view(out@) =~= before + spec_step(status, delta@).1);
                ChatRespStatus::ContentThinking
            }
        },
        ChatRespStatus::ReasoningThinking => {
            match &delta.reasoning_content {
                Some(r) => {
                    if delta.content.as_str().is_empty() {
                        emit(out, delta.role, r.clone());
                        assert(emissions_view(out@) =~= before + spec_step(status, delta@).1);
                        return ChatRespStatus::ReasoningThinking;
                    }
                },
                None => {},
            }
            emit_marker_then(out, "</think>", delta.role, delta.content.clone());
            ChatRespStatus::ThinkFinished
        },
        ChatRespStatus::ThinkFinished => {
            emit(out, delta.role, delta.content.clone());
            assert(emissions_view(out@) =~= before + spec_step(status, delta@).1);
            ChatRespStatus::ThinkFinished
        },
        ChatRespStatus::ChatFinished => ChatRespStatus::ChatFinished,
    }
}

/// The model of a transcoder: its state, the bytes of the line that is not
/// complete yet, the usage of the last event that was read, and the failure
/// that ended the stream, if one did.
pub struct TranscoderView {
    pub model: Seq<char>,
    pub status: ChatRespStatus,
    pub pending: Seq<u8>,
    pub usage: Option<Usage>,
    pub failure: Option<AppErrorView>,
}

impl TranscoderView {
    /// The transcoder before the first byte.
    pub open spec fn start(model: Seq<char>) -> TranscoderView {
        TranscoderView {
            model,
            status: ChatRespStatus::Init,
            pending: Seq::empty(),
            usage: None,
            failure: None,
        }
    }

    /// Whether the answer is over.
    pub open spec fn finished(self) -> bool {
        self.status == ChatRespStatus::ChatFinished
    }

    /// The transcoder once the answer is over.
    pub open spec fn end(self) -> TranscoderView {
        TranscoderView { status: ChatRespStatus::ChatFinished, pending: Seq::empty(), ..self }
    }

    /// The transcoder once the stream has failed.
    pub open spec fn fail(self, e: AppErrorView) -> TranscoderView {
        TranscoderView { failure: Some(e), ..self.end() }
    }
}

/// What one event of the upstream does to a transcoder: nothing once the
/// answer is over; an event without a choice fails the stream; of any other
/// event the delta of the first choice makes one transition, and the usage
/// of the event is kept.
pub open spec fn spec_on_event(t: TranscoderView, resp: ApiResponseView) -> (
    TranscoderView,
    Seq<EmissionView>,
) {
    if t.finished() {
        (t, Seq::empty())
    } else if resp.choices.len() == 0 {
        (t.fail(AppErrorView::EmptyChoices), Seq::empty())
    } else {
        let (status, emitted) = spec_step(t.status, resp.choices[0].delta);
        (TranscoderView { status, usage: resp.usage, ..t }, emitted)
    }
}

/// What one complete line does to a transcoder that is not finished.
///
/// A line without the prefix `data: ` is passed over. A payload that is
/// `[DONE]` between white space ends the answer with the last frame.
/// Any other payload must be the JSON document of an answer, which is then
/// taken as an event. A payload that is no such document fails the stream.
pub open spec fn on_line(t: TranscoderView, line: Seq<u8>) -> (TranscoderView, Seq<EmissionView>) {
    match spec_payload_of(line) {
        None => (t, Seq::empty()),
        Some(payload) => {
            let text = decoded(payload);
            if spec_is_done_marker(text) {
                (t.end(), seq![EmissionView::Last(usage_or_zero(t.usage))])
            } else {
                match json_parse(text) {
                    None => (t.fail(AppErrorView::MalformedPayload), Seq::empty()),
                    Some(doc) => match decode_response(doc) {
                        None => (t.fail(AppErrorView::MalformedPayload), Seq::empty()),
                        Some(resp) => spec_on_event(t, resp),
                    },
                }
            }
        },
    }
}

/// What one byte does to a transcoder: nothing once the answer is over; a
/// line feed completes the pending line; any other byte joins it.
pub open spec fn feed_byte(t: TranscoderView, b: u8) -> (TranscoderView, Seq<EmissionView>) {
    if t.finished() {
        (t, Seq::empty())
    } else if b == LINE_FEED {
        on_line(TranscoderView { pending: Seq::empty(), ..t }, t.pending)
    } else {
        (TranscoderView { pending: t.pending.push(b), ..t }, Seq::empty())
    }
}

/// What a sequence of bytes does to a transcoder: the state after the last
/// byte and everything that was emitted on the way, in order.
pub open spec fn feed(t: TranscoderView, bytes: Seq<u8>) -> (TranscoderView, Seq<EmissionView>)
    decreases bytes.len(),
{
    if bytes.len() == 0 {
        (t, Seq::empty())
    } else {
        let (t1, e1) = feed(t, bytes.drop_last());
        let (t2, e2) = feed_byte(t1, bytes.last());
        (t2, e1 + e2)
    }
}

/// What the end of the input does to a transcoder: nothing once the answer
/// is over. Otherwise a pending line that has no line feed yet is read as a
/// line; where the answer is still under way after it, the last frame is
/// emitted with the usage of the last event, or zero, and the answer is
/// over. So every stream that does not fail ends with the last frame,
/// whether the upstream sent its marker or not.
pub open spec fn close(t: TranscoderView) -> (TranscoderView, Seq<EmissionView>) {
    if t.finished() {
        (t, Seq::empty())
    } else {
        let (t1, e1) = on_line(TranscoderView { pending: Seq::empty(), ..t }, t.pending);
        if t1.finished() {
            (t1, e1)
        } else {
            (t1.end(), e1.push(EmissionView::Last(usage_or_zero(t1.usage))))
        }
    }
}

/// The transcoder of one streamed answer.
pub struct OllamaBytesState {
    status: ChatRespStatus,
    model_id: String,
    ins: std::time::Instant,
    pending: Vec<u8>,
    usage: Option<Usage>,
    failure: Option<AppError>,
}

impl View for OllamaBytesState {
    type V = TranscoderView;

    closed spec fn view(&self) -> TranscoderView {
        TranscoderView {
            model: self.model_id@,
            status: self.status,
            pending: self.pending@,
            usage: self.usage,
            failure: match self.failure {
                Some(e) => Some(e@),
                None => None,
            },
        }
    }
}

impl OllamaBytesState {
    /// The transcoder of an answer that begins now.
    pub fn new(model_id: String) -> (r: OllamaBytesState)
        ensures
            r@ == TranscoderView::start(model_id@),
    {
        OllamaBytesState {
            status: ChatRespStatus::Init,
            model_id,
            ins: std::time::Instant::now(),
            pending: Vec::new(),
            usage: None,
            failure: None,
        }
    }

    /// The state of the answer.
    pub fn status(&self) -> (r: ChatRespStatus)
        ensures
            r == self@.status,
    {
        self.status
    }

    /// Whether the answer is over.
    pub fn is_finished(&self) -> (r: bool)
        ensures
            r == self@.finished(),
    {
        match self.status {
            ChatRespStatus::ChatFinished => true,
            _ => false,
        }
    }

    /// The failure that ended the stream, if one did.
    pub fn failure(&self) -> (r: Option<AppError>)
        ensures
            opt_view(r) == self@.failure,
    {
        match &self.failure {
            Some(e) => Some(e.clone()),
            None => None,
        }
    }

    /// Ends the answer.
    fn end(&mut self)
        ensures
            final(self)@ == old(self)@.end(),
    {
        self.status = ChatRespStatus::ChatFinished;
        self.pending = Vec::new();
    }

    /// Fails the stream.
    fn fail(&mut self, e: AppError)
        ensures
            final(self)@ == old(self)@.fail(e@),
    {
        self.end();
        self.failure = Some(e);
    }

    /// Reads one complete line, as [`on_line`] says.
    fn handle_line(&mut self, line: &[u8], out: &mut Vec<Emission>)
        ensures
            final(self)@ == on_line(old(self)@, line@).0,
            emissions_view(final(out)@) == emissions_view(old(out)@) + on_line(old(self)@, line@).1,
    {
        let ghost before = emissions_view(out@);
        assert(before + Seq::<EmissionView>::empty() =~= before);
        let payload = match payload_of(line) {
            Some(p) => p,
            None => {
                return ;
            },
        };
        let text = decode_lossy(payload);
        if is_done_marker(text.as_str()) {
            let usage = match self.usage {
                Some(u) => u,
                None => Usage::default(),
            };
            out.push(Emission::Last(usage));
            assert(emissions_view(out@) =~= before + seq![EmissionView::Last(usage)]);
            self.end();
            return ;
        }
        let doc = match parse(text.as_str()) {
            Some(doc) => doc,
            None => {
                self.fail(AppError::MalformedPayload);
                return ;
            },
        };
        let resp = match ApiResponse::from_json(&doc) {
            Some(resp) => resp,
            None => {
                self.fail(AppError::MalformedPayload);
                return ;
            },
        };
        self.on_event(&resp, out);
    }

    /// Takes one event of the upstream, as [`spec_on_event`] says: changes
    /// the state and adds to `out` what the event emits.
    pub fn on_event(&mut self, resp: &ApiResponse, out: &mut Vec<Emission>)
        ensures
            final(self)@ == spec_on_event(old(self)@, resp@).0,
            emissions_view(final(out)@) == emissions_view(old(out)@) + spec_on_event(
                old(self)@,
                resp@,
            ).1,
    {
        let ghost before = emissions_view(out@);
        assert(before + Seq::<EmissionView>::empty() =~= before);
        if self.is_finished() {
            return ;
        }
        if resp.choices.len() == 0 {
            self.fail(AppError::EmptyChoices);
            return ;
        }
        let next = step(self.status, &resp.choices[0].delta, out);
        self.status = next;
        self.usage = resp.usage;
    }

    /// Takes the next bytes of the upstream and returns what they emit.
    ///
    /// The result and the new state are those of [`feed`]: they depend on the
    /// bytes seen so far, not on where the chunks were cut.
    pub fn advance(&mut self, chunk: &[u8]) -> (r: Vec<Emission>)
        ensures
            final(self)@ == feed(old(self)@, chunk@).0,
            emissions_view(r@) == feed(old(self)@, chunk@).1,
    {
        let mut out: Vec<Emission> = Vec::new();
        let mut i: usize = 0;
        assert(chunk@.take(0) =~= Seq::<u8>::empty());
        assert(emissions_view(out@) =~= Seq::<EmissionView>::empty());
        while i < chunk.len()
            invariant
                i <= chunk.len(),
                self@ == feed(old(self)@, chunk@.take(i as int)).0,
                emissions_view(out@) == feed(old(self)@, chunk@.take(i as int)).1,
            decreases chunk.len() - i,
        {
            let ghost t1 = self@;
            let ghost e1 = emissions_view(out@);
            proof {
                assert(chunk@.take(i + 1).drop_last() =~= chunk@.take(i as int));
                assert(chunk@.take(i + 1).last() == chunk@[i as int]);
                assert(e1 + Seq::<EmissionView>::empty() =~= e1);
            }
            let b = chunk[i];
            if self.is_finished() {
            } else if b == LINE_FEED {
                let mut line: Vec<u8> = Vec::new();
                std::mem::swap(&mut line, &mut self.pending);
                self.handle_line(line.as_slice(), &mut out);
            } else {
                self.pending.push(b);
            }
            i += 1;
        }
        assert(chunk@.take(i as int) =~= chunk@);
        out
    }

    /// Ends the input, as [`close`] says: reads a pending line that has no
    /// line feed yet and, where the answer is still under way, ends it with
    /// the last frame. Returns what was emitted.
    pub fn finish(&mut self) -> (r: Vec<Emission>)
        ensures
            final(self)@ == close(old(self)@).0,
            emissions_view(r@) == close(old(self)@).1,
    {
        let mut out: Vec<Emission> = Vec::new();
        assert(emissions_view(out@) =~= Seq::<EmissionView>::empty());
        if !self.is_finished() {
            let mut line: Vec<u8> = Vec::new();
            std::mem::swap(&mut line, &mut self.pending);
            self.handle_line(line.as_slice(), &mut out);
            if !self.is_finished() {
                let usage = match self.usage {
                    Some(u) => u,
                    None => Usage::default(),
                };
                let ghost emitted = emissions_view(out@);
                out.push(Emission::Last(usage));
                assert(emissions_view(out@) =~= emitted.push(EmissionView::Last(usage)));
                self.end();
            }
            assert(emissions_view(out@) =~= close(old(self)@).1);
        }
        out
    }

    /// Ends the input, as [`close`] says, and returns the bytes to send: the
    /// lines of what a pending line emits and, where the answer was still
    /// under way, the line of the last frame.
    pub fn finish_msg(&mut self) -> (r: ChunkOutput)
        ensures
            final(self)@ == close(old(self)@).0,
            exists|stamps: Seq<(Seq<char>, u32)>|
                stamps.len() == close(old(self)@).1.len() && r.bytes@ == #[trigger] rendered(
                    old(self)@.model,
                    close(old(self)@).1,
                    stamps,
                ),
            old(self)@.failure is Some ==> r.error is None,
            old(self)@.failure is None ==> opt_view(r.error) == final(self)@.failure,
    {
        let failed_before = self.failure.is_some();
        let es = self.finish();
        let bytes = write_lines(self.model_id.as_str(), &self.ins, &es, 0);
        let error = if failed_before {
            None
        } else {
            self.failure()
        };
        ChunkOutput { bytes, error }
    }

    /// Takes the next chunk of the upstream and returns the bytes to send.
    ///
    /// The state moves as [`feed`] says. The bytes are the lines of what was
    /// emitted, each a frame in JSON followed by a line feed. Where the chunk
    /// fails the stream, the lines emitted before the failure are still
    /// returned, together with the failure.
    pub fn process_msg(&mut self, chunk: &[u8]) -> (r: ChunkOutput)
        ensures
            final(self)@ == feed(old(self)@, chunk@).0,
            exists|stamps: Seq<(Seq<char>, u32)>|
                stamps.len() == feed(old(self)@, chunk@).1.len() && r.bytes@ == #[trigger] rendered(
                    old(self)@.model,
                    feed(old(self)@, chunk@).1,
                    stamps,
                ),
            old(self)@.failure is Some ==> r.error is None,
            old(self)@.failure is None ==> opt_view(r.error) == final(self)@.failure,
    {
        let failed_before = self.failure.is_some();
        let es = self.advance(chunk);
        proof {
            lemma_feed_keeps_model(old(self)@, chunk@);
        }
        let bytes = write_lines(self.model_id.as_str(), &self.ins, &es, 0);
        let error = if failed_before {
            None
        } else {
            self.failure()
        };
        ChunkOutput { bytes, error }
    }
}

/// The model's name never changes.
pub proof fn lemma_feed_keeps_model(t: TranscoderView, bytes: Seq<u8>)
    ensures
        feed(t, bytes).0.model == t.model,
    decreases bytes.len(),
{
    if bytes.len() > 0 {
        lemma_feed_keeps_model(t, bytes.drop_last());
    }
}

/// Feeding two runs of bytes one after the other is feeding them at once:
/// the state is the same and what is emitted is the same, in the same order.
pub proof fn lemma_feed_concat(t: TranscoderView, a: Seq<u8>, b: Seq<u8>)
    ensures
        feed(t, a + b).0 == feed(feed(t, a).0, b).0,
        feed(t, a + b).1 == feed(t, a).1 + feed(feed(t, a).0, b).1,
    decreases b.len(),
{
    let (t1, e1) = feed(t, a);
    if b.len() == 0 {
        assert(a + b =~= a);
        assert(e1 + Seq::<EmissionView>::empty() =~= e1);
    } else {
        lemma_feed_concat(t, a, b.drop_last());
        assert((a + b).drop_last() =~= a + b.drop_last());
        assert((a + b).last() == b.last());
        let (t2, e2) = feed(t1, b.drop_last());
        let (t3, e3) = feed_byte(t2, b.last());
        assert((e1 + e2) + e3 =~= e1 + (e2 + e3));
    }
}

/// What a sequence of chunks does to a transcoder, fed one chunk at a time.
pub open spec fn feed_all(t: TranscoderView, chunks: Seq<Seq<u8>>) -> (
    TranscoderView,
    Seq<EmissionView>,
)
    decreases chunks.len(),
{
    if chunks.len() == 0 {
        (t, Seq::empty())
    } else {
        let (t1, e1) = feed_all(t, chunks.drop_last());
        let (t2, e2) = feed(t1, chunks.last());
        (t2, e1 + e2)
    }
}

/// Where the upstream cuts its chunks does not matter: feeding the chunks one
/// by one gives the state and the emissions of feeding all their bytes at
/// once.
pub proof fn lemma_chunking_is_immaterial(t: TranscoderView, chunks: Seq<Seq<u8>>)
    ensures
        feed_all(t, chunks) == feed(t, joined(chunks)),
    decreases chunks.len(),
{
    if chunks.len() > 0 {
        lemma_chunking_is_immaterial(t, chunks.drop_last());
        lemma_feed_concat(t, joined(chunks.drop_last()), chunks.last());
    }
}

/// Two transcoders in the same state that are fed the same chunks end in the
/// same state and emit the same; with the same clock readings they write the
/// same bytes.
pub proof fn lemma_transcoding_is_deterministic(
    a: TranscoderView,
    b: TranscoderView,
    chunks: Seq<Seq<u8>>,
    stamps: Seq<(Seq<char>, u32)>,
)
    requires
        a == b,
    ensures
        feed_all(a, chunks) == feed_all(b, chunks),
        rendered(a.model, feed_all(a, chunks).1, stamps) == rendered(
            b.model,
            feed_all(b, chunks).1,
            stamps,
        ),
{
}

/// A transition emits messages only.
pub proof fn lemma_step_emits_messages(status: ChatRespStatus, d: DeltaView)
    ensures
        none_is_last(spec_step(status, d).1),
        status != ChatRespStatus::ChatFinished ==> spec_step(status, d).0
            != ChatRespStatus::ChatFinished,
{
}

/// A line either ends the answer with one last emission, or fails the stream
/// and emits nothing, or emits messages only and leaves the answer open.
pub proof fn lemma_line_outcome(t: TranscoderView, line: Seq<u8>)
    requires
        !t.finished(),
        t.failure is None,
    ensures
        ({
            let (t2, es) = on_line(t, line);
            if t2.finished() && t2.failure is None {
                one_last_at_end(es)
            } else {
                none_is_last(es)
            }
        }),
{
    let (t2, es) = on_line(t, line);
    match spec_payload_of(line) {
        None => {},
        Some(payload) => {
            let text = decoded(payload);
            if spec_is_done_marker(text) {
                assert(es.drop_last() =~= Seq::<EmissionView>::empty());
            } else {
                match json_parse(text) {
                    None => {},
                    Some(doc) => match decode_response(doc) {
                        None => {},
                        Some(resp) => {
                            if resp.choices.len() > 0 {
                                lemma_step_emits_messages(t.status, resp.choices[0].delta);
                            }
                        },
                    },
                }
            }
        },
    }
}

/// Of all that a transcoder emits for any bytes, at most one emission ends
/// the answer, and nothing follows it. Exactly one does where the answer
/// reached its end without a failure, and none does otherwise.
pub proof fn lemma_one_last_frame(t: TranscoderView, bytes: Seq<u8>)
    requires
        !t.finished(),
        t.failure is None,
    ensures
        ({
            let (t2, es) = feed(t, bytes);
            &&& (t2.failure is None && t2.finished()) ==> one_last_at_end(es)
            &&& !(t2.failure is None && t2.finished()) ==> none_is_last(es)
            &&& !t2.finished() ==> t2.failure is None
        }),
    decreases bytes.len(),
{
    if bytes.len() > 0 {
        lemma_one_last_frame(t, bytes.drop_last());
        let (t1, e1) = feed(t, bytes.drop_last());
        let (t2, e2) = feed_byte(t1, bytes.last());
        if t1.finished() {
            assert(e1 + e2 =~= e1);
        } else if bytes.last() == LINE_FEED {
            let t1c = TranscoderView { pending: Seq::empty(), ..t1 };
            lemma_line_outcome(t1c, t1.pending);
            if t2.finished() && t2.failure is None {
                assert((e1 + e2).drop_last() =~= e1 + e2.drop_last());
                assert((e1 + e2).last() == e2.last());
            }
        } else {
            assert(e1 + e2 =~= e1);
        }
    }
}

/// Every answer that does not fail ends with exactly one last frame: from
/// the first byte to the end of the input, whatever the upstream sent and
/// whether or not it sent its marker, exactly one emission ends the answer
/// and nothing follows it. An answer that fails has none.
pub proof fn lemma_one_last_frame_in_answer(model: Seq<char>, bytes: Seq<u8>)
    ensures
        ({
            let (t1, e1) = feed(TranscoderView::start(model), bytes);
            let (t2, e2) = close(t1);
            &&& t2.finished()
            &&& t2.failure is None ==> one_last_at_end(e1 + e2)
            &&& t2.failure is Some ==> none_is_last(e1 + e2)
        }),
{
    let t = TranscoderView::start(model);
    lemma_one_last_frame(t, bytes);
    let (t1, e1) = feed(t, bytes);
    let (t2, e2) = close(t1);
    if t1.finished() {
        assert(e1 + e2 =~= e1);
    } else {
        let t1c = TranscoderView { pending: Seq::empty(), ..t1 };
        lemma_line_outcome(t1c, t1.pending);
        let (t3, e3) = on_line(t1c, t1.pending);
        lemma_line_keeps_or_fails(t1c, t1.pending);
        if t2.failure is None {
            assert((e1 + e2).drop_last() =~= e1 + e2.drop_last());
            assert((e1 + e2).last() == e2.last());
            if !t3.finished() {
                assert(e2.drop_last() =~= e3);
            }
        }
    }
}

/// A line leaves an answer that has not failed either not failed, or failed
/// and over.
pub proof fn lemma_line_keeps_or_fails(t: TranscoderView, line: Seq<u8>)
    requires
        !t.finished(),
        t.failure is None,
    ensures
        on_line(t, line).0.failure is Some ==> on_line(t, line).0.finished(),
        !on_line(t, line).0.finished() ==> on_line(t, line).0.failure is None,
{
}

/// What a sequence of deltas emits, from a given state.
pub open spec fn run_deltas(status: ChatRespStatus, deltas: Seq<DeltaView>) -> (
    ChatRespStatus,
    Seq<EmissionView>,
)
    decreases deltas.len(),
{
    if deltas.len() == 0 {
        (status, Seq::empty())
    } else {
        let (s1, e1) = run_deltas(status, deltas.drop_last());
        let (s2, e2) = spec_step(s1, deltas.last());
        (s2, e1 + e2)
    }
}

/// A delta that carries content and no reasoning.
pub open spec fn content_delta(role: Role, content: Seq<char>) -> DeltaView {
    DeltaView { content, reasoning_content: None, role }
}

/// A delta that carries reasoning in the side channel and no content.
pub open spec fn reasoning_delta(role: Role, reasoning: Seq<char>) -> DeltaView {
    DeltaView { content: Seq::empty(), reasoning_content: Some(reasoning), role }
}

/// Once the answer is over, nothing is emitted and nothing changes.
pub proof fn lemma_finished_is_silent(t: TranscoderView, bytes: Seq<u8>)
    requires
        t.finished(),
    ensures
        feed(t, bytes) == (t, Seq::<EmissionView>::empty()),
        close(t) == (t, Seq::<EmissionView>::empty()),
    decreases bytes.len(),
{
    if bytes.len() > 0 {
        lemma_finished_is_silent(t, bytes.drop_last());
        assert(Seq::<EmissionView>::empty() + Seq::<EmissionView>::empty() =~= Seq::<
            EmissionView,
        >::empty());
    }
}

/// How far an answer has come: nothing emitted, thinking, thinking over,
/// answer over.
pub open spec fn progress(status: ChatRespStatus) -> int {
    match status {
        ChatRespStatus::Init => 0,
        ChatRespStatus::ReasoningThinking => 1,
        ChatRespStatus::ContentThinking => 1,
        ChatRespStatus::ThinkFinished => 2,
        ChatRespStatus::ChatFinished => 3,
    }
}

/// The state of an answer never goes back: no delta reopens the thinking
/// once it is over, and none changes the way of thinking under way.
pub proof fn lemma_status_moves_forward(status: ChatRespStatus, d: DeltaView)
    ensures
        progress(status) <= progress(spec_step(status, d).0),
        progress(status) == progress(spec_step(status, d).0) ==> status == spec_step(status, d).0,
{
}

/// What two runs of deltas emit one after the other is what they emit as
/// one run.
pub proof fn lemma_run_concat(status: ChatRespStatus, a: Seq<DeltaView>, b: Seq<DeltaView>)
    ensures
        run_deltas(status, a + b).0 == run_deltas(run_deltas(status, a).0, b).0,
        run_deltas(status, a + b).1 == run_deltas(status, a).1 + run_deltas(
            run_deltas(status, a).0,
            b,
        ).1,
    decreases b.len(),
{
    let (s1, e1) = run_deltas(status, a);
    if b.len() == 0 {
        assert(a + b =~= a);
        assert(e1 + Seq::<EmissionView>::empty() =~= e1);
    } else {
        lemma_run_concat(status, a, b.drop_last());
        assert((a + b).drop_last() =~= a + b.drop_last());
        assert((a + b).last() == b.last());
        let (s2, e2) = run_deltas(s1, b.drop_last());
        let (s3, e3) = spec_step(s2, b.last());
        assert((e1 + e2) + e3 =~= e1 + (e2 + e3));
    }
}

/// What one delta emits.
pub proof fn lemma_run_one(status: ChatRespStatus, d: DeltaView)
    ensures
        run_deltas(status, seq![d]) == spec_step(status, d),
{
    let one = seq![d];
    assert(one.drop_last() =~= Seq::<DeltaView>::empty());
    reveal_with_fuel(run_deltas, 2);
    assert(Seq::<EmissionView>::empty() + spec_step(status, d).1 =~= spec_step(status, d).1);
}

/// The deltas that carry each of the texts as content.
pub open spec fn content_deltas(role: Role, texts: Seq<Seq<char>>) -> Seq<DeltaView> {
    Seq::new(texts.len(), |i: int| content_delta(role, texts[i]))
}

/// The deltas that carry each of the texts as reasoning in the side channel.
pub open spec fn reasoning_deltas(role: Role, texts: Seq<Seq<char>>) -> Seq<DeltaView> {
    Seq::new(texts.len(), |i: int| reasoning_delta(role, texts[i]))
}

/// The messages that carry each of the texts.
pub open spec fn messages(role: Role, texts: Seq<Seq<char>>) -> Seq<EmissionView> {
    Seq::new(texts.len(), |i: int| says(role, texts[i]))
}

/// Once the thinking is over, every delta is emitted as it is.
pub proof fn lemma_answer_is_verbatim(role: Role, texts: Seq<Seq<char>>)
    ensures
        run_deltas(ChatRespStatus::ThinkFinished, content_deltas(role, texts)) == (
            ChatRespStatus::ThinkFinished,
            messages(role, texts),
        ),
    decreases texts.len(),
{
    let ds = content_deltas(role, texts);
    if texts.len() == 0 {
        assert(messages(role, texts) =~= Seq::<EmissionView>::empty());
    } else {
        lemma_answer_is_verbatim(role, texts.drop_last());
        assert(ds.drop_last() =~= content_deltas(role, texts.drop_last()));
        assert(messages(role, texts.drop_last()) + seq![says(role, texts.last())] =~= messages(
            role,
            texts,
        ));
    }
}

/// While the thinking is inline, every delta without the closing marker is
/// emitted as it is.
pub proof fn lemma_inline_thinking_is_verbatim(role: Role, texts: Seq<Seq<char>>)
    requires
        forall|i: int| 0 <= i < texts.len() ==> !occurs(#[trigger] texts[i], "</think>"@),
    ensures
        run_deltas(ChatRespStatus::ContentThinking, content_deltas(role, texts)) == (
            ChatRespStatus::ContentThinking,
            messages(role, texts),
        ),
    decreases texts.len(),
{
    let ds = content_deltas(role, texts);
    if texts.len() == 0 {
        assert(messages(role, texts) =~= Seq::<EmissionView>::empty());
    } else {
        let before = texts.drop_last();
        assert forall|i: int| 0 <= i < before.len() implies !occurs(
            #[trigger] before[i],
            "</think>"@,
        ) by {
            assert(before[i] == texts[i]);
        }
        lemma_inline_thinking_is_verbatim(role, before);
        assert(ds.drop_last() =~= content_deltas(role, before));
        assert(!occurs(texts[texts.len() - 1], "</think>"@));
        assert(messages(role, before) + seq![says(role, texts.last())] =~= messages(role, texts));
    }
}

/// While the thinking is in the side channel, every delta that carries
/// reasoning and no content is emitted as it is.
pub proof fn lemma_side_thinking_is_verbatim(role: Role, texts: Seq<Seq<char>>)
    ensures
        run_deltas(ChatRespStatus::ReasoningThinking, reasoning_deltas(role, texts)) == (
            ChatRespStatus::ReasoningThinking,
            messages(role, texts),
        ),
    decreases texts.len(),
{
    let ds = reasoning_deltas(role, texts);
    if texts.len() == 0 {
        assert(messages(role, texts) =~= Seq::<EmissionView>::empty());
    } else {
        lemma_side_thinking_is_verbatim(role, texts.drop_last());
        assert(ds.drop_last() =~= reasoning_deltas(role, texts.drop_last()));
        assert(messages(role, texts.drop_last()) + seq![says(role, texts.last())] =~= messages(
            role,
            texts,
        ));
    }
}

/// An answer whose reasoning arrives inline: the opening marker with the
/// first piece of reasoning, more reasoning, the closing marker with the
/// first piece of the answer, more of the answer.
pub open spec fn inline_answer(
    role: Role,
    thinking: Seq<char>,
    more_thinking: Seq<Seq<char>>,
    answer: Seq<char>,
    more_answer: Seq<Seq<char>>,
) -> Seq<DeltaView> {
    seq![content_delta(role, "<think>"@ + thinking)] + content_deltas(role, more_thinking)
        + seq![content_delta(role, "</think>"@ + answer)] + content_deltas(role, more_answer)
}

/// The same answer with its reasoning in the side channel.
pub open spec fn side_channel_answer(
    role: Role,
    thinking: Seq<char>,
    more_thinking: Seq<Seq<char>>,
    answer: Seq<char>,
    more_answer: Seq<Seq<char>>,
) -> Seq<DeltaView> {
    seq![reasoning_delta(role, thinking)] + reasoning_deltas(role, more_thinking)
        + seq![content_delta(role, answer)] + content_deltas(role, more_answer)
}

/// What such an answer emits: the reasoning between the two markers, then
/// the answer.
pub open spec fn bracketed(
    role: Role,
    thinking: Seq<char>,
    more_thinking: Seq<Seq<char>>,
    answer: Seq<char>,
    more_answer: Seq<Seq<char>>,
) -> Seq<EmissionView> {
    seq![says(Role::Assistant, "<think>"@), says(role, thinking)] + messages(role, more_thinking)
        + marker_then("</think>"@, role, answer) + messages(role, more_answer)
}

/// However long the reasoning and the answer are, reasoning that arrives
/// inline and reasoning that arrives in the side channel are bracketed
/// alike: both runs emit the think-start marker, every piece of reasoning,
/// the think-end marker, and every piece of the answer.
pub proof fn lemma_streams_are_bracketed_alike(
    role: Role,
    thinking: Seq<char>,
    more_thinking: Seq<Seq<char>>,
    answer: Seq<char>,
    more_answer: Seq<Seq<char>>,
)
    requires
        thinking.len() > 0,
        !occurs(thinking, "<think>"@),
        forall|i: int|
            0 <= i < more_thinking.len() ==> !occurs(#[trigger] more_thinking[i], "</think>"@),
        !occurs(answer, "</think>"@),
    ensures
        run_deltas(
            ChatRespStatus::Init,
            inline_answer(role, thinking, more_thinking, answer, more_answer),
        ) == (
            ChatRespStatus::ThinkFinished,
            bracketed(role, thinking, more_thinking, answer, more_answer),
        ),
        run_deltas(
            ChatRespStatus::Init,
            side_channel_answer(role, thinking, more_thinking, answer, more_answer),
        ) == (
            ChatRespStatus::ThinkFinished,
            bracketed(role, thinking, more_thinking, answer, more_answer),
        ),
{
    reveal_strlit("<think>");
    reveal_strlit("</think>");
    let open = "<think>"@;
    let shut = "</think>"@;
    let start = seq![says(Role::Assistant, open), says(role, thinking)];
    let middle = messages(role, more_thinking);
    let turn = marker_then(shut, role, answer);
    let rest = messages(role, more_answer);
    lemma_strip_leading(open, thinking);
    lemma_strip_leading(shut, answer);
    lemma_answer_is_verbatim(role, more_answer);
    // Inline.
    let i1 = seq![content_delta(role, open + thinking)];
    let i2 = content_deltas(role, more_thinking);
    let i3 = seq![content_delta(role, shut + answer)];
    let i4 = content_deltas(role, more_answer);
    lemma_run_one(ChatRespStatus::Init, i1[0]);
    assert(spec_step(ChatRespStatus::Init, i1[0]).1 =~= start);
    lemma_inline_thinking_is_verbatim(role, more_thinking);
    lemma_run_one(ChatRespStatus::ContentThinking, i3[0]);
    lemma_run_concat(ChatRespStatus::Init, i1, i2);
    lemma_run_concat(ChatRespStatus::Init, i1 + i2, i3);
    lemma_run_concat(ChatRespStatus::Init, i1 + i2 + i3, i4);
    // Side channel.
    let s1 = seq![reasoning_delta(role, thinking)];
    let s2 = reasoning_deltas(role, more_thinking);
    let s3 = seq![content_delta(role, answer)];
    assert(!occurs(s1[0].content, open)) by {
        assert forall|at: int| !occurs_at(s1[0].content, open, at) by {}
    }
    lemma_run_one(ChatRespStatus::Init, s1[0]);
    assert(spec_step(ChatRespStatus::Init, s1[0]).1 =~= start);
    lemma_side_thinking_is_verbatim(role, more_thinking);
    lemma_run_one(ChatRespStatus::ReasoningThinking, s3[0]);
    lemma_run_concat(ChatRespStatus::Init, s1, s2);
    lemma_run_concat(ChatRespStatus::Init, s1 + s2, s3);
    lemma_run_concat(ChatRespStatus::Init, s1 + s2 + s3, i4);
}

/// The line `data: [DONE]` ends an answer that is under way: it emits the
/// last frame, with the usage of the last event or zero, and nothing else.
pub proof fn lemma_done_line_ends_answer(t: TranscoderView)
    requires
        !t.finished(),
        t.pending.len() == 0,
    ensures
        feed(t, data_prefix() + done_bytes() + seq![LINE_FEED]) == (
            t.end(),
            seq![EmissionView::Last(usage_or_zero(t.usage))],
        ),
{
    lemma_done_bytes_are_the_marker();
    let line = data_prefix() + done_bytes();
    lemma_line_is_gathered(t, line);
    let (t1, e1) = feed(t, line);
    let all = line + seq![LINE_FEED];
    assert(all.drop_last() =~= line);
    assert(all.last() == LINE_FEED);
    assert(t.pending =~= Seq::<u8>::empty());
    assert(t1.pending =~= line);
    assert(TranscoderView { pending: Seq::empty(), ..t1 } == t);
    assert(Seq::<EmissionView>::empty() + seq![EmissionView::Last(usage_or_zero(t.usage))]
        =~= seq![EmissionView::Last(usage_or_zero(t.usage))]);
}

/// Bytes without a line feed are gathered as the pending line and emit
/// nothing.
pub proof fn lemma_line_is_gathered(t: TranscoderView, bytes: Seq<u8>)
    requires
        !t.finished(),
        forall|i: int| 0 <= i < bytes.len() ==> bytes[i] != LINE_FEED,
    ensures
        feed(t, bytes) == (
            TranscoderView { pending: t.pending + bytes, ..t },
            Seq::<EmissionView>::empty(),
        ),
    decreases bytes.len(),
{
    if bytes.len() == 0 {
        assert(t.pending + bytes =~= t.pending);
    } else {
        lemma_line_is_gathered(t, bytes.drop_last());
        assert(t.pending + bytes =~= (t.pending + bytes.drop_last()).push(bytes.last()));
        assert(Seq::<EmissionView>::empty() + Seq::<EmissionView>::empty() =~= Seq::<
            EmissionView,
        >::empty());
    }
}

/// In the shortest case, of one piece of reasoning and one piece of answer:
/// reasoning that arrives inline, between `<think>` and `</think>`, and the
/// same reasoning that arrives in the side channel both emit the think-start
/// marker, the reasoning, the think-end marker and the answer.
pub proof fn lemma_reasoning_is_bracketed_alike(
    role: Role,
    thinking: Seq<char>,
    answer: Seq<char>,
)
    requires
        thinking.len() > 0,
        answer.len() > 0,
        !occurs(thinking, "<think>"@),
        !occurs(answer, "</think>"@),
    ensures
        ({
            let inline = seq![
                content_delta(role, "<think>"@ + thinking),
                content_delta(role, "</think>"@ + answer),
            ];
            let side = seq![reasoning_delta(role, thinking), content_delta(role, answer)];
            let emitted = seq![
                says(Role::Assistant, "<think>"@),
                says(role, thinking),
                says(Role::Assistant, "</think>"@),
                says(role, answer),
            ];
            &&& run_deltas(ChatRespStatus::Init, inline) == (
                ChatRespStatus::ThinkFinished,
                emitted,
            )
            &&& run_deltas(ChatRespStatus::Init, side) == (ChatRespStatus::ThinkFinished, emitted)
        }),
{
    let none = Seq::<Seq<char>>::empty();
    lemma_streams_are_bracketed_alike(role, thinking, none, answer, none);
    assert(content_deltas(role, none) =~= Seq::<DeltaView>::empty());
    assert(reasoning_deltas(role, none) =~= Seq::<DeltaView>::empty());
    assert(messages(role, none) =~= Seq::<EmissionView>::empty());
    assert(inline_answer(role, thinking, none, answer, none) =~= seq![
        content_delta(role, "<think>"@ + thinking),
        content_delta(role, "</think>"@ + answer),
    ]);
    assert(side_channel_answer(role, thinking, none, answer, none) =~= seq![
        reasoning_delta(role, thinking),
        content_delta(role, answer),
    ]);
    assert(bracketed(role, thinking, none, answer, none) =~= seq![
        says(Role::Assistant, "<think>"@),
        says(role, thinking),
        says(Role::Assistant, "</think>"@),
        says(role, answer),
    ]);
}

/// An answer whose upstream ends at once is the last frame alone, with a
/// usage of zero.
pub proof fn lemma_empty_answer_is_the_last_frame(model: Seq<char>)
    ensures
        close(TranscoderView::start(model)) == (
            TranscoderView::start(model).end(),
            seq![EmissionView::Last(Usage::zero())],
        ),
{
    let t = TranscoderView::start(model);
    assert(spec_payload_of(t.pending) is None);
    assert(TranscoderView { pending: Seq::empty(), ..t } == t);
    assert(Seq::<EmissionView>::empty().push(EmissionView::Last(Usage::zero())) =~= seq![
        EmissionView::Last(Usage::zero()),
    ]);
}

} // verus!
