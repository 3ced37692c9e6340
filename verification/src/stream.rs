//! The converter from an OpenAI Chat completion stream (server-sent events)
//! to the Codex Responses API event stream.
//!
//! The caller feeds the upstream bytes, takes the complete lines one by one,
//! parses each data payload as JSON, and hands the parsed chunks back; the
//! converter says which Responses events to send, in order.
use vstd::prelude::*;
use rand::Rng;
use vstd::utf8::{decode_utf8, valid_utf8};
use crate::json::{as_items, as_text, json_str, lemma_first_member_at, member, Json, JsonValue};
use crate::text::{
    chars_of, concat_str, is_unicode_whitespace, char_is_whitespace, seq_starts_with,
    starts_with_str, str_eq, string_from_chars, to_owned_string,
};

verus! {

/// The text `String::from_utf8_lossy` makes of a byte sequence.
pub uninterp spec fn utf8_lossy_text(bytes: Seq<u8>) -> Seq<char>;

/// Decodes bytes as UTF-8 with `String::from_utf8_lossy`. The contract names
/// the text as a function of the bytes and states that valid UTF-8 decodes
/// as such; how invalid sequences are replaced is not stated.
#[verifier::external_body]
pub(crate) fn utf8_lossy(bytes: &[u8]) -> (s: String)
    ensures
        s@ == utf8_lossy_text(bytes@),
        valid_utf8(bytes@) ==> s@ == decode_utf8(bytes@),
{
    String::from_utf8_lossy(bytes).into_owned()
}

/// A uniformly drawn index below `n`, from the thread-local random generator.
#[verifier::external_body]
fn random_below(n: usize) -> (r: usize)
    requires
        n > 0,
    ensures
        r < n,
{
    rand::thread_rng().gen_range(0..n)
}

/// The characters a stream id is drawn from.
pub open spec fn id_charset() -> Seq<char> {
    "abcdefghijklmnopqrstuvwxyzABCDEFGHIJKLMNOPQRSTUVWXYZ0123456789"@
}

/// A stream id: 24 characters, each a letter or a digit.
pub open spec fn is_stream_id(id: Seq<char>) -> bool {
    &&& id.len() == 24
    &&& forall|i: int| 0 <= i < 24 ==> id_charset().contains(#[trigger] id[i])
}

/// A random stream id: 24 characters drawn from the letters and digits.
pub fn random_stream_id() -> (id: String)
    ensures
        is_stream_id(id@),
{
    let charset = chars_of("abcdefghijklmnopqrstuvwxyzABCDEFGHIJKLMNOPQRSTUVWXYZ0123456789");
    proof {
        reveal_strlit("abcdefghijklmnopqrstuvwxyzABCDEFGHIJKLMNOPQRSTUVWXYZ0123456789");
    }
    let mut picked: Vec<char> = Vec::new();
    let mut k: usize = 0;
    while k < 24
        invariant
            charset@ == id_charset(),
            charset@.len() == 62,
            k <= 24,
            picked@.len() == k,
            forall|i: int| 0 <= i < k ==> id_charset().contains(#[trigger] picked@[i]),
        decreases 24 - k,
    {
        let idx = random_below(charset.len());
        picked.push(charset[idx]);
        assert(id_charset()[idx as int] == picked@[k as int]);
        k = k + 1;
    }
    string_from_chars(&picked, 0, 24)
}

/// The trimmed form of a text: leading and trailing white space removed, as
/// `str::trim` does.
pub open spec fn trim_spec(s: Seq<char>) -> Seq<char> {
    trim_end_spec(trim_start_spec(s))
}

/// Leading white space removed.
pub open spec fn trim_start_spec(s: Seq<char>) -> Seq<char>
    decreases s.len(),
{
    if s.len() > 0 && is_unicode_whitespace(s[0]) {
        trim_start_spec(s.drop_first())
    } else {
        s
    }
}

/// Trailing white space removed.
pub open spec fn trim_end_spec(s: Seq<char>) -> Seq<char>
    decreases s.len(),
{
    if s.len() > 0 && is_unicode_whitespace(s.last()) {
        trim_end_spec(s.drop_last())
    } else {
        s
    }
}

/// Every leading occurrence of a non-empty prefix removed, as
/// `str::trim_start_matches` does.
pub open spec fn strip_all_prefix(s: Seq<char>, p: Seq<char>) -> Seq<char>
    decreases s.len(),
{
    if p.len() > 0 && seq_starts_with(s, p) {
        strip_all_prefix(s.subrange(p.len() as int, s.len() as int), p)
    } else {
        s
    }
}

/// The trimmed text of `v[from..to]`.
fn trim_chars(v: &Vec<char>, from: usize, to: usize) -> (r: (usize, usize))
    requires
        from <= to <= v.len(),
    ensures
        r.0 <= r.1 <= v.len(),
        v@.subrange(r.0 as int, r.1 as int) == trim_spec(v@.subrange(from as int, to as int)),
{
    let mut a = from;
    while a < to && char_is_whitespace(v[a])
        invariant
            from <= a <= to <= v.len(),
            trim_start_spec(v@.subrange(from as int, to as int)) == trim_start_spec(
                v@.subrange(a as int, to as int),
            ),
        decreases to - a,
    {
        assert(v@.subrange(a as int, to as int).drop_first() =~= v@.subrange(a + 1, to as int));
        a = a + 1;
    }
    proof {
        let t = v@.subrange(a as int, to as int);
        if t.len() > 0 {
            assert(t[0] == v@[a as int]);
        }
        assert(trim_start_spec(t) == t);
    }
    let mut b = to;
    while b > a && char_is_whitespace(v[b - 1])
        invariant
            from <= a <= b <= to <= v.len(),
            trim_end_spec(v@.subrange(a as int, to as int)) == trim_end_spec(
                v@.subrange(a as int, b as int),
            ),
        decreases b - a,
    {
        assert(v@.subrange(a as int, b as int).drop_last() =~= v@.subrange(a as int, b - 1));
        b = b - 1;
    }
    proof {
        let t = v@.subrange(a as int, b as int);
        if t.len() > 0 {
            assert(t.last() == v@[b - 1]);
        }
        assert(trim_end_spec(t) == t);
    }
    (a, b)
}

/// What one complete line of the upstream stream is.
#[derive(Debug, PartialEq, Eq)]
pub enum StreamLine {
    /// Not a data line: ignored.
    Skip,
    /// The `[DONE]` marker.
    Done,
    /// A data line with this payload.
    Data(String),
}

/// How a complete upstream line is classified: its bytes are decoded as
/// `String::from_utf8_lossy` does, then the text is classified.
pub open spec fn classify_spec(line: Seq<u8>, r: StreamLine) -> bool {
    classify_text_spec(utf8_lossy_text(line), r)
}

/// Classifies one complete upstream line (its bytes, line feed included).
pub fn classify_line(line: &[u8]) -> (r: StreamLine)
    ensures
        classify_spec(line@, r),
{
    let text = utf8_lossy(line);
    classify_text(text.as_str())
}

/// How a decoded upstream line is classified.
pub open spec fn classify_text_spec(text: Seq<char>, r: StreamLine) -> bool {
    let t = trim_spec(text);
    let payload = trim_spec(strip_all_prefix(t, "data: "@));
    if !(t.len() > 0 && seq_starts_with(t, "data: "@)) {
        r == StreamLine::Skip
    } else if payload == "[DONE]"@ {
        r == StreamLine::Done
    } else {
        r matches StreamLine::Data(d) && d@ == payload
    }
}

/// Classifies one decoded upstream line: not a data line, the `[DONE]`
/// marker, or a data line with its payload.
pub fn classify_text(text: &str) -> (r: StreamLine)
    ensures
        classify_text_spec(text@, r),
{
    let v = chars_of(text);
    let (a, b) = trim_chars(&v, 0, v.len());
    assert(v@.subrange(0, v.len() as int) =~= v@);
    let trimmed = string_from_chars(&v, a, b);
    if a == b || !starts_with_str(trimmed.as_str(), "data: ") {
        return StreamLine::Skip;
    }
    let w = chars_of(trimmed.as_str());
    let mut start: usize = 0;
    assert(w@.subrange(0, w.len() as int) =~= w@);
    while w.len() - start >= 6 && w[start] == 'd' && w[start + 1] == 'a' && w[start + 2] == 't'
        && w[start + 3] == 'a' && w[start + 4] == ':' && w[start + 5] == ' '
        invariant
            start <= w.len(),
            strip_all_prefix(w@, "data: "@) == strip_all_prefix(
                w@.subrange(start as int, w.len() as int),
                "data: "@,
            ),
        decreases w.len() - start,
    {
        let ghost rest = w@.subrange(start as int, w.len() as int);
        proof {
            reveal_strlit("data: ");
        }
        assert(rest.subrange(0, 6) =~= "data: "@);
        assert(rest.subrange(6, rest.len() as int) =~= w@.subrange(start + 6, w.len() as int));
        start = start + 6;
    }
    proof {
        reveal_strlit("data: ");
        let rest = w@.subrange(start as int, w.len() as int);
        if seq_starts_with(rest, "data: "@) {
            assert(rest[0] == 'd' && rest[1] == 'a' && rest[2] == 't' && rest[3] == 'a' && rest[4]
                == ':' && rest[5] == ' ') by {
                assert(rest.subrange(0, 6)[0] == rest[0]);
                assert(rest.subrange(0, 6)[1] == rest[1]);
                assert(rest.subrange(0, 6)[2] == rest[2]);
                assert(rest.subrange(0, 6)[3] == rest[3]);
                assert(rest.subrange(0, 6)[4] == rest[4]);
                assert(rest.subrange(0, 6)[5] == rest[5]);
            }
        }
        assert(strip_all_prefix(rest, "data: "@) == rest);
        assert(w@.subrange(0, w.len() as int) =~= w@);
    }
    let (c, d) = trim_chars(&w, start, w.len());
    let payload = string_from_chars(&w, c, d);
    if str_eq(payload.as_str(), "[DONE]") {
        StreamLine::Done
    } else {
        StreamLine::Data(payload)
    }
}

/// The text deltas of one parsed chat chunk: for each choice with a
/// `delta` whose `content` is a non-empty text, that text, in order.
pub open spec fn chunk_deltas_spec(choices: Seq<Json>) -> Seq<Seq<char>>
    decreases choices.len(),
{
    if choices.len() == 0 {
        Seq::<Seq<char>>::empty()
    } else {
        let rest = chunk_deltas_spec(choices.drop_last());
        match member(choices.last(), "delta"@) {
            Some(delta) => match as_text(member(delta, "content"@)) {
                Some(t) => if t.len() > 0 {
                    rest.push(t)
                } else {
                    rest
                },
                None => rest,
            },
            None => rest,
        }
    }
}

/// The choices of a parsed chunk (none when it has no `choices` array).
pub open spec fn chunk_choices(chunk: Json) -> Seq<Json> {
    match as_items(member(chunk, "choices"@)) {
        Some(c) => c,
        None => Seq::<Json>::empty(),
    }
}

/// One event of the Responses API stream.
#[derive(Debug, PartialEq, Eq)]
pub enum ResponseEvent {
    /// `response.created`
    Created,
    /// `response.output_item.added`
    ItemAdded,
    /// `response.content_part.added`
    PartAdded,
    /// `response.output_text.delta` with this text.
    TextDelta(String),
    /// `response.output_item.done`
    ItemDone,
    /// `response.completed`; `with_item` when the output lists the message.
    Completed { with_item: bool },
    /// `error` with this message.
    Error(String),
}

/// The events emitted as the text deltas of a chunk.
pub open spec fn are_deltas(evs: Seq<ResponseEvent>, texts: Seq<Seq<char>>) -> bool {
    &&& evs.len() == texts.len()
    &&& forall|k: int|
        0 <= k < evs.len() ==> (#[trigger] evs[k] matches ResponseEvent::TextDelta(t) && t@
            == texts[k])
}

/// The events emitted for one parsed chat chunk, given whether the opening
/// events were already sent: before the first chunk, the three opening events
/// and then the chunk's text deltas; afterwards, the chunk's text deltas only.
pub open spec fn chunk_events(started: bool, chunk: Json, evs: Seq<ResponseEvent>) -> bool {
    if !started {
        &&& evs.len() >= 3
        &&& evs[0] == ResponseEvent::Created
        &&& evs[1] == ResponseEvent::ItemAdded
        &&& evs[2] == ResponseEvent::PartAdded
        &&& are_deltas(evs.subrange(3, evs.len() as int), chunk_deltas_spec(chunk_choices(chunk)))
    } else {
        are_deltas(evs, chunk_deltas_spec(chunk_choices(chunk)))
    }
}

/// The texts of the text-delta events of an event sequence, in order.
pub open spec fn delta_texts(evs: Seq<ResponseEvent>) -> Seq<Seq<char>>
    decreases evs.len(),
{
    if evs.len() == 0 {
        Seq::<Seq<char>>::empty()
    } else {
        let rest = delta_texts(evs.drop_last());
        match evs.last() {
            ResponseEvent::TextDelta(t) => rest.push(t@),
            _ => rest,
        }
    }
}

/// The events of consecutive calls, one after the other.
pub open spec fn flatten_events(outs: Seq<Seq<ResponseEvent>>) -> Seq<ResponseEvent>
    decreases outs.len(),
{
    if outs.len() == 0 {
        Seq::<ResponseEvent>::empty()
    } else {
        flatten_events(outs.drop_last()) + outs.last()
    }
}

/// The non-empty content deltas of consecutive upstream chunks, in order.
pub open spec fn upstream_deltas(chunks: Seq<Json>) -> Seq<Seq<char>>
    decreases chunks.len(),
{
    if chunks.len() == 0 {
        Seq::<Seq<char>>::empty()
    } else {
        upstream_deltas(chunks.drop_last()) + chunk_deltas_spec(chunk_choices(chunks.last()))
    }
}

proof fn lemma_delta_texts_append(a: Seq<ResponseEvent>, b: Seq<ResponseEvent>)
    ensures
        delta_texts(a + b) == delta_texts(a) + delta_texts(b),
    decreases b.len(),
{
    if b.len() == 0 {
        assert(a + b =~= a);
        assert(delta_texts(a) + delta_texts(b) =~= delta_texts(a));
    } else {
        assert((a + b).drop_last() =~= a + b.drop_last());
        assert((a + b).last() == b.last());
        lemma_delta_texts_append(a, b.drop_last());
        match b.last() {
            ResponseEvent::TextDelta(t) => {
                assert(delta_texts(a) + delta_texts(b.drop_last()).push(t@) =~= (delta_texts(a)
                    + delta_texts(b.drop_last())).push(t@));
            },
            _ => {},
        }
    }
}

proof fn lemma_deltas_texts(evs: Seq<ResponseEvent>, texts: Seq<Seq<char>>)
    requires
        are_deltas(evs, texts),
    ensures
        delta_texts(evs) == texts,
    decreases evs.len(),
{
    if evs.len() == 0 {
        assert(texts =~= Seq::<Seq<char>>::empty());
    } else {
        let k = evs.len() - 1;
        assert(evs[k] matches ResponseEvent::TextDelta(t) && t@ == texts[k]);
        assert forall|j: int| 0 <= j < evs.drop_last().len() implies (
        #[trigger] evs.drop_last()[j] matches ResponseEvent::TextDelta(t) && t@
            == texts.drop_last()[j]) by {
            assert(evs.drop_last()[j] == evs[j]);
            assert(evs[j] matches ResponseEvent::TextDelta(t) && t@ == texts[j]);
        }
        lemma_deltas_texts(evs.drop_last(), texts.drop_last());
        assert(texts.drop_last().push(texts[k]) =~= texts);
    }
}

/// The text deltas that one chunk's events carry are the chunk's non-empty
/// content deltas, whether or not the opening events come first.
pub proof fn lemma_chunk_delta_texts(started: bool, chunk: Json, evs: Seq<ResponseEvent>)
    requires
        chunk_events(started, chunk, evs),
    ensures
        delta_texts(evs) == chunk_deltas_spec(chunk_choices(chunk)),
{
    if !started {
        let opening = evs.subrange(0, 3);
        let rest = evs.subrange(3, evs.len() as int);
        assert(opening + rest =~= evs);
        lemma_delta_texts_append(opening, rest);
        lemma_deltas_texts(rest, chunk_deltas_spec(chunk_choices(chunk)));
        assert(opening.drop_last().drop_last().drop_last() =~= Seq::<ResponseEvent>::empty());
        reveal_with_fuel(delta_texts, 4);
        assert(delta_texts(opening) =~= Seq::<Seq<char>>::empty());
        assert(Seq::<Seq<char>>::empty() + delta_texts(rest) =~= delta_texts(rest));
    } else {
        lemma_deltas_texts(evs, chunk_deltas_spec(chunk_choices(chunk)));
    }
}

/// Over a whole stream, the text deltas sent downstream are exactly the
/// non-empty content deltas of the upstream chunks, in the order they came:
/// for consecutive chunk steps of the converter, the delta texts of all the
/// events emitted, one call after the other, equal the chunks' content
/// deltas, one chunk after the other (the completion events carry none).
pub proof fn lemma_stream_deltas_follow_upstream(
    chunks: Seq<Json>,
    outs: Seq<Seq<ResponseEvent>>,
    started: Seq<bool>,
)
    requires
        outs.len() == chunks.len(),
        started.len() == chunks.len(),
        forall|i: int| 0 <= i < outs.len() ==> #[trigger] chunk_events(started[i], chunks[i], outs[i]),
    ensures
        delta_texts(flatten_events(outs)) == upstream_deltas(chunks),
    decreases outs.len(),
{
    if outs.len() > 0 {
        let n = outs.len() - 1;
        assert forall|i: int| 0 <= i < outs.drop_last().len() implies #[trigger] chunk_events(
            started.drop_last()[i],
            chunks.drop_last()[i],
            outs.drop_last()[i],
        ) by {
            assert(chunk_events(started[i], chunks[i], outs[i]));
        }
        lemma_stream_deltas_follow_upstream(chunks.drop_last(), outs.drop_last(), started.drop_last());
        assert(chunk_events(started[n], chunks[n], outs[n]));
        lemma_chunk_delta_texts(started[n], chunks[n], outs[n]);
        lemma_delta_texts_append(flatten_events(outs.drop_last()), outs.last());
    }
}

/// The completion events carry no text delta.
pub proof fn lemma_completion_has_no_delta(with_item: bool)
    ensures
        delta_texts(seq![ResponseEvent::ItemDone, ResponseEvent::Completed { with_item }])
            == Seq::<Seq<char>>::empty(),
{
    let evs = seq![ResponseEvent::ItemDone, ResponseEvent::Completed { with_item }];
    assert(evs.drop_last().drop_last() =~= Seq::<ResponseEvent>::empty());
    reveal_with_fuel(delta_texts, 3);
}

/// The first line of `before` ends with the line feed at `pos`, `after` is
/// what follows it, and `kind` is that line's classification.
pub open spec fn line_taken_at(before: Seq<u8>, after: Seq<u8>, pos: int, kind: StreamLine) -> bool {
    &&& 0 <= pos < before.len()
    &&& before[pos] == 10u8
    &&& forall|j: int| 0 <= j < pos ==> before[j] != 10u8
    &&& after == before.subrange(pos + 1, before.len() as int)
    &&& classify_spec(before.subrange(0, pos + 1), kind)
}

/// The converter's state.
pub struct StreamConverter {
    buffer: Vec<u8>,
    response_id: String,
    item_id: String,
    started: bool,
    completed: bool,
}

impl StreamConverter {
    /// The bytes received and not yet split into lines.
    pub closed spec fn pending(&self) -> Seq<u8> {
        self.buffer@
    }

    /// The response's id.
    pub closed spec fn response_id_spec(&self) -> Seq<char> {
        self.response_id@
    }

    /// The message item's id.
    pub closed spec fn item_id_spec(&self) -> Seq<char> {
        self.item_id@
    }

    /// The opening events were sent.
    pub closed spec fn is_started(&self) -> bool {
        self.started
    }

    /// The completion events were sent.
    pub closed spec fn is_completed(&self) -> bool {
        self.completed
    }

    /// A converter for a stream whose ids derive from `random_id`: the
    /// response id is `resp-` followed by it, the item id `item-` followed by
    /// its first 16 characters.
    pub fn new(random_id: &str) -> (t: Self)
        requires
            random_id@.len() >= 16,
        ensures
            t.pending() == Seq::<u8>::empty(),
            t.response_id_spec() == "resp-"@ + random_id@,
            t.item_id_spec() == "item-"@ + random_id@.subrange(0, 16),
            !t.is_started(),
            !t.is_completed(),
    {
        let v = chars_of(random_id);
        let head = string_from_chars(&v, 0, 16);
        StreamConverter {
            buffer: Vec::new(),
            response_id: concat_str("resp-", random_id),
            item_id: concat_str("item-", head.as_str()),
            started: false,
            completed: false,
        }
    }

    /// A converter with a freshly drawn random id `R`: the response id is
    /// `resp-` followed by `R`, the item id `item-` followed by the first 16
    /// characters of `R`.
    pub fn new_random() -> (t: Self)
        ensures
            t.pending() == Seq::<u8>::empty(),
            exists|r: Seq<char>|
                #[trigger] is_stream_id(r) && t.response_id_spec() == "resp-"@ + r
                    && t.item_id_spec() == "item-"@ + r.subrange(0, 16),
            !t.is_started(),
            !t.is_completed(),
    {
        let id = random_stream_id();
        let t = Self::new(id.as_str());
        assert(is_stream_id(id@));
        t
    }

    /// Appends received upstream bytes.
    pub fn push_bytes(&mut self, chunk: &[u8])
        ensures
            final(self).pending() == old(self).pending() + chunk@,
            final(self).response_id_spec() == old(self).response_id_spec(),
            final(self).item_id_spec() == old(self).item_id_spec(),
            final(self).is_started() == old(self).is_started(),
            final(self).is_completed() == old(self).is_completed(),
    {
        let mut i: usize = 0;
        while i < chunk.len()
            invariant
                i <= chunk.len(),
                self.buffer@ == old(self).buffer@ + chunk@.subrange(0, i as int),
                self.response_id == old(self).response_id,
                self.item_id == old(self).item_id,
                self.started == old(self).started,
                self.completed == old(self).completed,
            decreases chunk.len() - i,
        {
            self.buffer.push(chunk[i]);
            assert(chunk@.subrange(0, i + 1) =~= chunk@.subrange(0, i as int).push(chunk@[i as int]));
            i = i + 1;
        }
        assert(chunk@.subrange(0, chunk.len() as int) =~= chunk@);
    }

    /// Takes the next complete line (through its line feed) from the pending
    /// bytes and classifies it; `None` when no complete line is pending.
    pub fn next_line(&mut self) -> (r: Option<StreamLine>)
        ensures
            final(self).response_id_spec() == old(self).response_id_spec(),
            final(self).item_id_spec() == old(self).item_id_spec(),
            final(self).is_started() == old(self).is_started(),
            final(self).is_completed() == old(self).is_completed(),
            match r {
                None => final(self).pending() == old(self).pending() && !old(
                    self,
                ).pending().contains(10u8),
                Some(kind) => exists|pos: int|
                    #[trigger] line_taken_at(old(self).pending(), final(self).pending(), pos, kind),
            },
    {
        let mut pos: usize = 0;
        while pos < self.buffer.len() && self.buffer[pos] != 10u8
            invariant
                *self == *old(self),
                pos <= self.buffer.len(),
                forall|j: int| 0 <= j < pos ==> self.buffer@[j] != 10u8,
            decreases self.buffer.len() - pos,
        {
            pos = pos + 1;
        }
        if pos == self.buffer.len() {
            assert forall|j: int| 0 <= j < self.buffer@.len() implies self.buffer@[j] != 10u8 by {}
            return None;
        }
        let ghost before = self.buffer@;
        let mut line = self.buffer.split_off(pos + 1);
        std::mem::swap(&mut line, &mut self.buffer);
        let kind = classify_line(line.as_slice());
        assert(line@ == before.subrange(0, pos + 1));
        assert(self.buffer@ == before.subrange(pos + 1, before.len() as int));
        assert(0 <= pos < before.len() && before[pos as int] == 10u8);
        assert(forall|j: int| 0 <= j < pos ==> before[j] != 10u8);
        assert(classify_spec(before.subrange(0, pos + 1), kind));
        assert(line_taken_at(before, self.buffer@, pos as int, kind));
        assert(before == old(self).pending());
        assert(self.buffer@ == self.pending());
        assert(exists|p: int| #[trigger] line_taken_at(old(self).pending(), self.pending(), p, kind));
        Some(kind)
    }

    /// The events for the `[DONE]` marker: the item and the response are
    /// completed, once.
    pub fn on_done(&mut self) -> (evs: Vec<ResponseEvent>)
        ensures
            final(self).pending() == old(self).pending(),
            final(self).response_id_spec() == old(self).response_id_spec(),
            final(self).item_id_spec() == old(self).item_id_spec(),
            final(self).is_started() == old(self).is_started(),
            final(self).is_completed(),
            old(self).is_completed() ==> evs@.len() == 0,
            !old(self).is_completed() ==> evs@ == seq![
                ResponseEvent::ItemDone,
                ResponseEvent::Completed { with_item: true },
            ],
    {
        let mut evs: Vec<ResponseEvent> = Vec::new();
        if !self.completed {
            self.completed = true;
            evs.push(ResponseEvent::ItemDone);
            evs.push(ResponseEvent::Completed { with_item: true });
        }
        evs
    }

    /// The events for one parsed chat chunk: the opening events before the
    /// first chunk, then one text delta per non-empty content delta.
    pub fn on_chunk(&mut self, chunk: &JsonValue) -> (evs: Vec<ResponseEvent>)
        ensures
            final(self).pending() == old(self).pending(),
            final(self).response_id_spec() == old(self).response_id_spec(),
            final(self).item_id_spec() == old(self).item_id_spec(),
            final(self).is_started(),
            final(self).is_completed() == old(self).is_completed(),
            chunk_events(old(self).is_started(), chunk@, evs@),
    {
        let mut evs: Vec<ResponseEvent> = Vec::new();
        let opened: usize = if !self.started {
            self.started = true;
            evs.push(ResponseEvent::Created);
            evs.push(ResponseEvent::ItemAdded);
            evs.push(ResponseEvent::PartAdded);
            3
        } else {
            0
        };
        let ghost choices_s = chunk_choices(chunk@);
        match chunk.get("choices") {
            Some(JsonValue::Array(choices)) => {
                let mut i: usize = 0;
                assert(choices_s.len() == choices@.len());
                proof {
                    assert(evs@.subrange(opened as int, evs@.len() as int) =~= Seq::<ResponseEvent>::empty());
                }
                while i < choices.len()
                    invariant
                        i <= choices.len(),
                        opened <= evs@.len(),
                        opened == 3 ==> evs@[0] == ResponseEvent::Created && evs@[1]
                            == ResponseEvent::ItemAdded && evs@[2] == ResponseEvent::PartAdded,
                        choices_s.len() == choices@.len(),
                        forall|j: int|
                            0 <= j < choices@.len() ==> #[trigger] choices_s[j] == choices@[j]@,
                        are_deltas(
                            evs@.subrange(opened as int, evs@.len() as int),
                            chunk_deltas_spec(choices_s.subrange(0, i as int)),
                        ),
                    decreases choices.len() - i,
                {
                    let ghost pre = choices_s.subrange(0, i as int);
                    let ghost post = choices_s.subrange(0, i + 1);
                    assert(post.drop_last() =~= pre);
                    let ghost old_evs = evs@;
                    match choices[i].get("delta") {
                        Some(delta) => match delta.get("content") {
                            Some(JsonValue::Str(t)) => {
                                if t.unicode_len() > 0 {
                                    let d = t.clone();
                                    let ghost ev = ResponseEvent::TextDelta(d);
                                    evs.push(ResponseEvent::TextDelta(d));
                                    assert(evs@.subrange(opened as int, evs@.len() as int) =~= old_evs.subrange(
                                        opened as int,
                                        old_evs.len() as int,
                                    ).push(ev));
                                }
                            },
                            _ => {},
                        },
                        None => {},
                    }
                    i = i + 1;
                }
                assert(choices_s.subrange(0, choices@.len() as int) =~= choices_s);
            },
            _ => {
                assert(evs@.subrange(opened as int, evs@.len() as int) =~= Seq::<ResponseEvent>::empty());
            },
        }
        assert(opened == 0 ==> evs@.subrange(opened as int, evs@.len() as int) =~= evs@);
        evs
    }

    /// The event for an upstream stream error; the stream ends after it.
    pub fn on_stream_error(&self, message: &str) -> (ev: ResponseEvent)
        ensures
            ev matches ResponseEvent::Error(m) && m@ == "Stream error: "@ + message@,
    {
        ResponseEvent::Error(concat_str("Stream error: ", message))
    }

    /// The events for one classified upstream line: none for a line that is
    /// not data; the completion events for `[DONE]`; for a data line, the
    /// chunk's events when its payload parsed as JSON (`parsed`), and none
    /// when it did not.
    pub fn on_line(&mut self, line: &StreamLine, parsed: Option<&JsonValue>) -> (evs: Vec<
        ResponseEvent,
    >)
        ensures
            final(self).pending() == old(self).pending(),
            final(self).response_id_spec() == old(self).response_id_spec(),
            final(self).item_id_spec() == old(self).item_id_spec(),
            match *line {
                StreamLine::Skip => evs@.len() == 0 && *final(self) == *old(self),
                StreamLine::Done => final(self).is_completed() && final(self).is_started()
                    == old(self).is_started() && (old(self).is_completed() ==> evs@.len() == 0)
                    && (!old(self).is_completed() ==> evs@ == seq![
                    ResponseEvent::ItemDone,
                    ResponseEvent::Completed { with_item: true },
                ]),
                StreamLine::Data(_) => match parsed {
                    None => evs@.len() == 0 && *final(self) == *old(self),
                    Some(c) => final(self).is_started() && final(self).is_completed()
                        == old(self).is_completed() && chunk_events(
                        old(self).is_started(),
                        c@,
                        evs@,
                    ),
                },
            },
    {
        match line {
            StreamLine::Skip => Vec::new(),
            StreamLine::Done => self.on_done(),
            StreamLine::Data(_) => match parsed {
                Some(c) => self.on_chunk(c),
                None => Vec::new(),
            },
        }
    }

    /// The events when the upstream stream ends, which ends the downstream
    /// stream too: after a transport error, the error event first; then, when
    /// not completed yet, the item and the response are completed (with an
    /// empty output list).
    pub fn close(&mut self, failure: Option<&str>) -> (evs: Vec<ResponseEvent>)
        ensures
            final(self).is_completed(),
            final(self).pending() == old(self).pending(),
            final(self).response_id_spec() == old(self).response_id_spec(),
            final(self).item_id_spec() == old(self).item_id_spec(),
            ({
                let tail = if old(self).is_completed() {
                    Seq::<ResponseEvent>::empty()
                } else {
                    seq![ResponseEvent::ItemDone, ResponseEvent::Completed { with_item: false }]
                };
                match failure {
                    Some(m) => evs@.len() >= 1 && (evs@[0] matches ResponseEvent::Error(e) && e@
                        == "Stream error: "@ + m@) && evs@.subrange(1, evs@.len() as int) == tail,
                    None => evs@ == tail,
                }
            }),
    {
        let mut evs: Vec<ResponseEvent> = Vec::new();
        match failure {
            Some(m) => evs.push(self.on_stream_error(m)),
            None => {},
        }
        let ghost head = evs@;
        let mut rest = self.finish();
        let ghost tail = rest@;
        evs.append(&mut rest);
        assert(evs@ == head + tail);
        assert(failure is Some ==> evs@.subrange(1, evs@.len() as int) =~= tail);
        assert(failure is None ==> evs@ =~= tail);
        evs
    }

    /// The events when the upstream stream ends: when not completed yet, the
    /// item and the response are completed (with an empty output list).
    pub fn finish(&mut self) -> (evs: Vec<ResponseEvent>)
        ensures
            final(self).is_completed(),
            final(self).pending() == old(self).pending(),
            final(self).response_id_spec() == old(self).response_id_spec(),
            final(self).item_id_spec() == old(self).item_id_spec(),
            final(self).is_started() == old(self).is_started(),
            old(self).is_completed() ==> evs@.len() == 0,
            !old(self).is_completed() ==> evs@ == seq![
                ResponseEvent::ItemDone,
                ResponseEvent::Completed { with_item: false },
            ],
    {
        let mut evs: Vec<ResponseEvent> = Vec::new();
        if !self.completed {
            self.completed = true;
            evs.push(ResponseEvent::ItemDone);
            evs.push(ResponseEvent::Completed { with_item: false });
        }
        evs
    }
}

/// A JSON string.
pub open spec fn js(s: Seq<char>) -> Json {
    Json::Str(s)
}

/// The JSON number zero.
pub open spec fn zero() -> Json {
    Json::Number("0"@)
}

/// The message item as listed in a completed response or a done event.
pub open spec fn item_ref_spec(item_id: Seq<char>) -> Json {
    Json::Object(seq![("id"@, js(item_id)), ("type"@, js("message"@))])
}

/// The JSON body of an event of the stream with the given ids.
pub open spec fn event_json_spec(response_id: Seq<char>, item_id: Seq<char>, ev: ResponseEvent) -> Json {
    match ev {
        ResponseEvent::Created => Json::Object(
            seq![
                ("type"@, js("response.created"@)),
                (
                    "response"@,
                    Json::Object(
                        seq![
                            ("id"@, js(response_id)),
                            ("object"@, js("response"@)),
                            ("status"@, js("in_progress"@)),
                            ("output"@, Json::Array(Seq::<Json>::empty())),
                        ],
                    ),
                ),
            ],
        ),
        ResponseEvent::ItemAdded => Json::Object(
            seq![
                ("type"@, js("response.output_item.added"@)),
                ("output_index"@, zero()),
                (
                    "item"@,
                    Json::Object(
                        seq![
                            ("id"@, js(item_id)),
                            ("type"@, js("message"@)),
                            ("role"@, js("assistant"@)),
                            ("status"@, js("in_progress"@)),
                            ("content"@, Json::Array(Seq::<Json>::empty())),
                        ],
                    ),
                ),
            ],
        ),
        ResponseEvent::PartAdded => Json::Object(
            seq![
                ("type"@, js("response.content_part.added"@)),
                ("item_id"@, js(item_id)),
                ("output_index"@, zero()),
                ("content_index"@, zero()),
                ("part"@, Json::Object(seq![("type"@, js("output_text"@)), ("text"@, js(""@))])),
            ],
        ),
        ResponseEvent::TextDelta(t) => Json::Object(
            seq![
                ("type"@, js("response.output_text.delta"@)),
                ("item_id"@, js(item_id)),
                ("output_index"@, zero()),
                ("content_index"@, zero()),
                ("delta"@, js(t@)),
            ],
        ),
        ResponseEvent::ItemDone => Json::Object(
            seq![("type"@, js("response.output_item.done"@)), ("item"@, item_ref_spec(item_id))],
        ),
        ResponseEvent::Completed { with_item } => Json::Object(
            seq![
                ("type"@, js("response.completed"@)),
                (
                    "response"@,
                    Json::Object(
                        seq![
                            ("id"@, js(response_id)),
                            ("object"@, js("response"@)),
                            ("status"@, js("completed"@)),
                            (
                                "output"@,
                                Json::Array(
                                    if with_item {
                                        seq![item_ref_spec(item_id)]
                                    } else {
                                        Seq::<Json>::empty()
                                    },
                                ),
                            ),
                        ],
                    ),
                ),
            ],
        ),
        ResponseEvent::Error(m) => Json::Object(
            seq![("type"@, js("error"@)), ("error"@, Json::Object(seq![("message"@, js(m@))]))],
        ),
    }
}

/// A member with a string value.
fn smember(k: &str, v: &str) -> (m: (String, JsonValue))
    ensures
        m.0@ == k@,
        m.1@ == Json::Str(v@),
{
    (to_owned_string(k), json_str(v))
}

/// A member with any value.
fn member_of(k: &str, v: JsonValue) -> (m: (String, JsonValue))
    ensures
        m.0@ == k@,
        m.1 == v,
{
    (to_owned_string(k), v)
}

/// The JSON number zero.
fn json_zero() -> (z: JsonValue)
    ensures
        z@ == zero(),
{
    JsonValue::Number(to_owned_string("0"))
}

/// An object from its members.
fn object(members: Vec<(String, JsonValue)>) -> (o: JsonValue)
    ensures
        o@ == Json::Object(Seq::new(members@.len(), |i: int| (members@[i].0@, members@[i].1@))),
{
    let o = JsonValue::Object(members);
    assert(o@ == Json::Object(Seq::new(members@.len(), |i: int| (members@[i].0@, members@[i].1@)))) by {
        if let Json::Object(x) = o@ {
            assert(x =~= Seq::new(members@.len(), |i: int| (members@[i].0@, members@[i].1@)));
        }
    }
    o
}

/// An array from its elements.
fn array(items: Vec<JsonValue>) -> (a: JsonValue)
    ensures
        a@ == Json::Array(Seq::new(items@.len(), |i: int| items@[i]@)),
{
    let a = JsonValue::Array(items);
    assert(a@ == Json::Array(Seq::new(items@.len(), |i: int| items@[i]@))) by {
        if let Json::Array(x) = a@ {
            assert(x =~= Seq::new(items@.len(), |i: int| items@[i]@));
        }
    }
    a
}

/// An empty array.
fn empty_array() -> (a: JsonValue)
    ensures
        a@ == Json::Array(Seq::<Json>::empty()),
{
    let a = array(Vec::new());
    proof {
        if let Json::Array(x) = a@ {
            assert(x =~= Seq::<Json>::empty());
        }
    }
    a
}

/// The message item reference.
fn item_ref(item_id: &str) -> (j: JsonValue)
    ensures
        j@ == item_ref_spec(item_id@),
{
    let mut m: Vec<(String, JsonValue)> = Vec::new();
    m.push(smember("id", item_id));
    m.push(smember("type", "message"));
    let o = object(m);
    assert(o@ == item_ref_spec(item_id@)) by {
        if let Json::Object(x) = o@ {
            assert(x =~= seq![("id"@, js(item_id@)), ("type"@, js("message"@))]);
        }
    }
    o
}

impl StreamConverter {
    /// The JSON body of an event of this stream.
    pub fn event_json(&self, ev: &ResponseEvent) -> (j: JsonValue)
        ensures
            j@ == event_json_spec(self.response_id_spec(), self.item_id_spec(), *ev),
    {
        let rid = self.response_id.as_str();
        let iid = self.item_id.as_str();
        match ev {
            ResponseEvent::Created => {
                let mut r: Vec<(String, JsonValue)> = Vec::new();
                r.push(smember("id", rid));
                r.push(smember("object", "response"));
                r.push(smember("status", "in_progress"));
                r.push(member_of("output", empty_array()));
                let resp = object(r);
                let mut m: Vec<(String, JsonValue)> = Vec::new();
                m.push(smember("type", "response.created"));
                m.push(member_of("response", resp));
                let o = object(m);
                proof {
                    if let Json::Object(x) = resp@ {
                        assert(x =~= seq![
                            ("id"@, js(rid@)),
                            ("object"@, js("response"@)),
                            ("status"@, js("in_progress"@)),
                            ("output"@, Json::Array(Seq::<Json>::empty())),
                        ]);
                    }
                    if let Json::Object(x) = o@ {
                        if let Json::Object(y) = event_json_spec(rid@, iid@, *ev) {
                            assert(x =~= y);
                        }
                    }
                }
                o
            },
            ResponseEvent::ItemAdded => {
                let mut it: Vec<(String, JsonValue)> = Vec::new();
                it.push(smember("id", iid));
                it.push(smember("type", "message"));
                it.push(smember("role", "assistant"));
                it.push(smember("status", "in_progress"));
                it.push(member_of("content", empty_array()));
                let item = object(it);
                let mut m: Vec<(String, JsonValue)> = Vec::new();
                m.push(smember("type", "response.output_item.added"));
                m.push(member_of("output_index", json_zero()));
                m.push(member_of("item", item));
                let o = object(m);
                proof {
                    if let Json::Object(x) = item@ {
                        assert(x =~= seq![
                            ("id"@, js(iid@)),
                            ("type"@, js("message"@)),
                            ("role"@, js("assistant"@)),
                            ("status"@, js("in_progress"@)),
                            ("content"@, Json::Array(Seq::<Json>::empty())),
                        ]);
                    }
                    if let Json::Object(x) = o@ {
                        if let Json::Object(y) = event_json_spec(rid@, iid@, *ev) {
                            assert(x =~= y);
                        }
                    }
                }
                o
            },
            ResponseEvent::PartAdded => {
                let mut p: Vec<(String, JsonValue)> = Vec::new();
                p.push(smember("type", "output_text"));
                p.push(smember("text", ""));
                let part = object(p);
                let mut m: Vec<(String, JsonValue)> = Vec::new();
                m.push(smember("type", "response.content_part.added"));
                m.push(smember("item_id", iid));
                m.push(member_of("output_index", json_zero()));
                m.push(member_of("content_index", json_zero()));
                m.push(member_of("part", part));
                let o = object(m);
                proof {
                    if let Json::Object(x) = part@ {
                        assert(x =~= seq![("type"@, js("output_text"@)), ("text"@, js(""@))]);
                    }
                    if let Json::Object(x) = o@ {
                        if let Json::Object(y) = event_json_spec(rid@, iid@, *ev) {
                            assert(x =~= y);
                        }
                    }
                }
                o
            },
            ResponseEvent::TextDelta(t) => {
                let mut m: Vec<(String, JsonValue)> = Vec::new();
                m.push(smember("type", "response.output_text.delta"));
                m.push(smember("item_id", iid));
                m.push(member_of("output_index", json_zero()));
                m.push(member_of("content_index", json_zero()));
                m.push(smember("delta", t.as_str()));
                let o = object(m);
                proof {
                    if let Json::Object(x) = o@ {
                        if let Json::Object(y) = event_json_spec(rid@, iid@, *ev) {
                            assert(x =~= y);
                        }
                    }
                }
                o
            },
            ResponseEvent::ItemDone => {
                let mut m: Vec<(String, JsonValue)> = Vec::new();
                m.push(smember("type", "response.output_item.done"));
                m.push(member_of("item", item_ref(iid)));
                let o = object(m);
                proof {
                    if let Json::Object(x) = o@ {
                        if let Json::Object(y) = event_json_spec(rid@, iid@, *ev) {
                            assert(x =~= y);
                        }
                    }
                }
                o
            },
            ResponseEvent::Completed { with_item } => {
                let mut items: Vec<JsonValue> = Vec::new();
                if *with_item {
                    items.push(item_ref(iid));
                }
                let ghost items_v = Seq::new(items@.len(), |i: int| items@[i]@);
                let output = array(items);
                let mut r: Vec<(String, JsonValue)> = Vec::new();
                r.push(smember("id", rid));
                r.push(smember("object", "response"));
                r.push(smember("status", "completed"));
                r.push(member_of("output", output));
                let resp = object(r);
                let mut m: Vec<(String, JsonValue)> = Vec::new();
                m.push(smember("type", "response.completed"));
                m.push(member_of("response", resp));
                let o = object(m);
                proof {
                    let expected_items = if *with_item {
                        seq![item_ref_spec(iid@)]
                    } else {
                        Seq::<Json>::empty()
                    };
                    assert(items_v =~= expected_items);
                    if let Json::Object(x) = resp@ {
                        assert(x =~= seq![
                            ("id"@, js(rid@)),
                            ("object"@, js("response"@)),
                            ("status"@, js("completed"@)),
                            ("output"@, Json::Array(expected_items)),
                        ]);
                    }
                    if let Json::Object(x) = o@ {
                        if let Json::Object(y) = event_json_spec(rid@, iid@, *ev) {
                            assert(x =~= y);
                        }
                    }
                }
                o
            },
            ResponseEvent::Error(msg) => {
                let mut e: Vec<(String, JsonValue)> = Vec::new();
                e.push(smember("message", msg.as_str()));
                let err = object(e);
                let mut m: Vec<(String, JsonValue)> = Vec::new();
                m.push(smember("type", "error"));
                m.push(member_of("error", err));
                let o = object(m);
                proof {
                    if let Json::Object(x) = err@ {
                        assert(x =~= seq![("message"@, js(msg@))]);
                    }
                    if let Json::Object(x) = o@ {
                        if let Json::Object(y) = event_json_spec(rid@, iid@, *ev) {
                            assert(x =~= y);
                        }
                    }
                }
                o
            },
        }
    }
}

/// A server-sent event carrying a JSON text: `data: `, the text, and a blank
/// line.
pub fn sse_frame(json_text: &str) -> (frame: String)
    ensures
        frame@ == "data: "@ + json_text@ + "\n\n"@,
{
    let a = concat_str("data: ", json_text);
    concat_str(a.as_str(), "\n\n")
}


/// The JSON value of a member of an object value, when it has one.
pub open spec fn nested_member(v: Option<Json>, key: Seq<char>) -> Option<Json> {
    match v {
        Some(x) => member(x, key),
        None => None,
    }
}

/// The event bodies of the Responses stream: each kind's body names its
/// kind by its Responses API type string, and carries the stream's ids and
/// the event's data: the response id and status in `response.created` and
/// `response.completed` (whose output lists the message item exactly when it
/// was completed by `[DONE]`), the item id in the item and part events and
/// in each text delta together with the delta's text, and the message of an
/// `error` event.
pub proof fn lemma_event_bodies(response_id: Seq<char>, item_id: Seq<char>, ev: ResponseEvent)
    ensures
        ({
            let j = event_json_spec(response_id, item_id, ev);
            match ev {
                ResponseEvent::Created => {
                    &&& member(j, "type"@) == Some(Json::Str("response.created"@))
                    &&& nested_member(member(j, "response"@), "id"@) == Some(Json::Str(response_id))
                    &&& nested_member(member(j, "response"@), "status"@) == Some(
                        Json::Str("in_progress"@),
                    )
                },
                ResponseEvent::ItemAdded => {
                    &&& member(j, "type"@) == Some(Json::Str("response.output_item.added"@))
                    &&& nested_member(member(j, "item"@), "id"@) == Some(Json::Str(item_id))
                },
                ResponseEvent::PartAdded => {
                    &&& member(j, "type"@) == Some(Json::Str("response.content_part.added"@))
                    &&& member(j, "item_id"@) == Some(Json::Str(item_id))
                },
                ResponseEvent::TextDelta(t) => {
                    &&& member(j, "type"@) == Some(Json::Str("response.output_text.delta"@))
                    &&& member(j, "item_id"@) == Some(Json::Str(item_id))
                    &&& member(j, "delta"@) == Some(Json::Str(t@))
                },
                ResponseEvent::ItemDone => {
                    &&& member(j, "type"@) == Some(Json::Str("response.output_item.done"@))
                    &&& nested_member(member(j, "item"@), "id"@) == Some(Json::Str(item_id))
                },
                ResponseEvent::Completed { with_item } => {
                    &&& member(j, "type"@) == Some(Json::Str("response.completed"@))
                    &&& nested_member(member(j, "response"@), "id"@) == Some(Json::Str(response_id))
                    &&& nested_member(member(j, "response"@), "status"@) == Some(
                        Json::Str("completed"@),
                    )
                    &&& nested_member(member(j, "response"@), "output"@) matches Some(
                        Json::Array(items),
                    ) && items.len() == (if with_item {
                        1int
                    } else {
                        0int
                    })
                },
                ResponseEvent::Error(m) => {
                    &&& member(j, "type"@) == Some(Json::Str("error"@))
                    &&& nested_member(member(j, "error"@), "message"@) == Some(Json::Str(m@))
                },
            }
        }),
{
    reveal_strlit("type");
    reveal_strlit("response");
    reveal_strlit("id");
    reveal_strlit("object");
    reveal_strlit("status");
    reveal_strlit("output");
    reveal_strlit("item");
    reveal_strlit("item_id");
    reveal_strlit("output_index");
    reveal_strlit("content_index");
    reveal_strlit("delta");
    reveal_strlit("error");
    reveal_strlit("message");
    reveal_strlit("role");
    reveal_strlit("content");
    reveal_strlit("part");
    assert("type"@.len() == 4 && "item"@.len() == 4 && "id"@.len() == 2 && "delta"@.len() == 5
        && "error"@.len() == 5 && "status"@.len() == 6 && "object"@.len() == 6
        && "output"@.len() == 6 && "item_id"@.len() == 7 && "message"@.len() == 7
        && "response"@.len() == 8 && "output_index"@.len() == 12 && "content_index"@.len()
        == 13);
    let j = event_json_spec(response_id, item_id, ev);
    // The response object of the created and completed events.
    let resp = |status: Seq<char>, out: Seq<Json>|
        seq![
            ("id"@, js(response_id)),
            ("object"@, js("response"@)),
            ("status"@, js(status)),
            ("output"@, Json::Array(out)),
        ];
    match ev {
        ResponseEvent::Created => {
            let r = resp("in_progress"@, Seq::<Json>::empty());
            let m = seq![("type"@, js("response.created"@)), ("response"@, Json::Object(r))];
            assert(j == Json::Object(m));
            lemma_first_member_at(m, "type"@, 0);
            assert(m[0].0 != "response"@);
            lemma_first_member_at(m, "response"@, 1);
            lemma_first_member_at(r, "id"@, 0);
            assert(r[1].0 != "status"@) by {
                assert(r[1].0[0] != "status"@[0]);
            }
            assert(r[0].0 != "status"@ && r[1].0 != "status"@);
            lemma_first_member_at(r, "status"@, 2);
        },
        ResponseEvent::ItemAdded => {
            let it = seq![
                ("id"@, js(item_id)),
                ("type"@, js("message"@)),
                ("role"@, js("assistant"@)),
                ("status"@, js("in_progress"@)),
                ("content"@, Json::Array(Seq::<Json>::empty())),
            ];
            let m = seq![
                ("type"@, js("response.output_item.added"@)),
                ("output_index"@, zero()),
                ("item"@, Json::Object(it)),
            ];
            assert(j == Json::Object(m));
            lemma_first_member_at(m, "type"@, 0);
            assert(m[0].0 != "item"@) by {
                assert(m[0].0[1] != "item"@[1]);
            }
            assert(m[1].0 != "item"@);
            lemma_first_member_at(m, "item"@, 2);
            lemma_first_member_at(it, "id"@, 0);
        },
        ResponseEvent::PartAdded => {
            let m = seq![
                ("type"@, js("response.content_part.added"@)),
                ("item_id"@, js(item_id)),
                ("output_index"@, zero()),
                ("content_index"@, zero()),
                ("part"@, Json::Object(seq![("type"@, js("output_text"@)), ("text"@, js(""@))])),
            ];
            assert(j == Json::Object(m));
            lemma_first_member_at(m, "type"@, 0);
            assert(m[0].0 != "item_id"@);
            lemma_first_member_at(m, "item_id"@, 1);
        },
        ResponseEvent::TextDelta(t) => {
            let m = seq![
                ("type"@, js("response.output_text.delta"@)),
                ("item_id"@, js(item_id)),
                ("output_index"@, zero()),
                ("content_index"@, zero()),
                ("delta"@, js(t@)),
            ];
            assert(j == Json::Object(m));
            lemma_first_member_at(m, "type"@, 0);
            assert(m[0].0 != "item_id"@);
            lemma_first_member_at(m, "item_id"@, 1);
            assert(m[0].0 != "delta"@ && m[1].0 != "delta"@ && m[2].0 != "delta"@ && m[3].0
                != "delta"@);
            lemma_first_member_at(m, "delta"@, 4);
        },
        ResponseEvent::ItemDone => {
            let it = seq![("id"@, js(item_id)), ("type"@, js("message"@))];
            let m = seq![("type"@, js("response.output_item.done"@)), ("item"@, Json::Object(it))];
            assert(j == Json::Object(m));
            lemma_first_member_at(m, "type"@, 0);
            assert(m[0].0 != "item"@) by {
                assert(m[0].0[1] != "item"@[1]);
            }
            lemma_first_member_at(m, "item"@, 1);
            lemma_first_member_at(it, "id"@, 0);
        },
        ResponseEvent::Completed { with_item } => {
            let out = if with_item {
                seq![item_ref_spec(item_id)]
            } else {
                Seq::<Json>::empty()
            };
            let r = resp("completed"@, out);
            let m = seq![("type"@, js("response.completed"@)), ("response"@, Json::Object(r))];
            assert(j == Json::Object(m));
            lemma_first_member_at(m, "type"@, 0);
            assert(m[0].0 != "response"@);
            lemma_first_member_at(m, "response"@, 1);
            lemma_first_member_at(r, "id"@, 0);
            assert(r[1].0 != "status"@) by {
                assert(r[1].0[0] != "status"@[0]);
            }
            assert(r[0].0 != "status"@ && r[1].0 != "status"@);
            lemma_first_member_at(r, "status"@, 2);
            assert(r[1].0 != "output"@) by {
                assert(r[1].0[1] != "output"@[1]);
            }
            assert(r[0].0 != "output"@ && r[2].0 != "output"@);
            lemma_first_member_at(r, "output"@, 3);
        },
        ResponseEvent::Error(msg) => {
            let e = seq![("message"@, js(msg@))];
            let m = seq![("type"@, js("error"@)), ("error"@, Json::Object(e))];
            assert(j == Json::Object(m));
            lemma_first_member_at(m, "type"@, 0);
            assert(m[0].0 != "error"@);
            lemma_first_member_at(m, "error"@, 1);
            lemma_first_member_at(e, "message"@, 0);
        },
    }
}

} // verus!
