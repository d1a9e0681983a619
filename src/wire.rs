//! Progress events and the decoder of the line-delimited progress stream.
use vstd::prelude::*;

verus! {

/// The byte that ends a record on the wire.
pub const NEWLINE: u8 = 10;

/// The status that marks protocol-level completion of a transfer.
pub open spec fn success_status() -> Seq<char> {
    "success"@
}

/// The status given to a record whose `status` field is absent or not a string.
pub open spec fn unknown_status() -> Seq<char> {
    "unknown"@
}

/// The fields of one wire record as the JSON reader finds them:
/// `status`, `digest`, `total`, `completed`; `None` where the line is not JSON.
pub uninterp spec fn json_progress_fields(line: Seq<u8>) -> Option<
    (Option<Seq<char>>, Option<Seq<char>>, Option<i64>, Option<i64>),
>;

pub open spec fn opt_str_view(o: Option<String>) -> Option<Seq<char>> {
    match o {
        Some(s) => Some(s@),
        None => None,
    }
}

pub open spec fn fields_view(
    r: Option<(Option<String>, Option<String>, Option<i64>, Option<i64>)>,
) -> Option<(Option<Seq<char>>, Option<Seq<char>>, Option<i64>, Option<i64>)> {
    match r {
        Some(f) => Some((opt_str_view(f.0), opt_str_view(f.1), f.2, f.3)),
        None => None,
    }
}

/// Relies on `serde_json::from_slice::<serde_json::Value>` to read one line as
/// JSON, then on `Value`'s indexing by key with `as_str` (for `status` and
/// `digest`) and `as_i64` (for `total` and `completed`). The result depends on
/// the bytes of the line alone.
#[verifier::external_body]
fn read_progress_fields(line: &[u8]) -> (r: Option<
    (Option<String>, Option<String>, Option<i64>, Option<i64>),
>)
    ensures
        fields_view(r) == json_progress_fields(line@),
{
    match serde_json::from_slice::<serde_json::Value>(line) {
        Ok(v) => Some((
            v["status"].as_str().map(|s| s.to_string()),
            v["digest"].as_str().map(|s| s.to_string()),
            v["total"].as_i64(),
            v["completed"].as_i64(),
        )),
        Err(_) => None,
    }
}

/// One decoded progress record: the transfer phase and its byte counts.
#[derive(Debug, Clone, PartialEq, Eq)]
pub struct PullModelResponse {
    pub status: String,
    pub digest: Option<String>,
    pub total: Option<i64>,
    pub completed: Option<i64>,
}

/// What a progress event says: status, digest, total and completed bytes.
pub type EventView = (Seq<char>, Option<Seq<char>>, Option<i64>, Option<i64>);

impl View for PullModelResponse {
    type V = EventView;

    open spec fn view(&self) -> EventView {
        (self.status@, opt_str_view(self.digest), self.total, self.completed)
    }
}

impl PullModelResponse {
    /// Whether this event marks the end of the transfer.
    pub fn is_success(&self) -> (r: bool)
        ensures
            r == (self@.0 == success_status()),
    {
        let success = "success".to_owned();
        proof {
            reveal_strlit("success");
        }
        self.status == success
    }
}

/// The event that a record with these fields stands for.
pub open spec fn event_of_fields(
    f: (Option<Seq<char>>, Option<Seq<char>>, Option<i64>, Option<i64>),
) -> EventView {
    (
        match f.0 {
            Some(s) => s,
            None => unknown_status(),
        },
        f.1,
        f.2,
        f.3,
    )
}

/// The event that one line decodes to; `None` for a malformed line.
pub open spec fn decode_line(line: Seq<u8>) -> Option<EventView> {
    match json_progress_fields(line) {
        Some(f) => Some(event_of_fields(f)),
        None => None,
    }
}

/// Decodes one complete line (without its terminator).
pub fn decode_progress_line(line: &[u8]) -> (r: Option<PullModelResponse>)
    ensures
        match r {
            Some(e) => decode_line(line@) == Some(e@),
            None => decode_line(line@).is_none(),
        },
{
    match read_progress_fields(line) {
        Some(f) => {
            let status = match f.0 {
                Some(s) => s,
                None => {
                    proof {
                        reveal_strlit("unknown");
                    }
                    "unknown".to_owned()
                },
            };
            Some(PullModelResponse { status, digest: f.1, total: f.2, completed: f.3 })
        },
        None => None,
    }
}

/// The events of a sequence of lines, each line decoded on its own and
/// malformed lines left out.
pub open spec fn decode_lines(lines: Seq<Seq<u8>>) -> Seq<EventView>
    decreases lines.len(),
{
    if lines.len() == 0 {
        Seq::empty()
    } else {
        let prev = decode_lines(lines.drop_last());
        match decode_line(lines.last()) {
            Some(e) => prev.push(e),
            None => prev,
        }
    }
}

/// Splits `s`, read after the unterminated text `cur`, into its complete lines
/// and the text after the last terminator.
pub open spec fn split_lines(cur: Seq<u8>, s: Seq<u8>) -> (Seq<Seq<u8>>, Seq<u8>)
    decreases s.len(),
{
    if s.len() == 0 {
        (Seq::empty(), cur)
    } else if s[0] == NEWLINE {
        let rest = split_lines(Seq::empty(), s.drop_first());
        (seq![cur] + rest.0, rest.1)
    } else {
        split_lines(cur.push(s[0]), s.drop_first())
    }
}

/// The events of a whole byte stream: its complete lines, each decoded.
pub open spec fn decode_stream(s: Seq<u8>) -> Seq<EventView> {
    decode_lines(split_lines(Seq::empty(), s).0)
}

/// Feeding `chunks` one after another to a decoder that holds `buf`:
/// the events emitted and the text left pending.
pub open spec fn feed_chunks(buf: Seq<u8>, chunks: Seq<Seq<u8>>) -> (Seq<EventView>, Seq<u8>)
    decreases chunks.len(),
{
    if chunks.len() == 0 {
        (Seq::empty(), buf)
    } else {
        let step = split_lines(buf, chunks[0]);
        let rest = feed_chunks(step.1, chunks.drop_first());
        (decode_lines(step.0) + rest.0, rest.1)
    }
}

pub open spec fn views_of(v: Seq<PullModelResponse>) -> Seq<EventView> {
    v.map_values(|e: PullModelResponse| e@)
}

/// The contents of a sequence of byte vectors.
pub open spec fn lines_view(v: Seq<Vec<u8>>) -> Seq<Seq<u8>> {
    v.map_values(|l: Vec<u8>| l@)
}

/// Cuts a byte stream that arrives in arbitrary chunks into complete lines.
pub struct LineFramer {
    buffer: Vec<u8>,
}

impl View for LineFramer {
    type V = Seq<u8>;

    /// The bytes received after the last line terminator.
    closed spec fn view(&self) -> Seq<u8> {
        self.buffer@
    }
}

proof fn lemma_split_step(cur: Seq<u8>, s: Seq<u8>, i: int)
    requires
        0 <= i < s.len(),
    ensures
        s.skip(i)[0] == s[i],
        s.skip(i).drop_first() == s.skip(i + 1),
{
    assert(s.skip(i).drop_first() =~= s.skip(i + 1));
}

proof fn lemma_decode_push(lines: Seq<Seq<u8>>, l: Seq<u8>)
    ensures
        decode_lines(lines.push(l)) == match decode_line(l) {
            Some(e) => decode_lines(lines).push(e),
            None => decode_lines(lines),
        },
{
    assert(lines.push(l).drop_last() =~= lines);
}

impl LineFramer {
    /// A framer with nothing pending.
    pub fn new() -> (r: LineFramer)
        ensures
            r@ == Seq::<u8>::empty(),
    {
        LineFramer { buffer: Vec::new() }
    }

    /// Appends `chunk` to the pending text and returns, in order, every line
    /// it completes, without terminators; text after the last terminator
    /// stays pending.
    pub fn push_chunk(&mut self, chunk: &[u8]) -> (lines: Vec<Vec<u8>>)
        ensures
            lines_view(lines@) == split_lines(old(self)@, chunk@).0,
            final(self)@ == split_lines(old(self)@, chunk@).1,
    {
        let mut lines: Vec<Vec<u8>> = Vec::new();
        let ghost start = self.buffer@;
        let mut i: usize = 0;
        proof {
            assert(chunk@.skip(0) =~= chunk@);
            assert(lines_view(lines@) + split_lines(start, chunk@).0 =~= split_lines(
                start,
                chunk@,
            ).0);
        }
        while i < chunk.len()
            invariant
                0 <= i <= chunk@.len(),
                split_lines(start, chunk@) == (
                    lines_view(lines@) + split_lines(self.buffer@, chunk@.skip(i as int)).0,
                    split_lines(self.buffer@, chunk@.skip(i as int)).1,
                ),
            decreases chunk@.len() - i,
        {
            let b = chunk[i];
            proof {
                lemma_split_step(self.buffer@, chunk@, i as int);
            }
            if b == NEWLINE {
                let mut line: Vec<u8> = Vec::new();
                std::mem::swap(&mut line, &mut self.buffer);
                let ghost before = lines_view(lines@);
                let ghost lv = line@;
                lines.push(line);
                proof {
                    let rest = split_lines(Seq::empty(), chunk@.skip(i as int + 1));
                    assert(lines_view(lines@) =~= before.push(lv));
                    assert(before + (seq![lv] + rest.0) =~= before.push(lv) + rest.0);
                }
            } else {
                self.buffer.push(b);
            }
            i = i + 1;
        }
        proof {
            assert(chunk@.skip(i as int) =~= Seq::<u8>::empty());
            assert(lines_view(lines@) + Seq::<Seq<u8>>::empty() =~= lines_view(lines@));
        }
        lines
    }
}

/// Reassembles newline-delimited progress records from arbitrary chunks of
/// bytes and decodes them.
pub struct StreamDecoder {
    framer: LineFramer,
}

impl View for StreamDecoder {
    type V = Seq<u8>;

    /// The bytes received after the last line terminator.
    closed spec fn view(&self) -> Seq<u8> {
        self.framer@
    }
}

impl StreamDecoder {
    /// A decoder with nothing pending.
    pub fn new() -> (r: StreamDecoder)
        ensures
            r@ == Seq::<u8>::empty(),
    {
        StreamDecoder { framer: LineFramer::new() }
    }

    /// Appends `chunk` to the pending text and decodes every line completed by
    /// it, in order; a malformed line is skipped, and text after the last
    /// terminator stays pending.
    pub fn push_chunk(&mut self, chunk: &[u8]) -> (events: Vec<PullModelResponse>)
        ensures
            views_of(events@) == decode_lines(split_lines(old(self)@, chunk@).0),
            final(self)@ == split_lines(old(self)@, chunk@).1,
    {
        let lines = self.framer.push_chunk(chunk);
        let ghost all = lines_view(lines@);
        let mut events: Vec<PullModelResponse> = Vec::new();
        let mut i: usize = 0;
        proof {
            assert(all.take(0) =~= Seq::<Seq<u8>>::empty());
        }
        while i < lines.len()
            invariant
                0 <= i <= lines@.len(),
                all == lines_view(lines@),
                views_of(events@) == decode_lines(all.take(i as int)),
            decreases lines@.len() - i,
        {
            let decoded = decode_progress_line(lines[i].as_slice());
            proof {
                assert(all.take(i as int + 1) =~= all.take(i as int).push(lines@[i as int]@));
                lemma_decode_push(all.take(i as int), lines@[i as int]@);
            }
            match decoded {
                Some(e) => {
                    let ghost before = events@;
                    let ghost ev = e@;
                    events.push(e);
                    proof {
                        assert(views_of(events@) =~= views_of(before).push(ev));
                    }
                },
                None => {},
            }
            i = i + 1;
        }
        proof {
            assert(all.take(i as int) =~= all);
        }
        events
    }
}

/// Splitting a stream is compositional: splitting `a + b` is splitting `a`,
/// then splitting `b` after the text that `a` left pending.
pub proof fn lemma_split_concat(cur: Seq<u8>, a: Seq<u8>, b: Seq<u8>)
    ensures
        split_lines(cur, a + b) == (
            split_lines(cur, a).0 + split_lines(split_lines(cur, a).1, b).0,
            split_lines(split_lines(cur, a).1, b).1,
        ),
    decreases a.len(),
{
    if a.len() == 0 {
        assert(a + b =~= b);
        assert(Seq::<Seq<u8>>::empty() + split_lines(cur, b).0 =~= split_lines(cur, b).0);
    } else {
        assert((a + b)[0] == a[0]);
        assert((a + b).drop_first() =~= a.drop_first() + b);
        if a[0] == NEWLINE {
            lemma_split_concat(Seq::empty(), a.drop_first(), b);
            let x = split_lines(Seq::<u8>::empty(), a.drop_first());
            let y = split_lines(x.1, b);
            assert(seq![cur] + (x.0 + y.0) =~= (seq![cur] + x.0) + y.0);
        } else {
            lemma_split_concat(cur.push(a[0]), a.drop_first(), b);
        }
    }
}

/// Decoding lines distributes over concatenation of the lines.
pub proof fn lemma_decode_concat(x: Seq<Seq<u8>>, y: Seq<Seq<u8>>)
    ensures
        decode_lines(x + y) == decode_lines(x) + decode_lines(y),
    decreases y.len(),
{
    if y.len() == 0 {
        assert(x + y =~= x);
        assert(decode_lines(x) + Seq::<EventView>::empty() =~= decode_lines(x));
    } else {
        assert((x + y).drop_last() =~= x + y.drop_last());
        assert((x + y).last() == y.last());
        lemma_decode_concat(x, y.drop_last());
        match decode_line(y.last()) {
            Some(e) => {
                assert(decode_lines(x) + decode_lines(y.drop_last()).push(e)
                    =~= (decode_lines(x) + decode_lines(y.drop_last())).push(e));
            },
            None => {},
        }
    }
}

/// Feeding chunks in turn yields what splitting their concatenation at once yields.
pub proof fn lemma_feed_is_split(buf: Seq<u8>, chunks: Seq<Seq<u8>>)
    ensures
        feed_chunks(buf, chunks) == (
            decode_lines(split_lines(buf, chunks.flatten()).0),
            split_lines(buf, chunks.flatten()).1,
        ),
    decreases chunks.len(),
{
    if chunks.len() == 0 {
        assert(decode_lines(Seq::empty()) =~= Seq::<EventView>::empty());
    } else {
        let c0 = chunks[0];
        let rest = chunks.drop_first();
        assert(chunks.flatten() == c0 + rest.flatten());
        lemma_split_concat(buf, c0, rest.flatten());
        lemma_feed_is_split(split_lines(buf, c0).1, rest);
        lemma_decode_concat(
            split_lines(buf, c0).0,
            split_lines(split_lines(buf, c0).1, rest.flatten()).0,
        );
    }
}

/// However a stream is cut into chunks, a fresh decoder fed the chunks in turn
/// (with `StreamDecoder::push_chunk`) emits exactly the events of decoding each
/// complete line of the whole stream on its own, and leaves the same text pending.
pub proof fn lemma_chunking_is_irrelevant(chunks: Seq<Seq<u8>>)
    ensures
        feed_chunks(Seq::empty(), chunks).0 == decode_stream(chunks.flatten()),
        feed_chunks(Seq::empty(), chunks).1 == split_lines(Seq::empty(), chunks.flatten()).1,
{
    lemma_feed_is_split(Seq::empty(), chunks);
}

/// Two ways of cutting the same stream into chunks give the same events.
pub proof fn lemma_same_stream_same_events(a: Seq<Seq<u8>>, b: Seq<Seq<u8>>)
    requires
        a.flatten() == b.flatten(),
    ensures
        feed_chunks(Seq::empty(), a).0 == feed_chunks(Seq::empty(), b).0,
{
    lemma_feed_is_split(Seq::empty(), a);
    lemma_feed_is_split(Seq::empty(), b);
}

/// A malformed line is skipped: the lines before it and the lines after it
/// decode as if it were not there.
pub proof fn lemma_malformed_line_skipped(
    before: Seq<Seq<u8>>,
    bad: Seq<u8>,
    after: Seq<Seq<u8>>,
)
    requires
        decode_line(bad).is_none(),
    ensures
        decode_lines(before.push(bad) + after) == decode_lines(before) + decode_lines(after),
{
    lemma_decode_push(before, bad);
    lemma_decode_concat(before.push(bad), after);
}

} // verus!
