//! Streaming HTTP: the buffer that a reader fills line by line and a poller
//! drains by cursor.
//!
//! A cursor counts the chunks of a stream from its beginning, so it stays good
//! when old chunks are dropped to keep the buffer within its limit. A stream is
//! known by its identifier alone: whoever holds it may poll or close it.

use vstd::prelude::*;
use vstd::string::*;
use vstd::utf8::*;

use crate::chance::{is_uuid, new_uuid};
use crate::encoding::{base64_encoded, encode_base64, from_utf8};
use crate::internal::http::{http_request, is_http_plan, HttpPlan};
use crate::internal::{require_str, required};
use crate::json::{json_opt_str, json_uint, object_of, pairs_view};
use crate::manager::{next_wait, poll_wait, wait_over};
use crate::table::Table;
use crate::text::{blank, cat2, cat3, is_blank, may_call, opt_string};
use crate::value::{items, opt_value, Json, Value};

verus! {

broadcast use crate::value::group_value_views;

// ── Lines ────────────────────────────────────────────────────────────────────

/// The byte that ends a line.
pub const NEWLINE: u8 = 10;

/// The complete lines of a body, without their ends, and what follows the last
/// of them.
pub open spec fn lines_of(b: Seq<u8>) -> (Seq<Seq<u8>>, Seq<u8>)
    decreases b.len(),
{
    if b.len() == 0 {
        (Seq::empty(), Seq::empty())
    } else {
        let (lines, rest) = lines_of(b.drop_last());
        if b.last() == NEWLINE {
            (lines.push(rest), Seq::empty())
        } else {
            (lines, rest.push(b.last()))
        }
    }
}

proof fn lemma_rest_has_no_newline(b: Seq<u8>)
    ensures
        !lines_of(b).1.contains(NEWLINE),
        lines_of(lines_of(b).1) == (Seq::<Seq<u8>>::empty(), lines_of(b).1),
    decreases b.len(),
{
    if b.len() > 0 {
        lemma_rest_has_no_newline(b.drop_last());
        let (lines, rest) = lines_of(b);
        if b.last() != NEWLINE {
            assert(rest.drop_last() =~= lines_of(b.drop_last()).1);
            assert forall|i: int| 0 <= i < rest.len() implies rest[i] != NEWLINE by {
                if i < rest.len() - 1 {
                    assert(rest[i] == lines_of(b.drop_last()).1[i]);
                    assert(lines_of(b.drop_last()).1.contains(rest[i]));
                }
            }
        }
    }
}

/// How the body of a response is cut into pieces does not matter: the lines of
/// the pieces are the lines of the whole.
pub proof fn lemma_pieces_do_not_matter(a: Seq<u8>, b: Seq<u8>)
    ensures
        lines_of(a + b).0 == lines_of(a).0 + lines_of(lines_of(a).1 + b).0,
        lines_of(a + b).1 == lines_of(lines_of(a).1 + b).1,
    decreases b.len(),
{
    let rest = lines_of(a).1;
    if b.len() == 0 {
        assert(a + b =~= a);
        assert(rest + b =~= rest);
        lemma_rest_has_no_newline(a);
        assert(lines_of(a).0 + Seq::<Seq<u8>>::empty() =~= lines_of(a).0);
    } else {
        lemma_pieces_do_not_matter(a, b.drop_last());
        assert((a + b).drop_last() =~= a + b.drop_last());
        assert((rest + b).drop_last() =~= rest + b.drop_last());
        assert(lines_of(a + b).0 =~= lines_of(a).0 + lines_of(rest + b).0);
    }
}

// ── Chunks ───────────────────────────────────────────────────────────────────

/// The chunk that a line gives: the JSON that it holds, else the line itself, as
/// text or as base64. A blank line gives none.
pub open spec fn chunk_of(line: Seq<u8>, parsed: Option<Json>) -> Option<Json> {
    if line.len() == 0 {
        None
    } else if !valid_utf8(line) {
        Some(object_of(seq![("raw_base64"@, Json::Str(base64_encoded(line)))]))
    } else if is_blank(decode_utf8(line)) {
        None
    } else {
        match parsed {
            Some(v) => Some(v),
            None => Some(object_of(seq![("raw"@, Json::Str(decode_utf8(line)))])),
        }
    }
}

/// Whether a line holds text.
pub open spec fn holds_text(line: Seq<u8>) -> bool {
    line.len() > 0 && valid_utf8(line) && !is_blank(decode_utf8(line))
}

/// Whether `parse` can be asked about a line; it is asked only where the line
/// holds text.
pub open spec fn may_ask_about<F: Fn(&str) -> Option<Value>>(parse: F, line: Seq<u8>) -> bool {
    holds_text(line) ==> may_call(parse, decode_utf8(line))
}

/// Whether `parse` can be asked about each of some lines.
pub open spec fn may_ask_about_all<F: Fn(&str) -> Option<Value>>(
    parse: F,
    lines: Seq<Seq<u8>>,
) -> bool {
    forall|i: int| 0 <= i < lines.len() ==> may_ask_about(parse, #[trigger] lines[i])
}

/// Whether `parse` may give `o` for a line that it is asked about; it is asked
/// about every line that holds text.
pub open spec fn may_parse<F: Fn(&str) -> Option<Value>>(
    parse: F,
    line: Seq<u8>,
    o: Option<Value>,
) -> bool {
    holds_text(line) ==> exists|s: &str|
        s@ == decode_utf8(line) && #[trigger] call_ensures(parse, (s,), o)
}

/// The chunk that a line gives. `parse` reads JSON text.
fn line_chunk<F: Fn(&str) -> Option<Value>>(line: &Vec<u8>, parse: &F) -> (r: (
    Option<Value>,
    Ghost<Option<Value>>,
))
    requires
        may_ask_about(*parse, line@),
    ensures
        may_parse(*parse, line@, r.1@),
        opt_value(r.0) == chunk_of(line@, opt_value(r.1@)),
{
    if line.len() == 0 {
        return (None, Ghost(None));
    }
    let copy = line.clone();
    assert(copy@ =~= line@);
    match from_utf8(copy) {
        Err(_) => {
            let pairs: Vec<(&'static str, Value)> = vec![
                ("raw_base64", Value::Str(encode_base64(line))),
            ];
            assert(pairs_view(pairs@) =~= seq![("raw_base64"@, Json::Str(base64_encoded(line@)))]);
            (Some(Value::object(pairs)), Ghost(None))
        },
        Ok(text) => {
            let t: &str = text.as_str();
            if blank(t) {
                return (None, Ghost(None));
            }
            let o = parse(t);
            let ghost seen = o;
            assert(call_ensures(*parse, (t,), o));
            match o {
                Some(v) => (Some(v), Ghost(seen)),
                None => {
                    let pairs: Vec<(&'static str, Value)> = vec![("raw", Value::text(t))];
                    assert(pairs_view(pairs@) =~= seq![("raw"@, Json::Str(t@))]);
                    (Some(Value::object(pairs)), Ghost(seen))
                },
            }
        },
    }
}

// ── The buffer ───────────────────────────────────────────────────────────────

/// The buffer of a stream.
#[derive(Debug)]
pub struct StreamState {
    pub status: Option<u16>,
    /// The cursor of the first chunk that is still there.
    pub base_index: u64,
    pub chunks: Vec<Value>,
    /// The length of the line that each chunk came from, in bytes.
    pub sizes: Vec<usize>,
    /// The sum of the sizes.
    pub buffered_bytes: usize,
    /// How many chunks were dropped in all.
    pub dropped: u64,
    pub done: bool,
    pub error: Option<String>,
    /// What came in behind the last complete line.
    pub pending: Vec<u8>,
    /// When the stream was last polled, in nanoseconds.
    pub last_polled: u128,
}

/// The buffer of a stream, as mathematics.
#[verifier::ext_equal]
pub struct StreamBuffer {
    pub base: int,
    pub chunks: Seq<Json>,
    /// The length of the line that each chunk came from.
    pub sizes: Seq<int>,
    pub dropped: int,
}

/// The sum of some lengths.
pub open spec fn total(s: Seq<int>) -> int
    decreases s.len(),
{
    if s.len() == 0 {
        0
    } else {
        s[0] + total(s.skip(1))
    }
}

proof fn lemma_total_push(s: Seq<int>, x: int)
    ensures
        total(s.push(x)) == total(s) + x,
    decreases s.len(),
{
    if s.len() == 0 {
        reveal_with_fuel(total, 2);
        assert(s.push(x).skip(1) =~= Seq::<int>::empty());
    } else {
        assert(s.push(x).skip(1) =~= s.skip(1).push(x));
        lemma_total_push(s.skip(1), x);
    }
}

proof fn lemma_total_bounds(s: Seq<int>)
    requires
        forall|i: int| 0 <= i < s.len() ==> 0 <= #[trigger] s[i],
    ensures
        0 <= total(s),
        s.len() > 0 ==> s[0] <= total(s),
    decreases s.len(),
{
    if s.len() > 0 {
        assert forall|i: int| 0 <= i < s.skip(1).len() implies 0 <= #[trigger] s.skip(1)[i] by {
            assert(s.skip(1)[i] == s[i + 1]);
        }
        lemma_total_bounds(s.skip(1));
    }
}

/// A buffer that nothing was put into yet.
pub open spec fn empty_buffer() -> StreamBuffer {
    StreamBuffer { base: 0, chunks: Seq::empty(), sizes: Seq::empty(), dropped: 0 }
}

pub open spec fn sizes_view(v: Seq<usize>) -> Seq<int> {
    Seq::new(v.len(), |i: int| v[i] as int)
}

/// The buffer without its oldest chunk, which is counted as dropped.
pub open spec fn without_oldest(b: StreamBuffer) -> StreamBuffer {
    StreamBuffer {
        base: b.base + 1,
        chunks: b.chunks.skip(1),
        sizes: b.sizes.skip(1),
        dropped: b.dropped + 1,
    }
}

/// The buffer with its oldest chunks dropped until it is within the limit or one
/// chunk is left.
pub open spec fn trimmed_buffer(b: StreamBuffer, max: int) -> StreamBuffer
    decreases b.chunks.len(),
{
    if total(b.sizes) > max && b.chunks.len() > 1 {
        trimmed_buffer(without_oldest(b), max)
    } else {
        b
    }
}

/// The buffer with a chunk added whose line has a length.
pub open spec fn with_newest(b: StreamBuffer, c: Json, size: int) -> StreamBuffer {
    StreamBuffer { chunks: b.chunks.push(c), sizes: b.sizes.push(size), ..b }
}

/// The buffer with the chunk of a line added.
pub open spec fn with_line(b: StreamBuffer, line: Seq<u8>, parsed: Option<Json>, max: int) -> StreamBuffer {
    match chunk_of(line, parsed) {
        None => b,
        Some(c) => trimmed_buffer(with_newest(b, c, line.len() as int), max),
    }
}

/// The buffer with the chunks of the first `n` lines added.
pub open spec fn with_lines(
    b: StreamBuffer,
    lines: Seq<Seq<u8>>,
    parsed: Seq<Option<Value>>,
    max: int,
    n: nat,
) -> StreamBuffer
    decreases n,
{
    if n == 0 || n > lines.len() {
        b
    } else {
        with_line(
            with_lines(b, lines, parsed, max, (n - 1) as nat),
            lines[n - 1],
            opt_value(parsed[n - 1]),
            max,
        )
    }
}

/// Whether nobody has polled a stream for longer than it may go without a reader.
pub open spec fn idle(last_polled: u128, now: u128, idle_ttl_secs: u64) -> bool {
    now - last_polled > idle_ttl_secs * 1_000_000_000
}

impl StreamState {
    pub open spec fn buffer(&self) -> StreamBuffer {
        StreamBuffer {
            base: self.base_index as int,
            chunks: items(self.chunks@),
            sizes: sizes_view(self.sizes@),
            dropped: self.dropped as int,
        }
    }

    /// The cursor behind the newest chunk.
    pub open spec fn end(&self) -> int {
        self.base_index + self.chunks@.len()
    }

    /// Whether each chunk has its size, the sizes are summed up, and what is
    /// before the first chunk was dropped.
    pub open spec fn well_formed(&self) -> bool {
        &&& self.sizes@.len() == self.chunks@.len()
        &&& self.buffered_bytes == total(sizes_view(self.sizes@))
        &&& self.dropped == self.base_index
    }

    /// Whether so many more bytes can be counted.
    pub open spec fn has_room(&self, n: int) -> bool {
        &&& self.well_formed()
        &&& self.buffered_bytes + n <= usize::MAX
        &&& self.end() + n <= u64::MAX
    }

    /// A stream whose headers have arrived.
    pub fn new(status: u16, now: u128) -> (r: StreamState)
        ensures
            r.status == Some(status),
            r.buffer() == empty_buffer(),
            r.well_formed(),
            !r.done,
            r.error is None,
            r.pending@.len() == 0,
            r.last_polled == now,
    {
        let r = StreamState {
            status: Some(status),
            base_index: 0,
            chunks: Vec::new(),
            sizes: Vec::new(),
            buffered_bytes: 0,
            dropped: 0,
            done: false,
            error: None,
            pending: Vec::new(),
            last_polled: now,
        };
        assert(r.buffer() =~= empty_buffer());
        r
    }

    /// The cursor behind the newest chunk.
    pub fn next_index(&self) -> (r: u64)
        requires
            self.end() <= u64::MAX,
        ensures
            r == self.end(),
    {
        self.base_index + self.chunks.len() as u64
    }

    /// Add the chunk of a line, and drop the oldest chunks while the lines of those
    /// in the buffer are over its limit; the newest one always stays.
    pub fn push_line<F: Fn(&str) -> Option<Value>>(
        &mut self,
        line: &Vec<u8>,
        max_buffer_bytes: usize,
        parse: &F,
    )
        requires
            may_ask_about(*parse, line@),
            old(self).has_room(line@.len() as int),
        ensures
            exists|o: Option<Value>|
                may_parse(*parse, line@, o) && final(self).buffer() == #[trigger] with_line(
                    old(self).buffer(),
                    line@,
                    opt_value(o),
                    max_buffer_bytes as int,
                ),
            final(self).well_formed(),
            final(self).buffer() == old(self).buffer() || final(self).chunks@.len() == 1
                || final(self).buffered_bytes <= max_buffer_bytes,
            final(self).status == old(self).status,
            final(self).done == old(self).done,
            final(self).error == old(self).error,
            final(self).pending == old(self).pending,
            final(self).last_polled == old(self).last_polled,
    {
        let ghost b = self.buffer();
        let one = self.add_line(line, max_buffer_bytes, parse);
        assert(self.buffer() == with_line(b, line@, opt_value(one@), max_buffer_bytes as int));
    }

    fn add_line<F: Fn(&str) -> Option<Value>>(
        &mut self,
        line: &Vec<u8>,
        max_buffer_bytes: usize,
        parse: &F,
    ) -> (parsed: Ghost<Option<Value>>)
        requires
            may_ask_about(*parse, line@),
            old(self).has_room(line@.len() as int),
        ensures
            may_parse(*parse, line@, parsed@),
            final(self).buffer() == with_line(
                old(self).buffer(),
                line@,
                opt_value(parsed@),
                max_buffer_bytes as int,
            ),
            final(self).buffered_bytes <= old(self).buffered_bytes + line@.len(),
            final(self).end() <= old(self).end() + line@.len(),
            final(self).well_formed(),
            final(self).buffer() == old(self).buffer() || final(self).chunks@.len() == 1
                || final(self).buffered_bytes <= max_buffer_bytes,
            final(self).status == old(self).status,
            final(self).done == old(self).done,
            final(self).error == old(self).error,
            final(self).pending == old(self).pending,
            final(self).last_polled == old(self).last_polled,
    {
        let (chunk, parsed) = line_chunk(line, parse);
        let c = match chunk {
            None => {
                return parsed;
            },
            Some(c) => c,
        };
        let ghost start = *self;
        let ghost b0 = self.buffer();
        let ghost cv = c@;
        let size: usize = line.len();
        self.chunks.push(c);
        self.sizes.push(size);
        self.buffered_bytes = self.buffered_bytes + size;
        let ghost grown = with_newest(b0, cv, line@.len() as int);
        proof {
            lemma_total_push(b0.sizes, line@.len() as int);
            assert(sizes_view(self.sizes@) =~= grown.sizes);
            assert(self.buffer() =~= grown);
        }
        while self.buffered_bytes > max_buffer_bytes && self.chunks.len() > 1
            invariant
                trimmed_buffer(self.buffer(), max_buffer_bytes as int) == trimmed_buffer(
                    grown,
                    max_buffer_bytes as int,
                ),
                self.well_formed(),
                self.chunks@.len() >= 1,
                self.end() == start.end() + 1,
                self.end() <= u64::MAX,
                self.buffered_bytes <= start.buffered_bytes + line@.len(),
                self.status == start.status,
                self.done == start.done,
                self.error == start.error,
                self.pending == start.pending,
                self.last_polled == start.last_polled,
            decreases self.chunks.len(),
        {
            let ghost before = self.buffer();
            proof {
                lemma_total_bounds(before.sizes);
                assert forall|i: int| 0 <= i < before.sizes.skip(1).len() implies 0
                    <= #[trigger] before.sizes.skip(1)[i] by {
                    assert(before.sizes.skip(1)[i] == before.sizes[i + 1]);
                }
                lemma_total_bounds(before.sizes.skip(1));
            }
            let _ = self.chunks.remove(0);
            let oldest: usize = self.sizes.remove(0);
            assert(oldest as int == before.sizes[0]);
            self.buffered_bytes = self.buffered_bytes - oldest;
            self.base_index = self.base_index + 1;
            self.dropped = self.dropped + 1;
            assert(items(self.chunks@) =~= before.chunks.skip(1));
            assert(sizes_view(self.sizes@) =~= before.sizes.skip(1));
            assert(self.buffer() =~= without_oldest(before));
        }
        parsed
    }

    /// Take in a piece of the body: the chunks of the lines that it completes
    /// are added, what is behind them waits for the next piece.
    pub fn receive<F: Fn(&str) -> Option<Value>>(
        &mut self,
        bytes: &Vec<u8>,
        max_buffer_bytes: usize,
        parse: &F,
    )
        requires
            may_ask_about_all(*parse, lines_of(old(self).pending@ + bytes@).0),
            old(self).has_room((old(self).pending@.len() + bytes@.len()) as int),
            lines_of(old(self).pending@) == (Seq::<Seq<u8>>::empty(), old(self).pending@),
        ensures
            ({
                let (lines, rest) = lines_of(old(self).pending@ + bytes@);
                exists|parsed: Seq<Option<Value>>|
                    are_parses(*parse, lines, parsed) && final(self).buffer() == #[trigger] with_lines(
                        old(self).buffer(),
                        lines,
                        parsed,
                        max_buffer_bytes as int,
                        lines.len(),
                    ) && final(self).pending@ == rest
            }),
            lines_of(final(self).pending@) == (Seq::<Seq<u8>>::empty(), final(self).pending@),
            final(self).well_formed(),
            final(self).status == old(self).status,
            final(self).done == old(self).done,
            final(self).error == old(self).error,
            final(self).last_polled == old(self).last_polled,
    {
        let ghost start = *self;
        let ghost p = self.pending@;
        let ghost mut parsed: Seq<Option<Value>> = Seq::empty();
        let mut i: usize = 0;
        assert(p + bytes@.take(0) =~= p);
        while i < bytes.len()
            invariant
                i <= bytes.len(),
                may_ask_about_all(*parse, lines_of(p + bytes@).0),
                p == start.pending@,
                parsed.len() == lines_of(p + bytes@.take(i as int)).0.len(),
                are_parses(*parse, lines_of(p + bytes@.take(i as int)).0, parsed),
                self.buffer() == with_lines(
                    start.buffer(),
                    lines_of(p + bytes@.take(i as int)).0,
                    parsed,
                    max_buffer_bytes as int,
                    lines_of(p + bytes@.take(i as int)).0.len(),
                ),
                self.pending@ == lines_of(p + bytes@.take(i as int)).1,
                self.has_room(self.pending@.len() + (bytes@.len() - i)),
                self.status == start.status,
                self.done == start.done,
                self.error == start.error,
                self.last_polled == start.last_polled,
            decreases bytes.len() - i,
        {
            let ghost so_far = p + bytes@.take(i as int);
            let ghost next = p + bytes@.take(i + 1);
            assert(next.drop_last() =~= so_far);
            assert(next.last() == bytes@[i as int]);
            if bytes[i] == NEWLINE {
                let mut line: Vec<u8> = Vec::new();
                std::mem::swap(&mut line, &mut self.pending);
                let ghost before = self.buffer();
                let ghost lines = lines_of(so_far).0;
                let ghost parsed0 = parsed;
                proof {
                    let rest = bytes@.skip(i + 1);
                    assert(next + rest =~= p + bytes@);
                    lemma_pieces_do_not_matter(next, rest);
                    assert(lines_of(next).0 == lines.push(line@));
                    assert(lines_of(p + bytes@).0[lines.len() as int] == line@);
                }
                let one = self.add_line(&line, max_buffer_bytes, parse);
                proof {
                    parsed = parsed.push(one@);
                    lemma_with_lines_prefix(
                        start.buffer(),
                        lines,
                        lines.push(line@),
                        parsed0,
                        parsed,
                        max_buffer_bytes as int,
                        lines.len(),
                    );
                    assert(lines_of(next).0 == lines.push(line@));
                    assert(self.pending@ =~= Seq::<u8>::empty());
                    assert(are_parses(*parse, lines.push(line@), parsed));
                }
            } else {
                self.pending.push(bytes[i]);
            }
            i += 1;
        }
        proof {
            assert(bytes@.take(bytes@.len() as int) =~= bytes@);
            lemma_rest_has_no_newline(p + bytes@);
        }
    }

    /// Mark the end of a stream.
    pub fn finish(&mut self, error: Option<String>)
        ensures
            final(self).done,
            final(self).error == error,
            final(self).buffer() == old(self).buffer(),
            final(self).well_formed() == old(self).well_formed(),
            final(self).status == old(self).status,
            final(self).pending == old(self).pending,
            final(self).last_polled == old(self).last_polled,
    {
        self.done = true;
        self.error = error;
    }

    /// Whether nobody has polled for longer than a limit.
    pub fn is_idle(&self, now: u128, idle_ttl_secs: u64) -> (r: bool)
        ensures
            r == idle(self.last_polled, now, idle_ttl_secs),
    {
        now > self.last_polled && now - self.last_polled > idle_ttl_secs as u128 * 1_000_000_000
    }
}

/// Whether the parses are those of the lines.
pub open spec fn are_parses<F: Fn(&str) -> Option<Value>>(
    parse: F,
    lines: Seq<Seq<u8>>,
    parsed: Seq<Option<Value>>,
) -> bool {
    parsed.len() == lines.len() && forall|i: int|
        0 <= i < lines.len() ==> may_parse(parse, #[trigger] lines[i], parsed[i])
}

proof fn lemma_with_lines_prefix(
    b: StreamBuffer,
    a: Seq<Seq<u8>>,
    c: Seq<Seq<u8>>,
    pa: Seq<Option<Value>>,
    pc: Seq<Option<Value>>,
    max: int,
    n: nat,
)
    requires
        n <= a.len(),
        n <= c.len(),
        n <= pa.len(),
        n <= pc.len(),
        forall|i: int| 0 <= i < n ==> #[trigger] a[i] == c[i],
        forall|i: int| 0 <= i < n ==> #[trigger] pa[i] == pc[i],
    ensures
        with_lines(b, a, pa, max, n) == with_lines(b, c, pc, max, n),
    decreases n,
{
    if n > 0 {
        lemma_with_lines_prefix(b, a, c, pa, pc, max, (n - 1) as nat);
        assert(a[n - 1] == c[n - 1]);
        assert(pa[n - 1] == pc[n - 1]);
    }
}

/// What happens to a stream that is being read.
#[derive(Debug)]
pub enum StreamEvent {
    /// Nobody has polled for too long.
    Idle,
    /// Nothing came in for a while.
    Quiet,
    /// A piece of the body came in.
    Bytes(Vec<u8>),
    /// The body could not be read further.
    Failed(String),
    /// The body is complete.
    Ended,
}

/// Whether this is what an event does to a stream, and whether the stream ends by it.
pub open spec fn is_stream_step<F: Fn(&str) -> Option<Value>>(
    r: bool,
    before: StreamState,
    after: StreamState,
    event: StreamEvent,
    max: int,
    parse: F,
) -> bool {
    &&& r == (event is Idle || event is Failed || event is Ended)
    &&& r ==> after.done
    &&& !r ==> after.done == before.done && after.error == before.error
    &&& match event {
        StreamEvent::Idle => after.buffer() == before.buffer() && opt_string(
            after.error,
        ) == Some("idle: no poller, stream aborted"@),
        StreamEvent::Quiet => after == before,
        StreamEvent::Bytes(b) => {
            let (lines, rest) = lines_of(before.pending@ + b@);
            exists|parsed: Seq<Option<Value>>|
                are_parses(parse, lines, parsed) && after.buffer()
                    == #[trigger] with_lines(
                    before.buffer(),
                    lines,
                    parsed,
                    max,
                    lines.len(),
                ) && after.pending@ == rest
        },
        StreamEvent::Failed(e) => opt_string(after.error) == Some(
            "stream read failed: "@ + e@,
        ),
        StreamEvent::Ended => after.error is None,
    }
    &&& event is Failed || event is Ended ==> exists|o: Option<Value>|
        may_parse(parse, before.pending@, o) && after.buffer()
            == #[trigger] with_line(
            before.buffer(),
            before.pending@,
            opt_value(o),
            max,
        )
    &&& event is Idle ==> after.pending == before.pending
    &&& event is Failed || event is Ended ==> after.pending@.len() == 0
    &&& lines_of(after.pending@) == (Seq::<Seq<u8>>::empty(), after.pending@)
    &&& after.well_formed()
    &&& after.status == before.status
    &&& after.last_polled == before.last_polled
}

impl StreamState {
    /// Take in what happened to a stream; says whether the reader is through.
    /// What is behind the last line end when the body ends is a line too.
    pub fn read_stream<F: Fn(&str) -> Option<Value>>(
        &mut self,
        event: StreamEvent,
        max_buffer_bytes: usize,
        parse: &F,
    ) -> (r: bool)
        requires
            match event {
                StreamEvent::Bytes(b) => may_ask_about_all(
                    *parse,
                    lines_of(old(self).pending@ + b@).0,
                ),
                StreamEvent::Failed(_) => may_ask_about(*parse, old(self).pending@),
                StreamEvent::Ended => may_ask_about(*parse, old(self).pending@),
                _ => true,
            },
            old(self).has_room(
                old(self).pending@.len() + (match event {
                    StreamEvent::Bytes(b) => b@.len() as int,
                    _ => 0,
                }),
            ),
            lines_of(old(self).pending@) == (Seq::<Seq<u8>>::empty(), old(self).pending@),
        ensures
            is_stream_step(r, *old(self), *final(self), event, max_buffer_bytes as int, *parse),
    {
        match event {
            StreamEvent::Idle => {
                self.finish(Some("idle: no poller, stream aborted".to_owned()));
                true
            },
            StreamEvent::Quiet => false,
            StreamEvent::Bytes(b) => {
                self.receive(&b, max_buffer_bytes, parse);
                false
            },
            StreamEvent::Failed(e) => {
                self.push_pending(max_buffer_bytes, parse);
                self.finish(Some(cat2("stream read failed: ", e.as_str())));
                assert(self.pending@ =~= Seq::<u8>::empty());
                true
            },
            StreamEvent::Ended => {
                self.push_pending(max_buffer_bytes, parse);
                self.finish(None);
                assert(self.pending@ =~= Seq::<u8>::empty());
                true
            },
        }
    }

    fn push_pending<F: Fn(&str) -> Option<Value>>(&mut self, max_buffer_bytes: usize, parse: &F)
        requires
            may_ask_about(*parse, old(self).pending@),
            old(self).has_room(old(self).pending@.len() as int),
        ensures
            exists|o: Option<Value>|
                may_parse(*parse, old(self).pending@, o) && final(self).buffer()
                    == #[trigger] with_line(
                    old(self).buffer(),
                    old(self).pending@,
                    opt_value(o),
                    max_buffer_bytes as int,
                ),
            final(self).pending@.len() == 0,
            final(self).well_formed(),
            final(self).status == old(self).status,
            final(self).last_polled == old(self).last_polled,
    {
        let mut line: Vec<u8> = Vec::new();
        std::mem::swap(&mut line, &mut self.pending);
        assert(line@ == old(self).pending@);
        assert(self.buffer() == old(self).buffer());
        let one = self.add_line(&line, max_buffer_bytes, parse);
        assert(may_parse(*parse, old(self).pending@, one@));
        assert(self.buffer() == with_line(
            old(self).buffer(),
            old(self).pending@,
            opt_value(one@),
            max_buffer_bytes as int,
        ));
    }
}

// ── Polling ──────────────────────────────────────────────────────────────────

/// The cursor that a call names; anything but a number from zero on is the
/// beginning.
pub open spec fn cursor_in(params: Json) -> u64 {
    match params.get_i64("cursor"@) {
        Some(c) => if c >= 0 {
            c as u64
        } else {
            0
        },
        None => 0,
    }
}

/// The chunks from a cursor on, as far as they are still there.
pub open spec fn chunks_from(b: StreamBuffer, cursor: int) -> Seq<Json> {
    if cursor <= b.base {
        b.chunks
    } else if cursor - b.base < b.chunks.len() {
        b.chunks.skip(cursor - b.base)
    } else {
        Seq::empty()
    }
}

pub open spec fn poll_json(s: StreamState, cursor: int) -> Json {
    object_of(
        seq![
            ("chunks"@, Json::Array(chunks_from(s.buffer(), cursor))),
            ("next_cursor"@, json_uint(s.end() as u64)),
            ("done"@, Json::Bool(s.done)),
            ("dropped"@, json_uint(s.dropped)),
            (
                "status"@,
                match s.status {
                    Some(n) => json_uint(n as u64),
                    None => Json::Null,
                },
            ),
            ("error"@, json_opt_str(opt_string(s.error))),
        ],
    )
}

/// What polling a stream asks of the caller.
#[derive(Debug)]
pub enum PollStep {
    /// Answer with this.
    Reply(Value),
    /// Look again after so many milliseconds.
    Wait(u64),
}

/// What polling a stream comes to: an answer as soon as there is something new
/// or the stream has ended, or the wait is over.
fn poll_state(s: &StreamState, cursor: u64, wait_secs: Option<u64>, waited_ms: u64) -> (r: PollStep)
    requires
        s.end() <= u64::MAX,
    ensures
        if chunks_from(s.buffer(), cursor as int).len() > 0 || s.done || wait_over(
            wait_secs,
            waited_ms,
        ) {
            r matches PollStep::Reply(v) && v@ == poll_json(*s, cursor as int)
        } else {
            r matches PollStep::Wait(ms) && ms == next_wait(wait_secs, waited_ms)
        },
{
    let from: usize = if cursor <= s.base_index {
        0
    } else if cursor - s.base_index < s.chunks.len() as u64 {
        (cursor - s.base_index) as usize
    } else {
        s.chunks.len()
    };
    let mut chunks: Vec<Value> = Vec::new();
    let mut i: usize = from;
    while i < s.chunks.len()
        invariant
            from <= i <= s.chunks.len(),
            chunks@.len() == i - from,
            forall|j: int| 0 <= j < chunks@.len() ==> (#[trigger] chunks@[j])@ == s.chunks@[from + j]@,
        decreases s.chunks.len() - i,
    {
        chunks.push(s.chunks[i].clone());
        i += 1;
    }
    assert(items(chunks@) =~= chunks_from(s.buffer(), cursor as int));
    if chunks.len() == 0 && !s.done {
        if let Some(ms) = poll_wait(wait_secs, waited_ms) {
            return PollStep::Wait(ms);
        }
    }
    let status = match s.status {
        Some(n) => Value::uint(n as u64),
        None => Value::Null,
    };
    let error = match &s.error {
        Some(e) => Value::text(e.as_str()),
        None => Value::Null,
    };
    let pairs: Vec<(&'static str, Value)> = vec![
        ("chunks", Value::Array(chunks)),
        ("next_cursor", Value::uint(s.next_index())),
        ("done", Value::Bool(s.done)),
        ("dropped", Value::uint(s.dropped)),
        ("status", status),
        ("error", error),
    ];
    assert(pairs_view(pairs@) =~= seq![
        ("chunks"@, Json::Array(chunks_from(s.buffer(), cursor as int))),
        ("next_cursor"@, json_uint(s.end() as u64)),
        ("done"@, Json::Bool(s.done)),
        ("dropped"@, json_uint(s.dropped)),
        (
            "status"@,
            match s.status {
                Some(n) => json_uint(n as u64),
                None => Json::Null,
            },
        ),
        ("error"@, json_opt_str(opt_string(s.error))),
    ]);
    PollStep::Reply(Value::object(pairs))
}

/// Whether a stream is opened and answered as it should: empty, and as if polled
/// just now.
pub open spec fn is_stream_start(
    r: Json,
    before: Map<Seq<char>, StreamState>,
    after: Map<Seq<char>, StreamState>,
    id: Seq<char>,
    status: u16,
    now: u128,
) -> bool {
    let s = after[id];
    &&& r == object_of(
        seq![("stream_id"@, Json::Str(id)), ("status"@, json_uint(status as u64))],
    )
    &&& after.contains_key(id)
    &&& after == before.insert(id, s)
    &&& s.buffer() == empty_buffer()
    &&& s.well_formed()
    &&& s.status == Some(status)
    &&& !s.done
    &&& s.error is None
    &&& s.pending@.len() == 0
    &&& s.last_polled == now
}

/// How a stream is requested: as any other request, its time limit being that of
/// the connection.
pub fn stream_request(params: &Value) -> (r: Result<HttpPlan, String>)
    ensures
        is_http_plan(r, params@),
{
    http_request(params)
}

/// The streams that are open.
pub struct StreamRegistry {
    pub streams: Table<StreamState>,
}

pub open spec fn no_stream(id: Seq<char>) -> Seq<char> {
    "no stream registered for stream_id '"@ + id + "'"@
}

/// Whether this answers a poll of a stream: with what is there from the cursor on, or
/// once the stream has ended or the wait is over; else it waits. Either way the
/// stream was polled now.
pub open spec fn is_stream_poll(
    r: Result<PollStep, String>,
    before: Map<Seq<char>, StreamState>,
    after: Map<Seq<char>, StreamState>,
    params: Json,
    now: u128,
    waited_ms: u64,
) -> bool {
    match required(params, "stream_id"@) {
        Err(e) => r is Err && r->Err_0@ == e && after == before,
        Ok(id) => if !before.contains_key(id) {
            r is Err && r->Err_0@ == no_stream(id) && after == before
        } else {
            let s = before[id];
            let cursor = cursor_in(params) as int;
            &&& after == before.insert(id, StreamState { last_polled: now, ..s })
            &&& if chunks_from(s.buffer(), cursor).len() > 0 || s.done || wait_over(
                params.get_u64("wait_secs"@),
                waited_ms,
            ) {
                r matches Ok(PollStep::Reply(v)) && v@ == poll_json(s, cursor)
            } else {
                r matches Ok(PollStep::Wait(ms)) && ms == next_wait(
                    params.get_u64("wait_secs"@),
                    waited_ms,
                )
            }
        },
    }
}

/// Whether this closes a stream.
pub open spec fn is_stream_close(
    r: Result<(bool, Value), String>,
    before: Map<Seq<char>, StreamState>,
    after: Map<Seq<char>, StreamState>,
    params: Json,
) -> bool {
    match required(params, "stream_id"@) {
        Err(e) => r is Err && r->Err_0@ == e && after == before,
        Ok(id) => {
            &&& r is Ok
            &&& r->Ok_0.0 == before.contains_key(id)
            &&& r->Ok_0.1@ == object_of(
                seq![
                    ("closed"@, Json::Bool(before.contains_key(id))),
                    ("stream_id"@, Json::Str(id)),
                ],
            )
            &&& after == before.remove(id)
        },
    }
}

impl StreamRegistry {
    pub open spec fn view(&self) -> Map<Seq<char>, StreamState> {
        self.streams@
    }

    pub fn new() -> (r: StreamRegistry)
        ensures
            r@ == Map::<Seq<char>, StreamState>::empty(),
    {
        StreamRegistry { streams: Table::new() }
    }

    /// Open a stream whose headers have arrived, under a fresh identifier.
    pub fn start(&mut self, status: u16, now: u128) -> (r: (String, Value))
        ensures
            is_uuid(r.0@),
            is_stream_start(r.1@, old(self)@, final(self)@, r.0@, status, now),
    {
        let id = new_uuid();
        let v = self.start_as(id.as_str(), status, now);
        (id, v)
    }

    /// Open a stream whose headers have arrived, under the given identifier.
    pub fn start_as(&mut self, stream_id: &str, status: u16, now: u128) -> (r: Value)
        ensures
            is_stream_start(r@, old(self)@, final(self)@, stream_id@, status, now),
    {
        let s = StreamState::new(status, now);
        self.streams.insert(stream_id, s);
        let pairs: Vec<(&'static str, Value)> = vec![
            ("stream_id", Value::text(stream_id)),
            ("status", Value::uint(status as u64)),
        ];
        assert(pairs_view(pairs@) =~= seq![
            ("stream_id"@, Json::Str(stream_id@)),
            ("status"@, json_uint(status as u64)),
        ]);
        Value::object(pairs)
    }

    /// Poll a stream. Every poll keeps it alive.
    pub fn poll(&mut self, params: &Value, now: u128, waited_ms: u64) -> (r: Result<PollStep, String>)
        requires
            forall|id: Seq<char>|
                old(self)@.contains_key(id) ==> (#[trigger] old(self)@[id]).end() <= u64::MAX,
        ensures
            is_stream_poll(r, old(self)@, final(self)@, params@, now, waited_ms),
    {
        let stream_id = match require_str(params, "stream_id") {
            Ok(s) => s,
            Err(e) => {
                return Err(e);
            },
        };
        let cursor: u64 = match params.get_i64("cursor") {
            Some(c) => if c >= 0 {
                c as u64
            } else {
                0
            },
            None => 0,
        };
        let wait_secs = params.get_u64("wait_secs");
        let ghost before = self@;
        match self.streams.remove(stream_id) {
            None => {
                assert(self@ =~= before);
                Err(cat3("no stream registered for stream_id '", stream_id, "'"))
            },
            Some(s) => {
                let mut s = s;
                let ghost seen = s;
                assert(before[stream_id@] == seen);
                s.last_polled = now;
                let step = poll_state(&s, cursor, wait_secs, waited_ms);
                assert(s == (StreamState { last_polled: now, ..seen }));
                assert(s.buffer() == seen.buffer());
                self.streams.insert(stream_id, s);
                assert(self@ =~= before.insert(
                    stream_id@,
                    StreamState { last_polled: now, ..seen },
                ));
                Ok(step)
            },
        }
    }

    /// Close a stream. Says whether there was one, whose reader is then to be
    /// stopped, and the answer.
    pub fn close(&mut self, params: &Value) -> (r: Result<(bool, Value), String>)
        ensures
            is_stream_close(r, old(self)@, final(self)@, params@),
    {
        let stream_id = match require_str(params, "stream_id") {
            Ok(s) => s,
            Err(e) => {
                return Err(e);
            },
        };
        let removed = self.streams.remove(stream_id).is_some();
        let pairs: Vec<(&'static str, Value)> = vec![
            ("closed", Value::Bool(removed)),
            ("stream_id", Value::text(stream_id)),
        ];
        assert(pairs_view(pairs@) =~= seq![
            ("closed"@, Json::Bool(removed)),
            ("stream_id"@, Json::Str(stream_id@)),
        ]);
        Ok((removed, Value::object(pairs)))
    }
}

// ── Laws ─────────────────────────────────────────────────────────────────────

/// The chunk with a cursor, where it is still there.
pub open spec fn chunk_at(b: StreamBuffer, cursor: int) -> Option<Json> {
    if b.base <= cursor < b.base + b.chunks.len() {
        Some(b.chunks[cursor - b.base])
    } else {
        None
    }
}

proof fn lemma_trimmed_buffer(b: StreamBuffer, max: int)
    requires
        b.sizes.len() == b.chunks.len(),
    ensures
        ({
            let t = trimmed_buffer(b, max);
            let gone = t.base - b.base;
            &&& 0 <= gone <= b.chunks.len()
            &&& t.chunks == b.chunks.skip(gone)
            &&& t.sizes == b.sizes.skip(gone)
            &&& t.dropped - b.dropped == gone
            &&& (b.chunks.len() > 0 ==> t.chunks.len() > 0)
            &&& (total(t.sizes) <= max || t.chunks.len() <= 1)
        }),
    decreases b.chunks.len(),
{
    if total(b.sizes) > max && b.chunks.len() > 1 {
        let next = without_oldest(b);
        lemma_trimmed_buffer(next, max);
        let t = trimmed_buffer(next, max);
        let gone = t.base - next.base;
        assert(next.chunks.skip(gone) =~= b.chunks.skip(gone + 1));
        assert(next.sizes.skip(gone) =~= b.sizes.skip(gone + 1));
    } else {
        assert(b.chunks.skip(0) =~= b.chunks);
        assert(b.sizes.skip(0) =~= b.sizes);
    }
}

/// A chunk keeps its cursor for as long as it is there; the newest one is always
/// there; every chunk that is not there any more was counted as dropped; and the
/// lines of the chunks in the buffer are within its limit, or it is down to one
/// chunk.
pub proof fn lemma_cursors_survive(b: StreamBuffer, line: Seq<u8>, parsed: Option<Json>, max: int)
    requires
        b.sizes.len() == b.chunks.len(),
    ensures
        ({
            let after = with_line(b, line, parsed, max);
            let end = b.base + b.chunks.len();
            &&& after.base >= b.base
            &&& after.dropped - b.dropped == after.base - b.base
            &&& (forall|c: int|
                after.base <= c < end ==> #[trigger] chunk_at(after, c) == chunk_at(b, c))
            &&& (match chunk_of(line, parsed) {
                Some(x) => after.base + after.chunks.len() == end + 1 && chunk_at(after, end)
                    == Some(x) && (total(after.sizes) <= max || after.chunks.len() == 1),
                None => after == b,
            })
        }),
{
    if let Some(x) = chunk_of(line, parsed) {
        lemma_trimmed_buffer(with_newest(b, x, line.len() as int), max);
    }
}

/// A poller that asks from the cursor of its last answer gets exactly the chunks
/// that have come in since, in order, as far as they are still there.
pub proof fn lemma_poll_resumes(b: StreamBuffer, cursor: int, i: int)
    requires
        b.base <= cursor,
        cursor <= b.base + b.chunks.len(),
        0 <= i < chunks_from(b, cursor).len(),
    ensures
        chunks_from(b, cursor).len() == b.base + b.chunks.len() - cursor,
        chunk_at(b, cursor + i) == Some(chunks_from(b, cursor)[i]),
{
}

/// The chunks of the first `n` lines, in order of arrival: one for each line that
/// is not blank.
pub open spec fn all_chunks(lines: Seq<Seq<u8>>, parsed: Seq<Option<Value>>, n: nat) -> Seq<Json>
    decreases n,
{
    if n == 0 || n > lines.len() {
        Seq::empty()
    } else {
        let before = all_chunks(lines, parsed, (n - 1) as nat);
        match chunk_of(lines[n - 1], opt_value(parsed[n - 1])) {
            Some(c) => before.push(c),
            None => before,
        }
    }
}

/// The lengths of the lines that the chunks of the first `n` lines came from.
pub open spec fn all_sizes(lines: Seq<Seq<u8>>, parsed: Seq<Option<Value>>, n: nat) -> Seq<int>
    decreases n,
{
    if n == 0 || n > lines.len() {
        Seq::empty()
    } else {
        let before = all_sizes(lines, parsed, (n - 1) as nat);
        match chunk_of(lines[n - 1], opt_value(parsed[n - 1])) {
            Some(_) => before.push(lines[n - 1].len() as int),
            None => before,
        }
    }
}

/// The buffer of a stream after its first `n` lines.
pub open spec fn buffer_after(
    lines: Seq<Seq<u8>>,
    parsed: Seq<Option<Value>>,
    max: int,
    n: nat,
) -> StreamBuffer {
    with_lines(empty_buffer(), lines, parsed, max, n)
}

/// What the buffer of a stream holds after some lines: the newest of their
/// chunks. Only the oldest were dropped, and as many as were are counted. Once
/// there was a chunk there always is one, and either it is the only one or the
/// lines of those in the buffer are within the limit.
pub proof fn lemma_buffer_holds_the_newest(
    lines: Seq<Seq<u8>>,
    parsed: Seq<Option<Value>>,
    max: int,
    n: nat,
)
    requires
        n <= lines.len(),
    ensures
        ({
            let b = buffer_after(lines, parsed, max, n);
            let all = all_chunks(lines, parsed, n);
            let sizes = all_sizes(lines, parsed, n);
            &&& b.dropped == b.base
            &&& 0 <= b.base <= all.len()
            &&& sizes.len() == all.len()
            &&& b.chunks == all.skip(b.base)
            &&& b.sizes == sizes.skip(b.base)
            &&& (all.len() > 0 ==> b.chunks.len() > 0 && b.chunks.last() == all.last())
            &&& (all.len() > 0 ==> b.chunks.len() == 1 || total(b.sizes) <= max)
        }),
    decreases n,
{
    if n == 0 {
        assert(Seq::<Json>::empty().skip(0) =~= Seq::<Json>::empty());
        assert(Seq::<int>::empty().skip(0) =~= Seq::<int>::empty());
    } else {
        let m = (n - 1) as nat;
        lemma_buffer_holds_the_newest(lines, parsed, max, m);
        let before = buffer_after(lines, parsed, max, m);
        if let Some(c) = chunk_of(lines[n - 1], opt_value(parsed[n - 1])) {
            let size = lines[n - 1].len() as int;
            let grown = with_newest(before, c, size);
            lemma_trimmed_buffer(grown, max);
            let b = buffer_after(lines, parsed, max, n);
            let all = all_chunks(lines, parsed, n);
            let sizes = all_sizes(lines, parsed, n);
            assert(b == trimmed_buffer(grown, max));
            let gone = b.base - before.base;
            assert(grown.chunks =~= all.skip(before.base));
            assert(grown.sizes =~= sizes.skip(before.base));
            assert(grown.chunks.skip(gone) =~= all.skip(b.base));
            assert(grown.sizes.skip(gone) =~= sizes.skip(b.base));
        }
    }
}

proof fn lemma_later_buffers(
    lines: Seq<Seq<u8>>,
    parsed: Seq<Option<Value>>,
    max: int,
    m: nat,
    n: nat,
)
    requires
        m <= n <= lines.len(),
    ensures
        buffer_after(lines, parsed, max, m).base <= buffer_after(lines, parsed, max, n).base,
        all_chunks(lines, parsed, m).is_prefix_of(all_chunks(lines, parsed, n)),
    decreases n,
{
    if m < n {
        let l = (n - 1) as nat;
        lemma_later_buffers(lines, parsed, max, m, l);
        lemma_buffer_holds_the_newest(lines, parsed, max, l);
        let before = buffer_after(lines, parsed, max, l);
        lemma_cursors_survive(before, lines[n - 1], opt_value(parsed[n - 1]), max);
    }
}

/// The cursor behind the newest chunk of a buffer.
pub open spec fn end_of(b: StreamBuffer) -> int {
    b.base + b.chunks.len()
}

/// The cursor that the poll numbered `k` asks from, where the first asks from the
/// beginning and each later one from the cursor of the answer before it. `ns` says
/// after how many lines each poll is answered.
pub open spec fn poll_cursor(
    lines: Seq<Seq<u8>>,
    parsed: Seq<Option<Value>>,
    max: int,
    ns: Seq<nat>,
    k: nat,
) -> int {
    if k == 0 {
        0
    } else {
        end_of(buffer_after(lines, parsed, max, ns[k - 1]))
    }
}

/// The chunks that the first `k` polls of a stream give, one answer after the
/// other.
pub open spec fn polled(
    lines: Seq<Seq<u8>>,
    parsed: Seq<Option<Value>>,
    max: int,
    ns: Seq<nat>,
    k: nat,
) -> Seq<Json>
    decreases k,
{
    if k == 0 {
        Seq::empty()
    } else {
        polled(lines, parsed, max, ns, (k - 1) as nat) + chunks_from(
            buffer_after(lines, parsed, max, ns[k - 1]),
            poll_cursor(lines, parsed, max, ns, (k - 1) as nat),
        )
    }
}

/// The cursors of the chunks that the first `k` polls of a stream give.
pub open spec fn polled_cursors(
    lines: Seq<Seq<u8>>,
    parsed: Seq<Option<Value>>,
    max: int,
    ns: Seq<nat>,
    k: nat,
) -> Seq<int>
    decreases k,
{
    if k == 0 {
        Seq::empty()
    } else {
        let b = buffer_after(lines, parsed, max, ns[k - 1]);
        let cursor = poll_cursor(lines, parsed, max, ns, (k - 1) as nat);
        let first = if cursor <= b.base {
            b.base
        } else {
            cursor
        };
        polled_cursors(lines, parsed, max, ns, (k - 1) as nat) + Seq::new(
            chunks_from(b, cursor).len(),
            |i: int| first + i,
        )
    }
}

/// What a sequence of polls gives, the first from the beginning and each later
/// one from the cursor of the answer before it: the chunks of the lines received,
/// in order of arrival, each at most once. A chunk that is left out was dropped
/// before it was read, and there are no more of those than were counted; where
/// none was dropped, all chunks are given. The cursors never go back, and the
/// last one is behind all chunks once all lines were received.
pub proof fn lemma_polls_drain(
    lines: Seq<Seq<u8>>,
    parsed: Seq<Option<Value>>,
    max: int,
    ns: Seq<nat>,
    k: nat,
)
    requires
        0 < k <= ns.len(),
        forall|i: int, j: int| 0 <= i <= j < ns.len() ==> #[trigger] ns[i] <= #[trigger] ns[j],
        forall|i: int| 0 <= i < ns.len() ==> #[trigger] ns[i] <= lines.len(),
    ensures
        ({
            let all = all_chunks(lines, parsed, lines.len());
            let got = polled(lines, parsed, max, ns, k);
            let at = polled_cursors(lines, parsed, max, ns, k);
            let end = poll_cursor(lines, parsed, max, ns, k);
            let dropped = buffer_after(lines, parsed, max, ns[k - 1]).dropped;
            &&& got.len() == at.len()
            &&& (forall|i: int|
                0 <= i < at.len() ==> 0 <= #[trigger] at[i] < end && got[i] == all[at[i]])
            &&& (forall|i: int, j: int| 0 <= i < j < at.len() ==> #[trigger] at[i] < #[trigger] at[j])
            &&& (forall|c: int| 0 <= c < end && !#[trigger] at.contains(c) ==> c < dropped)
            &&& end - at.len() <= dropped
            &&& (dropped == 0 ==> got == all.take(end))
            &&& poll_cursor(lines, parsed, max, ns, (k - 1) as nat) <= end <= all.len()
            &&& (ns[k - 1] == lines.len() ==> end == all.len())
        }),
    decreases k,
{
    let n = ns[k - 1];
    let b = buffer_after(lines, parsed, max, n);
    let all = all_chunks(lines, parsed, lines.len());
    let here = all_chunks(lines, parsed, n);
    lemma_buffer_holds_the_newest(lines, parsed, max, n);
    lemma_later_buffers(lines, parsed, max, n, lines.len());
    let l = (k - 1) as nat;
    let cursor = poll_cursor(lines, parsed, max, ns, l);
    let got0 = polled(lines, parsed, max, ns, l);
    let at0 = polled_cursors(lines, parsed, max, ns, l);
    let got = polled(lines, parsed, max, ns, k);
    let at = polled_cursors(lines, parsed, max, ns, k);
    let end = poll_cursor(lines, parsed, max, ns, k);
    let more = chunks_from(b, cursor);
    let first = if cursor <= b.base {
        b.base
    } else {
        cursor
    };
    if l > 0 {
        lemma_polls_drain(lines, parsed, max, ns, l);
        assert(ns[l - 1] <= ns[k - 1]);
        lemma_later_buffers(lines, parsed, max, ns[l - 1], n);
        lemma_buffer_holds_the_newest(lines, parsed, max, ns[l - 1]);
    }
    assert(end == here.len());
    assert(cursor <= end);
    assert(more.len() == end - first);
    assert(at.len() == at0.len() + more.len());
    assert forall|i: int| 0 <= i < at.len() implies 0 <= #[trigger] at[i] < end && got[i]
        == all[at[i]] by {
        if i < at0.len() {
            assert(at[i] == at0[i]);
            assert(got[i] == got0[i]);
        } else {
            assert(at[i] == first + (i - at0.len()));
            assert(got[i] == more[i - at0.len()]);
            assert(here[at[i]] == all[at[i]]);
        }
    }
    assert forall|i: int, j: int| 0 <= i < j < at.len() implies #[trigger] at[i] < #[trigger] at[j] by {
        if i < at0.len() {
            assert(at[i] == at0[i]);
        }
        if j < at0.len() {
            assert(at[j] == at0[j]);
        }
    }
    assert forall|c: int| 0 <= c < end && !#[trigger] at.contains(c) implies c < b.dropped by {
        if c >= first {
            let i = at0.len() + (c - first);
            assert(at[i] == c);
        } else if c < cursor {
            if at0.contains(c) {
                let i = choose|i: int| 0 <= i < at0.len() && at0[i] == c;
                assert(at[i] == c);
            }
        }
    }
    if b.dropped == 0 {
        assert(got =~= all.take(end)) by {
            assert forall|i: int| 0 <= i < got.len() implies got[i] == all[i] by {
                if i < got0.len() {
                    assert(got[i] == got0[i]);
                    if l > 0 {
                        assert(got0 == all.take(cursor));
                    }
                } else {
                    assert(at[i] == first + (i - at0.len()));
                }
            }
        }
    }
}

} // verus!
