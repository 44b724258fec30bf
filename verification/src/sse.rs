//! Decoding of the server-sent-event stream of a chat completion: the bytes
//! that arrive are split into lines, and each `data: ` line becomes an event;
//! `data: [DONE]` ends the stream.
use vstd::prelude::*;
use crate::text::{chars_of, lossy_utf8, str_eq, string_from_range, trim, trim_bounds, has_prefix};
use crate::chat::delta_text;
use crate::json::{choice_content, choice_content_of};

verus! {

/// One event of the stream.
pub enum SseEvent {
    /// The payload of a `data: ` line.
    Data(String),
    /// The `data: [DONE]` line that ends the stream.
    Done,
}

/// An event as a value: `Some(payload)` for data, `None` for the end.
pub open spec fn event_view(e: SseEvent) -> Option<Seq<char>> {
    match e {
        SseEvent::Data(d) => Some(d@),
        SseEvent::Done => None,
    }
}

/// The events of a vector, as values.
pub open spec fn events_view(v: Seq<SseEvent>) -> Seq<Option<Seq<char>>> {
    v.map_values(|e: SseEvent| event_view(e))
}

/// Position of the first line break in `s`, or `s.len()` when there is none.
pub open spec fn newline_pos(s: Seq<char>) -> nat
    decreases s.len(),
{
    if s.len() == 0 {
        0
    } else if s[0] == '\n' {
        0
    } else {
        1 + newline_pos(s.drop_first())
    }
}

/// What one complete line (its line break included) yields: nothing, unless
/// the trimmed line starts with `data: `; then the rest of it, or the end
/// marker for `[DONE]`.
pub open spec fn line_event(line: Seq<char>) -> Option<Option<Seq<char>>> {
    let t = trim(line);
    if has_prefix(t, "data: "@) {
        let d = t.skip("data: "@.len() as int);
        if d == "[DONE]"@ {
            Some(None)
        } else {
            Some(Some(d))
        }
    } else {
        None
    }
}

/// Processing the buffered text `s`: the events of its complete lines, up to
/// and including an end marker; the text left over; and whether the end
/// marker was met.
pub open spec fn drain(s: Seq<char>) -> (Seq<Option<Seq<char>>>, Seq<char>, bool)
    decreases s.len(),
{
    let p = newline_pos(s) as int;
    if p >= s.len() {
        (Seq::empty(), s, false)
    } else {
        let rest = s.skip(p + 1);
        match line_event(s.take(p + 1)) {
            Some(None) => (seq![None], rest, true),
            Some(Some(d)) => {
                let r = drain(rest);
                (seq![Some(d)] + r.0, r.1, r.2)
            },
            None => drain(rest),
        }
    }
}

proof fn lemma_newline_pos_bound(s: Seq<char>)
    ensures
        newline_pos(s) <= s.len(),
        newline_pos(s) < s.len() ==> s[newline_pos(s) as int] == '\n',
        forall|i: int| 0 <= i < newline_pos(s) ==> s[i] != '\n',
    decreases s.len(),
{
    if s.len() > 0 && s[0] != '\n' {
        lemma_newline_pos_bound(s.drop_first());
        assert forall|i: int| 0 <= i < newline_pos(s) implies s[i] != '\n' by {
            if i > 0 {
                assert(s[i] == s.drop_first()[i - 1]);
            }
        }
    }
}

proof fn lemma_newline_pos_append(a: Seq<char>, b: Seq<char>)
    requires
        newline_pos(a) < a.len(),
    ensures
        newline_pos(a + b) == newline_pos(a),
    decreases a.len(),
{
    if a[0] != '\n' {
        lemma_newline_pos_append(a.drop_first(), b);
        assert((a + b).drop_first() =~= a.drop_first() + b);
    }
}

/// Text can be fed in pieces: when the first piece does not end the stream,
/// processing `a` and then, with what is left over, `b`, yields the same
/// events, leftover and end flag as processing `a + b` at once.
pub proof fn lemma_drain_in_pieces(a: Seq<char>, b: Seq<char>)
    requires
        !drain(a).2,
    ensures
        drain(a + b).0 == drain(a).0 + drain(drain(a).1 + b).0,
        drain(a + b).1 == drain(drain(a).1 + b).1,
        drain(a + b).2 == drain(drain(a).1 + b).2,
    decreases a.len(),
{
    let p = newline_pos(a) as int;
    lemma_newline_pos_bound(a);
    if p >= a.len() {
        assert(drain(a).0 =~= Seq::<Option<Seq<char>>>::empty());
        assert(drain(a).0 + drain(a + b).0 =~= drain(a + b).0);
    } else {
        lemma_newline_pos_append(a, b);
        let rest = a.skip(p + 1);
        assert((a + b).take(p + 1) =~= a.take(p + 1));
        assert((a + b).skip(p + 1) =~= rest + b);
        match line_event(a.take(p + 1)) {
            Some(None) => {},
            Some(Some(d)) => {
                lemma_drain_in_pieces(rest, b);
                assert(seq![Some(d)] + drain(rest).0 + drain(drain(rest).1 + b).0 =~= seq![Some(d)]
                    + (drain(rest).0 + drain(drain(rest).1 + b).0));
            },
            None => {
                lemma_drain_in_pieces(rest, b);
            },
        }
    }
}

/// A complete `data: ` line hands on its payload unchanged: for a payload
/// `x` without a line break, not ending in whitespace and other than
/// `[DONE]`, the line `data: x` followed by more text yields `x` ahead of
/// what the rest yields; the line `data: [DONE]` yields the end marker and
/// leaves the rest unread.
pub proof fn lemma_data_line(x: Seq<char>, rest: Seq<char>)
    requires
        x.len() > 0,
        forall|i: int| 0 <= i < x.len() ==> x[i] != '\n',
        !crate::text::is_ws(x.last()),
    ensures
        x != "[DONE]"@ ==> drain("data: "@ + x + "\n"@ + rest) == (
            seq![Some(x)] + drain(rest).0,
            drain(rest).1,
            drain(rest).2,
        ),
        x == "[DONE]"@ ==> drain("data: "@ + x + "\n"@ + rest) == (
            seq![None::<Seq<char>>],
            rest,
            true,
        ),
{
    reveal_strlit("data: ");
    reveal_strlit("\n");
    let line = "data: "@ + x + "\n"@;
    let s = line + rest;
    let l = line.len() as int;
    lemma_newline_pos_bound(s);
    assert forall|i: int| 0 <= i < l - 1 implies s[i] != '\n' by {
        if i >= 6 {
            assert(s[i] == x[i - 6]);
        }
    }
    assert(s[l - 1] == '\n');
    assert(newline_pos(s) == l - 1);
    assert(s.take(l) =~= line);
    assert(s.skip(l) =~= rest);
    let body = "data: "@ + x;
    assert(line.drop_last() =~= body);
    assert(!crate::text::is_ws(line[0]));
    assert(crate::text::trim_start(line) == line);
    assert(crate::text::is_ws(line.last()));
    assert(crate::text::trim_end(line) == crate::text::trim_end(body));
    assert(body.last() == x.last());
    assert(crate::text::trim_end(body) == body);
    assert(trim(line) == body);
    assert(body.take(6) =~= "data: "@);
    assert(body.skip(6) =~= x);
}

/// Decoder state: the text received after the last complete line.
pub struct SseDecoder {
    buffer: Vec<char>,
}

impl View for SseDecoder {
    type V = Seq<char>;

    closed spec fn view(&self) -> Seq<char> {
        self.buffer@
    }
}

/// The event that a complete line `v[lo..hi]` yields.
fn event_of_line(v: &Vec<char>, lo: usize, hi: usize) -> (r: Option<SseEvent>)
    requires
        lo <= hi <= v@.len(),
    ensures
        match r {
            None => line_event(v@.subrange(lo as int, hi as int)) == None::<Option<Seq<char>>>,
            Some(e) => line_event(v@.subrange(lo as int, hi as int)) == Some(event_view(e)),
        },
{
    let line_str = string_from_range(v.as_slice(), lo, hi);
    let line = chars_of(line_str.as_str());
    let (a, b) = trim_bounds(line.as_slice());
    let t = string_from_range(line.as_slice(), a, b);
    let prefix = "data: ";
    let pv = chars_of(prefix);
    if !crate::text::starts_with(t.as_str(), prefix) {
        return None;
    }
    let tv = chars_of(t.as_str());
    let d = string_from_range(tv.as_slice(), pv.len(), tv.len());
    if str_eq(d.as_str(), "[DONE]") {
        Some(SseEvent::Done)
    } else {
        Some(SseEvent::Data(d))
    }
}

impl SseDecoder {
    /// A decoder that has received nothing.
    pub fn new() -> (d: Self)
        ensures
            d@ == Seq::<char>::empty(),
    {
        SseDecoder { buffer: Vec::new() }
    }

    /// Adds received text and returns the events of the lines it completes,
    /// stopping after an end marker; the second component tells whether the
    /// end marker was met.
    pub fn feed_text(&mut self, text: &str) -> (r: (Vec<SseEvent>, bool))
        ensures
            events_view(r.0@) == drain(old(self)@ + text@).0,
            final(self)@ == drain(old(self)@ + text@).1,
            r.1 == drain(old(self)@ + text@).2,
    {
        let tv = chars_of(text);
        let mut buf: Vec<char> = Vec::new();
        std::mem::swap(&mut buf, &mut self.buffer);
        let ghost old_buf = buf@;
        for i in 0..tv.len()
            invariant
                buf@ == old_buf + tv@.take(i as int),
        {
            buf.push(tv[i]);
            assert(old_buf + tv@.take(i + 1) =~= (old_buf + tv@.take(i as int)).push(tv@[i as int]));
        }
        assert(tv@.take(tv@.len() as int) =~= tv@);
        let ghost all = buf@;
        assert(all =~= old(self)@ + text@);
        let n = buf.len();
        let mut events: Vec<SseEvent> = Vec::new();
        let mut start: usize = 0;
        assert(all.skip(0) =~= all);
        assert(events_view(events@) + drain(all).0 =~= drain(all).0);
        loop
            invariant
                buf@ == all,
                all == old(self)@ + text@,
                n == all.len(),
                start <= n,
                drain(all).0 == events_view(events@) + drain(all.skip(start as int)).0,
                drain(all).1 == drain(all.skip(start as int)).1,
                drain(all).2 == drain(all.skip(start as int)).2,
            decreases n - start,
        {
            let ghost s = all.skip(start as int);
            let mut j = start;
            while j < n && buf[j] != '\n'
                invariant
                    buf@ == all,
                    n == all.len(),
                    start <= j <= n,
                    s == all.skip(start as int),
                    newline_pos(s) == (j - start) + newline_pos(all.skip(j as int)),
                decreases n - j,
            {
                assert(all.skip(j as int).drop_first() =~= all.skip(j + 1));
                j = j + 1;
            }
            proof {
                if j == n {
                    assert(all.skip(j as int).len() == 0);
                }
            }
            if j == n {
                self.buffer = string_chars_from(&buf, start, n);
                assert(all.subrange(start as int, n as int) =~= s);
                assert(events_view(events@) + Seq::<Option<Seq<char>>>::empty() =~= events_view(
                    events@,
                ));
                return (events, false);
            }
            let ghost p = (j - start) as int;
            assert(s.take(p + 1) =~= all.subrange(start as int, j + 1));
            assert(s.skip(p + 1) =~= all.skip(j + 1));
            let ev = event_of_line(&buf, start, j + 1);
            match ev {
                None => {},
                Some(SseEvent::Done) => {
                    self.buffer = string_chars_from(&buf, j + 1, n);
                    assert(all.subrange(j + 1, n as int) =~= all.skip(j + 1));
                    let ghost before = events_view(events@);
                    events.push(SseEvent::Done);
                    assert(events_view(events@) =~= before + seq![None::<Seq<char>>]);
                    return (events, true);
                },
                Some(e) => {
                    let ghost before = events_view(events@);
                    let ghost ev_v = event_view(e);
                    events.push(e);
                    assert(events_view(events@) =~= before.push(ev_v));
                    assert(before + (seq![ev_v] + drain(all.skip(j + 1)).0) =~= before.push(ev_v)
                        + drain(all.skip(j + 1)).0);
                },
            }
            start = j + 1;
        }
    }

    /// Adds received bytes, decoded as `String::from_utf8_lossy` decodes them,
    /// and returns the events of the lines they complete.
    pub fn feed(&mut self, bytes: &[u8]) -> (r: (Vec<SseEvent>, bool))
        ensures
            events_view(r.0@) == drain(old(self)@ + crate::text::utf8_lossy(bytes@)).0,
            final(self)@ == drain(old(self)@ + crate::text::utf8_lossy(bytes@)).1,
            r.1 == drain(old(self)@ + crate::text::utf8_lossy(bytes@)).2,
    {
        let text = lossy_utf8(bytes);
        self.feed_text(text.as_str())
    }
}

// ---------------------------------------------------------------------------
// From events to text
// ---------------------------------------------------------------------------

/// The text chunks a run of events hands to the chat: each payload's delta
/// content (`choices[0].delta.content`) when it is not empty, and an empty
/// chunk for the end marker.
pub open spec fn event_chunks(events: Seq<Option<Seq<char>>>) -> Seq<Seq<char>>
    decreases events.len(),
{
    if events.len() == 0 {
        Seq::empty()
    } else {
        let rest = event_chunks(events.drop_first());
        match events[0] {
            None => seq![Seq::<char>::empty()] + rest,
            Some(d) => match choice_content(d, "delta"@) {
                Some(c) => if c.len() > 0 {
                    seq![c] + rest
                } else {
                    rest
                },
                None => rest,
            },
        }
    }
}

/// Each event is read on its own: a data event whose payload holds a
/// non-empty delta content `c` hands on exactly `c`, unchanged, ahead of what
/// the later events hand on; one without such content hands on nothing; the
/// end marker hands on an empty chunk.
pub proof fn lemma_event_chunk(d: Seq<char>, rest: Seq<Option<Seq<char>>>)
    ensures
        (choice_content(d, "delta"@) matches Some(c) && c.len() > 0) ==> event_chunks(
            seq![Some(d)] + rest,
        ) == seq![choice_content(d, "delta"@)->0] + event_chunks(rest),
        !(choice_content(d, "delta"@) matches Some(c) && c.len() > 0) ==> event_chunks(
            seq![Some(d)] + rest,
        ) == event_chunks(rest),
        event_chunks(seq![None] + rest) == seq![Seq::<char>::empty()] + event_chunks(rest),
{
    assert((seq![Some(d)] + rest).drop_first() =~= rest);
    assert((seq![None::<Seq<char>>] + rest).drop_first() =~= rest);
}

/// The chunks of two runs of events one after the other are the chunks of
/// the first run followed by those of the second: events are not merged,
/// dropped or reordered across a split.
pub proof fn lemma_event_chunks_append(a: Seq<Option<Seq<char>>>, b: Seq<Option<Seq<char>>>)
    ensures
        event_chunks(a + b) == event_chunks(a) + event_chunks(b),
    decreases a.len(),
{
    if a.len() == 0 {
        assert(a + b =~= b);
    } else {
        lemma_event_chunks_append(a.drop_first(), b);
        assert((a + b).drop_first() =~= a.drop_first() + b);
        assert((a + b)[0] == a[0]);
        let r = event_chunks(a.drop_first());
        assert(seq![Seq::<char>::empty()] + r + event_chunks(b) =~= seq![Seq::<char>::empty()] + (r
            + event_chunks(b)));
        match a[0] {
            Some(d) => match choice_content(d, "delta"@) {
                Some(c) => {
                    assert(seq![c] + r + event_chunks(b) =~= seq![c] + (r + event_chunks(b)));
                },
                None => {},
            },
            None => {},
        }
    }
}

/// The text chunks of a run of decoded events (see `event_chunks`).
pub fn stream_chunks(events: Vec<SseEvent>) -> (r: Vec<String>)
    ensures
        r@.map_values(|s: String| s@) == event_chunks(events_view(events@)),
{
    let mut out: Vec<String> = Vec::new();
    let mut rest = events;
    let ghost all = events_view(rest@);
    let ghost mut k: int = 0;
    assert(all.skip(0) =~= all);
    while rest.len() > 0
        invariant
            0 <= k <= all.len(),
            events_view(rest@) == all.skip(k),
            event_chunks(all) == out@.map_values(|s: String| s@) + event_chunks(all.skip(k)),
        decreases rest@.len(),
    {
        let e = rest.remove(0);
        let ghost before = out@.map_values(|s: String| s@);
        let ghost tail = all.skip(k + 1);
        assert(all.skip(k).drop_first() =~= tail);
        assert(events_view(rest@) =~= tail);
        match e {
            SseEvent::Done => {
                out.push(String::new());
                assert(out@.map_values(|s: String| s@) =~= before + seq![Seq::<char>::empty()]);
            },
            SseEvent::Data(d) => {
                match delta_text(choice_content_of(d.as_str(), "delta")) {
                    Some(c) => {
                        let ghost cv = c@;
                        out.push(c);
                        assert(out@.map_values(|s: String| s@) =~= before + seq![cv]);
                    },
                    None => {},
                }
            },
        }
        proof {
            k = k + 1;
        }
    }
    assert(all.skip(k).len() == 0);
    assert(out@.map_values(|s: String| s@) + event_chunks(all.skip(k)) =~= out@.map_values(
        |s: String| s@,
    ));
    out
}

/// A copy of `v[lo..hi]`.
fn string_chars_from(v: &Vec<char>, lo: usize, hi: usize) -> (r: Vec<char>)
    requires
        lo <= hi <= v@.len(),
    ensures
        r@ == v@.subrange(lo as int, hi as int),
{
    let mut r: Vec<char> = Vec::new();
    let mut i = lo;
    while i < hi
        invariant
            lo <= i <= hi <= v@.len(),
            r@ == v@.subrange(lo as int, i as int),
        decreases hi - i,
    {
        r.push(v[i]);
        assert(v@.subrange(lo as int, i + 1) =~= v@.subrange(lo as int, i as int).push(v@[i as int]));
        i = i + 1;
    }
    r
}

} // verus!
