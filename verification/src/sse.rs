//! Server-sent-event framing: blocks separated by a blank line, each carrying
//! its payload on `data:` lines.
use vstd::prelude::*;
use crate::text::{
    append_chars, chars_start_with, find, find_chars, from_chars, has_prefix, join, join_lines,
    lemma_find, lemma_find_first_match, lemma_lines_from_no_newline, lines, lines_from,
    matches_at, slice_chars, split_lines, to_chars, trim, trim_chars, trim_end, trim_start,
};

verus! {

/// The blank line that ends a block.
pub open spec fn block_separator() -> Seq<char> {
    seq!['\n', '\n']
}

/// The field name that marks a payload line.
pub open spec fn data_prefix() -> Seq<char> {
    seq!['d', 'a', 't', 'a', ':']
}

/// The payload pieces of a block's lines: each line that starts with `data:`,
/// with that prefix removed and the rest trimmed.
pub open spec fn data_fields(ls: Seq<Seq<char>>) -> Seq<Seq<char>>
    decreases ls.len(),
{
    if ls.len() == 0 {
        seq![]
    } else {
        let rest = data_fields(ls.drop_last());
        let l = ls.last();
        if has_prefix(l, data_prefix()) {
            rest.push(trim(l.subrange(5, l.len() as int)))
        } else {
            rest
        }
    }
}

/// The payload of one block: its data fields joined by line breaks.
pub open spec fn block_payload(block: Seq<char>) -> Seq<char> {
    join(data_fields(lines(block)), seq!['\n'])
}

/// What the decoder yields from a buffer: the payload of the first complete
/// block that has one, and the text after that block; blocks without payload
/// are skipped. `None` and the buffer unchanged when no complete block has a
/// payload... except that the skipped blocks are consumed.
pub open spec fn drain(buf: Seq<char>) -> (Option<Seq<char>>, Seq<char>)
    decreases buf.len(),
{
    match find(buf, block_separator()) {
        None => (None, buf),
        Some(k) => {
            proof {
                lemma_find(buf, block_separator());
            }
            let p = block_payload(buf.subrange(0, k));
            let rest = buf.subrange(k + 2, buf.len() as int);
            if p.len() > 0 {
                (Some(p), rest)
            } else {
                drain(rest)
            }
        },
    }
}

/// One event as a server frames it: a `data: ` line and a blank line.
pub open spec fn frame(payload: Seq<char>) -> Seq<char> {
    seq!['d', 'a', 't', 'a', ':', ' '] + payload + block_separator()
}

/// Decodes a stream of text into `data:` payloads.
pub struct SseDecoder {
    buf: Vec<char>,
}

impl View for SseDecoder {
    type V = Seq<char>;

    /// The text received and not yet consumed.
    closed spec fn view(&self) -> Seq<char> {
        self.buf@
    }
}

/// The payload of one block.
pub fn payload_of_block(block: &[char]) -> (r: Vec<char>)
    ensures
        r@ == block_payload(block@),
{
    let ls = split_lines(block);
    let ghost lv = ls@.map_values(|l: Vec<char>| l@);
    let prefix = to_chars("data:");
    assert(prefix@ == data_prefix()) by {
        reveal_strlit("data:");
    }
    let mut fields: Vec<Vec<char>> = Vec::new();
    let mut i: usize = 0;
    while i < ls.len()
        invariant
            i <= ls.len(),
            lv == ls@.map_values(|l: Vec<char>| l@),
            lv == lines(block@),
            prefix@ == data_prefix(),
            fields@.map_values(|l: Vec<char>| l@) == data_fields(lv.take(i as int)),
        decreases ls.len() - i,
    {
        let line = &ls[i];
        assert(lv.take(i + 1).drop_last() =~= lv.take(i as int));
        assert(lv.take(i + 1).last() == line@);
        if chars_start_with(line, &prefix) {
            let rest = slice_chars(line, 5, line.len());
            let t = trim_chars(&rest);
            let ghost before = fields@.map_values(|l: Vec<char>| l@);
            fields.push(t);
            assert(fields@.map_values(|l: Vec<char>| l@) =~= before.push(t@));
        }
        i += 1;
    }
    assert(lv.take(ls.len() as int) =~= lv);
    let nl: [char; 1] = ['\n'];
    assert(nl@ =~= seq!['\n']);
    join_lines(&fields, &nl)
}

impl SseDecoder {
    /// A decoder that has received nothing.
    pub fn new() -> (d: SseDecoder)
        ensures
            d@ == Seq::<char>::empty(),
    {
        SseDecoder { buf: Vec::new() }
    }

    /// Adds received text.
    pub fn push_text(&mut self, text: &str)
        ensures
            final(self)@ == old(self)@ + text@,
    {
        let v = to_chars(text);
        append_chars(&mut self.buf, &v);
    }

    /// The next payload of a complete block, consuming the blocks up to it;
    /// `None` when the received text holds no further complete block with a payload.
    pub fn next_payload(&mut self) -> (r: Option<String>)
        ensures
            (match r {
                Some(p) => Some(p@),
                None => None,
            }, final(self)@) == drain(old(self)@),
    {
        let mut sep: Vec<char> = Vec::new();
        sep.push('\n');
        sep.push('\n');
        assert(sep@ =~= block_separator());
        loop
            invariant
                sep@ == block_separator(),
                drain(self.buf@) == drain(old(self)@),
            decreases self.buf@.len(),
        {
            proof {
                lemma_find(self.buf@, block_separator());
            }
            match find_chars(self.buf.as_slice(), sep.as_slice()) {
                None => {
                    return None;
                },
                Some(k) => {
                    let len = self.buf.len();
                    assert(find(self.buf@, block_separator()) == Some(k as int));
                    assert(k + 2 <= len);
                    let start: usize = k + 2;
                    let block = slice_chars(&self.buf, 0, k);
                    let rest = slice_chars(&self.buf, start, len);
                    let p = payload_of_block(&block);
                    self.buf = rest;
                    if p.len() > 0 {
                        return Some(from_chars(&p));
                    }
                },
            }
        }
    }

    /// Every payload the received text completes, in order, consuming the
    /// blocks they came in.
    pub fn drain_payloads(&mut self) -> (r: Vec<String>)
        ensures
            (r@.map_values(|p: String| p@), final(self)@) == decode_all(old(self)@),
    {
        let mut out: Vec<String> = Vec::new();
        loop
            invariant
                decode_all(old(self)@) == (out@.map_values(|p: String| p@) + decode_all(self@).0,
                    decode_all(self@).1),
            decreases self@.len(),
        {
            let ghost before = self@;
            let ghost seen = out@.map_values(|p: String| p@);
            proof {
                lemma_drain_shrinks(before);
            }
            match self.next_payload() {
                None => {
                    assert(decode_all(before).0 =~= Seq::<Seq<char>>::empty());
                    assert(seen + decode_all(before).0 =~= seen);
                    return out;
                },
                Some(p) => {
                    out.push(p);
                    assert(out@.map_values(|q: String| q@) =~= seen.push(p@));
                    assert(seen + decode_all(before).0 =~= seen.push(p@) + decode_all(self@).0);
                },
            }
        }
    }

    /// At the end of the stream: the payload of the unterminated tail, if it
    /// has one, consuming the tail.
    pub fn finish(&mut self) -> (r: Option<String>)
        ensures
            block_payload(old(self)@).len() > 0 ==> (r matches Some(p) && p@ == block_payload(
                old(self)@,
            ) && final(self)@.len() == 0),
            block_payload(old(self)@).len() == 0 ==> (r is None && final(self)@ == old(self)@),
    {
        let p = payload_of_block(&self.buf);
        if p.len() > 0 {
            self.buf = Vec::new();
            Some(from_chars(&p))
        } else {
            None
        }
    }
}

/// A server's frame of a single-line payload decodes to exactly that payload,
/// and decoding resumes right after the frame.
pub proof fn lemma_frame_roundtrip(payload: Seq<char>, rest: Seq<char>)
    requires
        payload.len() > 0,
        trim(payload) == payload,
        forall|j: int| 0 <= j < payload.len() ==> payload[j] != '\n',
    ensures
        drain(frame(payload) + rest) == (Some(payload), rest),
{
    let head = seq!['d', 'a', 't', 'a', ':', ' '];
    let block = head + payload;
    let h = frame(payload) + rest;
    let k = block.len() as int;
    assert(h.subrange(k, k + 2) =~= block_separator());
    assert forall|j: int| 0 <= j < k implies !matches_at(h, block_separator(), j) by {
        assert(h[j] == block[j]);
        if j < 6 {
            assert(block[j] == head[j]);
        } else {
            assert(block[j] == payload[j - 6]);
        }
        if matches_at(h, block_separator(), j) {
            assert(h.subrange(j, j + 2)[0] == '\n');
        }
    }
    lemma_find_first_match(h, block_separator(), k);
    assert(h.subrange(0, k) =~= block);
    assert(h.subrange(k + 2, h.len() as int) =~= rest);
    lemma_lines_from_no_newline(block, 0, 0);
    assert(lines(block) =~= seq![block]) by {
        assert(block.subrange(0, block.len() as int) =~= block);
    }
    let field = block.subrange(5, block.len() as int);
    assert(field =~= seq![' '] + payload);
    assert(has_prefix(block, data_prefix())) by {
        assert(block.subrange(0, 5) =~= data_prefix());
    }
    assert(seq![block].drop_last() =~= Seq::<Seq<char>>::empty());
    assert(data_fields(seq![block]) =~= seq![trim(field)]) by {
        reveal_with_fuel(data_fields, 2);
    }
    assert(field.drop_first() =~= payload);
    assert(trim_start(field) == trim_start(payload));
    assert(trim(field) == payload);
}

proof fn lemma_find_in_prefix(x: Seq<char>, y: Seq<char>, n: Seq<char>)
    requires
        find(x, n) is Some,
    ensures
        find(x + y, n) == find(x, n),
{
    lemma_find(x, n);
    let k = find(x, n)->0;
    let h = x + y;
    assert(h.subrange(k, k + n.len()) =~= x.subrange(k, k + n.len()));
    assert forall|j: int| 0 <= j < k implies !matches_at(h, n, j) by {
        assert(!matches_at(x, n, j));
        assert(h.subrange(j, j + n.len()) =~= x.subrange(j, j + n.len()));
    }
    lemma_find_first_match(h, n, k);
}

/// What the decoder yields does not depend on how the text arrives: text
/// `y` received after `x` changes nothing about a payload `x` already
/// completes, and when `x` completes none, decoding goes on from what `x`
/// left as if it had arrived together with `y`.
pub proof fn lemma_drain_append(x: Seq<char>, y: Seq<char>)
    ensures
        drain(x).0 is Some ==> drain(x + y) == (drain(x).0, drain(x).1 + y),
        drain(x).0 is None ==> drain(x + y) == drain(drain(x).1 + y),
    decreases x.len(),
{
    match find(x, block_separator()) {
        None => {},
        Some(k) => {
            lemma_find(x, block_separator());
            lemma_find_in_prefix(x, y, block_separator());
            let h = x + y;
            assert(h.subrange(0, k) =~= x.subrange(0, k));
            let rest = x.subrange(k + 2, x.len() as int);
            assert(h.subrange(k + 2, h.len() as int) =~= rest + y);
            if block_payload(x.subrange(0, k)).len() == 0 {
                lemma_drain_append(rest, y);
            }
        },
    }
}

/// Draining never grows the buffer, and yielding a payload shrinks it.
pub proof fn lemma_drain_shrinks(buf: Seq<char>)
    ensures
        drain(buf).1.len() <= buf.len(),
        drain(buf).0 is Some ==> drain(buf).1.len() < buf.len(),
    decreases buf.len(),
{
    match find(buf, block_separator()) {
        None => {},
        Some(k) => {
            lemma_find(buf, block_separator());
            let rest = buf.subrange(k + 2, buf.len() as int);
            if block_payload(buf.subrange(0, k)).len() == 0 {
                lemma_drain_shrinks(rest);
            }
        },
    }
}

/// Every payload a buffer yields when the decoder is drained until it yields
/// none, in order, and the text left over.
pub open spec fn decode_all(buf: Seq<char>) -> (Seq<Seq<char>>, Seq<char>)
    decreases buf.len(),
{
    match drain(buf).0 {
        None => (seq![], drain(buf).1),
        Some(p) => {
            proof {
                lemma_drain_shrinks(buf);
            }
            let next = decode_all(drain(buf).1);
            (seq![p] + next.0, next.1)
        },
    }
}

/// The text received in the given pieces, in order.
pub open spec fn concat_all(chunks: Seq<Seq<char>>) -> Seq<char>
    decreases chunks.len(),
{
    if chunks.len() == 0 {
        seq![]
    } else {
        concat_all(chunks.drop_last()) + chunks.last()
    }
}

/// The payloads and the leftover text when the pieces arrive one at a time
/// and the decoder is drained after each.
pub open spec fn feed(chunks: Seq<Seq<char>>) -> (Seq<Seq<char>>, Seq<char>)
    decreases chunks.len(),
{
    if chunks.len() == 0 {
        (seq![], seq![])
    } else {
        let before = feed(chunks.drop_last());
        let now = decode_all(before.1 + chunks.last());
        (before.0 + now.0, now.1)
    }
}

proof fn lemma_decode_all_append(x: Seq<char>, y: Seq<char>)
    ensures
        decode_all(x + y) == (decode_all(x).0 + decode_all(decode_all(x).1 + y).0, decode_all(
            decode_all(x).1 + y,
        ).1),
    decreases x.len(),
{
    lemma_drain_append(x, y);
    lemma_drain_shrinks(x);
    match drain(x).0 {
        None => {
            assert(decode_all(x).0 =~= Seq::<Seq<char>>::empty());
            let r = drain(x).1;
            assert(drain(x + y) == drain(r + y));
            assert(decode_all(x + y) == decode_all(r + y));
            assert(decode_all(x).0 + decode_all(r + y).0 =~= decode_all(r + y).0);
        },
        Some(p) => {
            let r = drain(x).1;
            lemma_decode_all_append(r, y);
            assert(drain(x + y) == (Some(p), r + y));
            lemma_drain_shrinks(x + y);
            assert(decode_all(x + y) == (seq![p] + decode_all(r + y).0, decode_all(r + y).1));
            assert(seq![p] + (decode_all(r).0 + decode_all(decode_all(r).1 + y).0) =~= (seq![p]
                + decode_all(r).0) + decode_all(decode_all(r).1 + y).0);
        },
    }
}

/// Feeding the text in pieces yields exactly what decoding all of it at once
/// yields: the same payloads in the same order and the same leftover text.
pub proof fn lemma_feed_is_decode_all(chunks: Seq<Seq<char>>)
    ensures
        feed(chunks) == decode_all(concat_all(chunks)),
    decreases chunks.len(),
{
    if chunks.len() == 0 {
        assert(drain(Seq::<char>::empty()) == (None::<Seq<char>>, Seq::<char>::empty())) by {
            lemma_find(Seq::<char>::empty(), block_separator());
        }
        assert(decode_all(concat_all(chunks)).0 =~= Seq::<Seq<char>>::empty());
    } else {
        let init = chunks.drop_last();
        lemma_feed_is_decode_all(init);
        lemma_decode_all_append(concat_all(init), chunks.last());
    }
}

/// How the stream is split into pieces does not matter: two ways of
/// receiving the same text yield the same payloads and leave the same text.
pub proof fn lemma_chunking_irrelevant(c1: Seq<Seq<char>>, c2: Seq<Seq<char>>)
    requires
        concat_all(c1) == concat_all(c2),
    ensures
        feed(c1) == feed(c2),
{
    lemma_feed_is_decode_all(c1);
    lemma_feed_is_decode_all(c2);
}

} // verus!
