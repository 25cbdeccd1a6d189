//! Server-sent event framing: splitting text into lines and extracting the
//! `data:` payloads of a Responses API stream.
use vstd::prelude::*;
use crate::text::{
    concat, lemma_split_char_nonempty, owned, seq_starts_with, split, split_char, str_eq,
    strip_prefix, views,
};

verus! {

/// `s` without one trailing `'\r'`.
pub open spec fn strip_cr(s: Seq<char>) -> Seq<char> {
    if s.len() > 0 && s.last() == '\r' {
        s.drop_last()
    } else {
        s
    }
}

/// The lines of `s` as `str::lines` yields them: split at `'\n'`, a `'\r'`
/// before a `'\n'` removed, and no empty line after a final `'\n'`.
pub open spec fn spec_lines(s: Seq<char>) -> Seq<Seq<char>> {
    let p = split_char(s, '\n');
    let k: int = if p.last().len() == 0 { p.len() - 1 } else { p.len() as int };
    Seq::new(k as nat, |i: int| if i < p.len() - 1 { strip_cr(p[i]) } else { p[i] })
}

fn strip_cr_exec(s: String) -> (r: String)
    ensures
        r@ == strip_cr(s@),
{
    let v = crate::text::chars_of(s.as_str());
    if v.len() > 0 && v[v.len() - 1] == '\r' {
        crate::text::sub_string(&v, 0, v.len() - 1)
    } else {
        s
    }
}

/// `s.lines()`.
pub fn lines(s: &str) -> (r: Vec<String>)
    ensures
        views(r@) == spec_lines(s@),
{
    let pieces = split(s, '\n');
    let ghost p = split_char(s@, '\n');
    proof {
        lemma_split_char_nonempty(s@, '\n');
        assert(p.len() == pieces@.len());
        assert(pieces@[pieces@.len() - 1]@ == p.last());
    }
    let n = pieces.len();
    let k: usize = if pieces[n - 1].as_str().is_empty() { n - 1 } else { n };
    let mut out: Vec<String> = Vec::new();
    let mut i: usize = 0;
    while i < k
        invariant
            k <= n,
            n == pieces@.len(),
            n == p.len(),
            views(pieces@) == p,
            i <= k,
            views(out@) == Seq::new(i as nat, |j: int| if j < p.len() - 1 { strip_cr(p[j]) } else { p[j] }),
        decreases k - i,
    {
        assert(pieces@[i as int]@ == p[i as int]);
        let piece = pieces[i].clone();
        let line = if i < n - 1 { strip_cr_exec(piece) } else { piece };
        let ghost before = out@;
        out.push(line);
        i = i + 1;
        proof {
            assert(views(out@) =~= views(before).push(line@));
            assert(views(out@) =~= Seq::new(i as nat, |j: int| if j < p.len() - 1 { strip_cr(p[j]) } else { p[j] }));
        }
    }
    proof {
        assert(views(out@) =~= spec_lines(s@));
    }
    out
}

/// The `data:` payloads of the lines of an event stream up to `[DONE]`.
pub open spec fn spec_payloads(lines: Seq<Seq<char>>) -> Seq<Seq<char>>
    decreases lines.len(),
{
    if lines.len() == 0 {
        Seq::empty()
    } else if seq_starts_with(lines[0], "data: "@) {
        let d = lines[0].skip(6);
        if d == "[DONE]"@ {
            Seq::empty()
        } else {
            seq![d] + spec_payloads(lines.drop_first())
        }
    } else {
        spec_payloads(lines.drop_first())
    }
}

/// The `data:` payloads of a whole event-stream body, stopping at `[DONE]`.
pub fn sse_payloads(raw: &str) -> (r: Vec<String>)
    ensures
        views(r@) == spec_payloads(spec_lines(raw@)),
{
    let ls = lines(raw);
    let ghost lv = views(ls@);
    let mut out: Vec<String> = Vec::new();
    let mut i: usize = 0;
    proof {
        reveal_strlit("data: ");
        assert(lv.skip(0) =~= lv);
        assert(views(out@) + spec_payloads(lv.skip(0)) =~= spec_payloads(lv));
    }
    while i < ls.len()
        invariant
            i <= ls.len(),
            lv == views(ls@),
            lv == spec_lines(raw@),
            lv.len() == ls@.len(),
            views(out@) + spec_payloads(lv.skip(i as int)) == spec_payloads(lv),
        decreases ls.len() - i,
    {
        proof {
            assert(lv.skip(i as int)[0] == ls@[i as int]@);
            assert(lv.skip(i as int).drop_first() =~= lv.skip(i + 1));
        }
        match strip_prefix(ls[i].as_str(), "data: ") {
            Some(d) => {
                proof {
                    reveal_strlit("data: ");
                }
                if str_eq(d.as_str(), "[DONE]") {
                    assert(views(out@) =~= spec_payloads(lv));
                    return out;
                }
                let ghost before = out@;
                out.push(d);
                proof {
                    assert(views(out@) =~= views(before).push(d@));
                }
            },
            None => {},
        }
        i = i + 1;
    }
    proof {
        assert(lv.skip(i as int) =~= Seq::<Seq<char>>::empty());
        assert(views(out@) =~= spec_payloads(lv));
    }
    out
}

/// The payload of one streamed line: the text after `data: `, unless it is `[DONE]`.
pub open spec fn spec_stream_payload(line: Seq<char>) -> Option<Seq<char>> {
    if seq_starts_with(line, "data: "@) && line.skip(6) != "[DONE]"@ {
        Some(line.skip(6))
    } else {
        None
    }
}

/// The payload of one streamed line, if it carries an event.
pub fn stream_payload(line: &str) -> (r: Option<String>)
    ensures
        crate::codex::opt_view(r) == spec_stream_payload(line@),
{
    proof {
        reveal_strlit("data: ");
    }
    match strip_prefix(line, "data: ") {
        Some(d) => if str_eq(d.as_str(), "[DONE]") {
            None
        } else {
            Some(d)
        },
        None => None,
    }
}

/// Splits streamed text into complete lines, keeping an unfinished last line
/// until more text arrives.
#[derive(Debug)]
pub struct LineBuffer {
    pub pending: String,
}

impl LineBuffer {
    /// An empty buffer.
    pub fn new() -> (r: LineBuffer)
        ensures
            r.pending@ == Seq::<char>::empty(),
    {
        LineBuffer { pending: String::new() }
    }

    /// Appends `text` and returns the lines it completed (without their
    /// `'\n'`), in order; the text after the last `'\n'` stays pending.
    pub fn push(&mut self, text: &str) -> (r: Vec<String>)
        ensures
            views(r@) == split_char(old(self).pending@ + text@, '\n').drop_last(),
            final(self).pending@ == split_char(old(self).pending@ + text@, '\n').last(),
    {
        let all = concat(self.pending.as_str(), text);
        let mut pieces = split(all.as_str(), '\n');
        proof {
            lemma_split_char_nonempty(all@, '\n');
        }
        let ghost pv = pieces@;
        let last = pieces.pop().unwrap();
        self.pending = last;
        proof {
            assert(views(pieces@) =~= views(pv).drop_last());
        }
        pieces
    }
}

proof fn lemma_split_char_no_sep(s: Seq<char>, c: char)
    requires
        !s.contains(c),
    ensures
        split_char(s, c) == seq![s],
    decreases s.len(),
{
    if s.len() > 0 {
        assert(!s.drop_last().contains(c)) by {
            if s.drop_last().contains(c) {
                let j = choose|j: int| 0 <= j < s.drop_last().len() && s.drop_last()[j] == c;
                assert(s[j] == c);
            }
        }
        lemma_split_char_no_sep(s.drop_last(), c);
        assert(s.last() != c);
        assert(s.drop_last().push(s.last()) =~= s);
        assert(split_char(s, c) =~= seq![s]);
    } else {
        assert(s =~= Seq::<char>::empty());
    }
}

proof fn lemma_split_char_last_no_sep(s: Seq<char>, c: char)
    ensures
        !split_char(s, c).last().contains(c),
    decreases s.len(),
{
    lemma_split_char_nonempty(s, c);
    if s.len() > 0 {
        lemma_split_char_nonempty(s.drop_last(), c);
        lemma_split_char_last_no_sep(s.drop_last(), c);
        let prev = split_char(s.drop_last(), c);
        if s.last() != c {
            let t = prev.last().push(s.last());
            assert(split_char(s, c).last() == t);
            assert(!t.contains(c)) by {
                if t.contains(c) {
                    let j = choose|j: int| 0 <= j < t.len() && t[j] == c;
                    if j < prev.last().len() {
                        assert(prev.last()[j] == c);
                    }
                }
            }
        }
    }
}

/// Splitting `a + b` is splitting `a`, with its last piece carried on into `b`.
proof fn lemma_split_char_append(a: Seq<char>, b: Seq<char>, c: char)
    ensures
        split_char(a + b, c) == split_char(a, c).drop_last() + split_char(split_char(a, c).last() + b, c),
    decreases b.len(),
{
    let la = split_char(a, c);
    lemma_split_char_nonempty(a, c);
    let d = la.drop_last();
    let t = la.last();
    if b.len() == 0 {
        lemma_split_char_last_no_sep(a, c);
        lemma_split_char_no_sep(t, c);
        assert(a + b =~= a);
        assert(t + b =~= t);
        assert(d + seq![t] =~= la);
    } else {
        let b1 = b.drop_last();
        lemma_split_char_append(a, b1, c);
        assert((a + b).drop_last() =~= a + b1);
        assert((a + b).last() == b.last());
        assert((t + b).drop_last() =~= t + b1);
        assert((t + b).last() == b.last());
        lemma_split_char_nonempty(t + b1, c);
        let y = split_char(t + b1, c);
        if b.last() == c {
            assert((d + y).push(Seq::<char>::empty()) =~= d + y.push(Seq::<char>::empty()));
        } else {
            assert((d + y).update((d + y).len() - 1, (d + y).last().push(b.last()))
                =~= d + y.update(y.len() - 1, y.last().push(b.last())));
        }
    }
}

/// Chunk boundaries do not matter to a `LineBuffer`: pushing `x` and then `y`
/// completes the same lines, in the same order, and leaves the same pending
/// text as pushing `x + y` at once.
pub proof fn law_line_buffer_chunking(pending: Seq<char>, x: Seq<char>, y: Seq<char>)
    ensures
        ({
            let first = split_char(pending + x, '\n');
            let second = split_char(first.last() + y, '\n');
            let whole = split_char(pending + (x + y), '\n');
            &&& whole.drop_last() == first.drop_last() + second.drop_last()
            &&& whole.last() == second.last()
        }),
{
    let first = split_char(pending + x, '\n');
    let second = split_char(first.last() + y, '\n');
    assert(pending + (x + y) =~= (pending + x) + y);
    lemma_split_char_append(pending + x, y, '\n');
    lemma_split_char_nonempty(first.last() + y, '\n');
    assert((first.drop_last() + second).drop_last() =~= first.drop_last() + second.drop_last());
}


/// The position of the first `'\n'` in `s` (its length when there is none).
pub open spec fn first_newline(s: Seq<char>) -> nat
    decreases s.len(),
{
    if s.len() == 0 || s[0] == '\n' {
        0
    } else {
        1 + first_newline(s.drop_first())
    }
}

/// One scan of buffered stream text: the `data:` payloads of its complete
/// lines up to a `[DONE]` line, whether `[DONE]` was reached, and the text
/// left in the buffer (after `[DONE]`, or the unfinished last line). Each
/// line loses its trailing `'\n'` and `'\r'` characters.
pub open spec fn spec_scan(rem: Seq<char>) -> (Seq<Seq<char>>, bool, Seq<char>)
    decreases rem.len(),
{
    let nl = first_newline(rem);
    if nl >= rem.len() {
        (Seq::empty(), false, rem)
    } else {
        let line = crate::text::trim_end_newlines_spec(rem.take(nl + 1 as int));
        let rest = rem.skip(nl + 1 as int);
        if seq_starts_with(line, "data: "@) && line.skip(6) == "[DONE]"@ {
            (Seq::empty(), true, rest)
        } else if seq_starts_with(line, "data: "@) {
            let (ps, done, left) = spec_scan(rest);
            (seq![line.skip(6)] + ps, done, left)
        } else {
            spec_scan(rest)
        }
    }
}

proof fn lemma_first_newline(s: Seq<char>, k: int)
    requires
        0 <= k <= s.len(),
        forall|j: int| 0 <= j < k ==> s[j] != '\n',
    ensures
        first_newline(s) == k + first_newline(s.skip(k)),
    decreases k,
{
    if k > 0 {
        lemma_first_newline(s.drop_first(), k - 1);
        assert(s.drop_first().skip(k - 1) =~= s.skip(k));
    } else {
        assert(s.skip(0) =~= s);
    }
}

/// The buffer of a line-oriented event stream that is read chunk by chunk.
#[derive(Debug)]
pub struct StreamScanner {
    pub remainder: String,
}

impl StreamScanner {
    /// An empty buffer.
    pub fn new() -> (r: StreamScanner)
        ensures
            r.remainder@ == Seq::<char>::empty(),
    {
        StreamScanner { remainder: String::new() }
    }

    /// Appends a chunk and scans the buffer: returns the payloads of the
    /// complete lines up to `[DONE]` and whether `[DONE]` was reached; the rest
    /// stays buffered for the next chunk.
    pub fn push_chunk(&mut self, chunk: &str) -> (r: (Vec<String>, bool))
        ensures
            (views(r.0@), r.1, final(self).remainder@) == spec_scan(old(self).remainder@ + chunk@),
    {
        let all = concat(self.remainder.as_str(), chunk);
        let cv = crate::text::chars_of(all.as_str());
        let ghost whole = cv@;
        let mut out: Vec<String> = Vec::new();
        let mut pos: usize = 0;
        proof {
            reveal_strlit("data: ");
            assert(cv@.skip(0) =~= cv@);
        }
        loop
            invariant
                pos <= cv@.len(),
                whole == cv@,
                whole == old(self).remainder@ + chunk@,
                ({
                    let tail = spec_scan(cv@.skip(pos as int));
                    let full = spec_scan(whole);
                    &&& views(out@) + tail.0 == full.0
                    &&& tail.1 == full.1
                    &&& tail.2 == full.2
                }),
            decreases cv@.len() - pos,
        {
            let ghost rem = cv@.skip(pos as int);
            let mut k: usize = pos;
            while k < cv.len() && cv[k] != '\n'
                invariant
                    pos <= k <= cv@.len(),
                    rem == cv@.skip(pos as int),
                    forall|j: int| pos <= j < k ==> cv@[j] != '\n',
                decreases cv.len() - k,
            {
                k = k + 1;
            }
            proof {
                lemma_first_newline(rem, k - pos);
                assert(rem.skip(k - pos) =~= cv@.skip(k as int));
                if k < cv.len() {
                    assert(first_newline(cv@.skip(k as int)) == 0);
                } else {
                    assert(cv@.skip(k as int).len() == 0);
                }
            }
            if k >= cv.len() {
                let left = crate::text::sub_string(&cv, pos, cv.len());
                proof {
                    assert(left@ =~= rem);
                }
                self.remainder = left;
                return (out, false);
            }
            // The line is cv[pos..=k] without trailing '\n' and '\r'.
            let mut end: usize = k + 1;
            while end > pos && (cv[end - 1] == '\n' || cv[end - 1] == '\r')
                invariant
                    pos <= end <= k + 1,
                    k < cv@.len(),
                    crate::text::trim_end_newlines_spec(cv@.subrange(pos as int, k + 1))
                        == crate::text::trim_end_newlines_spec(cv@.subrange(pos as int, end as int)),
                decreases end - pos,
            {
                proof {
                    assert(cv@.subrange(pos as int, end as int).drop_last() =~= cv@.subrange(pos as int, end - 1));
                }
                end = end - 1;
            }
            proof {
                assert(rem.take(k - pos + 1) =~= cv@.subrange(pos as int, k + 1));
                assert(rem.skip(k - pos + 1) =~= cv@.skip(k + 1));
                let sub = cv@.subrange(pos as int, end as int);
                if sub.len() > 0 {
                    assert(sub.last() == cv@[end - 1]);
                }
            }
            let line = crate::text::sub_string(&cv, pos, end);
            let next: usize = k + 1;
            proof {
                reveal_strlit("data: ");
                reveal_strlit("[DONE]");
                assert(first_newline(rem) == k - pos);
                assert(line@ == crate::text::trim_end_newlines_spec(rem.take(k - pos + 1)));
                assert(rem.skip(k - pos + 1) == cv@.skip(next as int));
            }
            match strip_prefix(line.as_str(), "data: ") {
                Some(d) => {
                    if str_eq(d.as_str(), "[DONE]") {
                        let left = crate::text::sub_string(&cv, next, cv.len());
                        proof {
                            assert(left@ =~= cv@.skip(next as int));
                            assert(views(out@) + Seq::<Seq<char>>::empty() =~= views(out@));
                        }
                        self.remainder = left;
                        return (out, true);
                    }
                    let ghost before = out@;
                    out.push(d);
                    proof {
                        assert(views(out@) =~= views(before).push(line@.skip(6)));
                        let tail = spec_scan(cv@.skip(next as int));
                        assert(views(before) + (seq![line@.skip(6)] + tail.0) =~= views(out@) + tail.0);
                    }
                },
                None => {},
            }
            pos = next;
        }
    }
}


/// The text `String::from_utf8_lossy` decodes from bytes (invalid sequences
/// become U+FFFD).
pub uninterp spec fn utf8_lossy(b: Seq<u8>) -> Seq<char>;

/// Decodes bytes with `String::from_utf8_lossy`.
///
/// Trusted: the result is `utf8_lossy` of the bytes; the decoding rules are
/// not restated.
#[verifier::external_body]
pub(crate) fn decode_lossy(b: &[u8]) -> (r: String)
    ensures
        r@ == utf8_lossy(b@),
{
    String::from_utf8_lossy(b).into_owned()
}

impl StreamScanner {
    /// Decodes a chunk of bytes, lossily, and scans it as `push_chunk` does.
    pub fn push_bytes(&mut self, chunk: &[u8]) -> (r: (Vec<String>, bool))
        ensures
            (views(r.0@), r.1, final(self).remainder@) == spec_scan(old(self).remainder@ + utf8_lossy(chunk@)),
    {
        let text = decode_lossy(chunk);
        self.push_chunk(text.as_str())
    }
}


proof fn lemma_first_newline_append(x: Seq<char>, y: Seq<char>)
    requires
        first_newline(x) < x.len(),
    ensures
        first_newline(x + y) == first_newline(x),
    decreases x.len(),
{
    if x[0] != '\n' {
        assert((x + y).drop_first() =~= x.drop_first() + y);
        assert((x + y)[0] == x[0]);
        lemma_first_newline_append(x.drop_first(), y);
    } else {
        assert((x + y)[0] == x[0]);
    }
}

proof fn lemma_first_newline_le(x: Seq<char>)
    ensures
        first_newline(x) <= x.len(),
    decreases x.len(),
{
    if x.len() > 0 && x[0] != '\n' {
        lemma_first_newline_le(x.drop_first());
    }
}

/// Chunk boundaries do not matter: when scanning `x` has not reached
/// `[DONE]`, scanning `x` and then `y` (after what `x` left buffered) yields
/// the payloads, the `[DONE]` flag and the buffer of scanning `x + y` at once.
pub proof fn law_scan_chunking(x: Seq<char>, y: Seq<char>)
    requires
        !spec_scan(x).1,
    ensures
        ({
            let first = spec_scan(x);
            let second = spec_scan(first.2 + y);
            let whole = spec_scan(x + y);
            &&& whole.0 == first.0 + second.0
            &&& whole.1 == second.1
            &&& whole.2 == second.2
        }),
    decreases x.len(),
{
    let nl = first_newline(x);
    lemma_first_newline_le(x);
    if nl >= x.len() {
        assert(spec_scan(x).0 =~= Seq::<Seq<char>>::empty());
        assert(spec_scan(x).2 == x);
        assert(spec_scan(x).0 + spec_scan(x + y).0 =~= spec_scan(x + y).0);
    } else {
        lemma_first_newline_append(x, y);
        let rest = x.skip(nl + 1 as int);
        assert((x + y).take(nl + 1 as int) =~= x.take(nl + 1 as int));
        assert((x + y).skip(nl + 1 as int) =~= rest + y);
        let line = crate::text::trim_end_newlines_spec(x.take(nl + 1 as int));
        law_scan_chunking(rest, y);
        if seq_starts_with(line, "data: "@) {
            let first = spec_scan(x);
            let second = spec_scan(first.2 + y);
            assert(spec_scan(x + y).0 =~= first.0 + second.0);
        }
    }
}

} // verus!
