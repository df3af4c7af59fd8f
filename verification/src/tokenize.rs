//! Envelope validation, tokenization and the top-level decoder.
//!
//! The tokenizer strips the delimiter characters to measure the input,
//! validates the `LPS` / `LP` envelope, rejects delimiter-separated spans
//! whose length is not a multiple of 3 (collecting every offender), and
//! splits the body into three-symbol groups and standalone delimiter
//! markers. The decoder then renders every token in order.

use vstd::prelude::*;
use vstd::string::StrSliceExecFns;
use vstd::string::StringExecFns;

use crate::chunk::spec_chunk_render;
use crate::chunk::Chunk;
use crate::chunk::LevelanceChunks;
use crate::letter::is_letter_char;
use crate::letter::letter_from_char;
use crate::letter::letter_of;
use crate::letter::Letter;

verus! {

/// Why an input failed to decode.
#[derive(Debug, PartialEq, Eq)]
pub enum DecodeError {
    /// The stripped input length is below the minimum of 5.
    TooShort,
    /// The input does not start with `LPS` or does not end with `LP`.
    BadEnvelope,
    /// One or more delimiter-separated spans of the body have a length that
    /// is not a multiple of 3; every offending span is collected, in order.
    BadGroupLength(Vec<String>),
    /// A body character is neither the delimiter nor a recognized symbol.
    InvalidSymbol(char),
}

/// The number of non-delimiter characters of `s`: the length the input is
/// measured by, envelope markers included.
pub open spec fn spec_stripped_len(s: Seq<char>) -> nat
    decreases s.len(),
{
    if s.len() == 0 {
        0
    } else {
        spec_stripped_len(s.drop_last()) + if s.last() == '.' {
            0nat
        } else {
            1nat
        }
    }
}

/// The stripped length never exceeds the length itself.
pub proof fn lemma_stripped_len_le(s: Seq<char>)
    ensures
        spec_stripped_len(s) <= s.len(),
    decreases s.len(),
{
    if s.len() > 0 {
        lemma_stripped_len_le(s.drop_last());
    }
}

/// Whether `s` carries the envelope: it starts with `LPS` and ends with
/// `LP`, checked on the raw, non-stripped characters.
pub open spec fn spec_envelope_ok(s: Seq<char>) -> bool {
    &&& s.len() >= 5
    &&& s[0] == 'L'
    &&& s[1] == 'P'
    &&& s[2] == 'S'
    &&& s[s.len() - 2] == 'L'
    &&& s[s.len() - 1] == 'P'
}

/// The body: the characters strictly between the envelope markers.
pub open spec fn spec_body(s: Seq<char>) -> Seq<char> {
    s.subrange(3, s.len() - 2)
}

/// The delimiter-separated spans of a body, in order. A body with no
/// delimiter is one span; every delimiter ends one span and starts the next,
/// so consecutive, leading and trailing delimiters produce empty spans.
pub open spec fn spec_spans(b: Seq<char>) -> Seq<Seq<char>>
    decreases b.len(),
{
    if b.len() == 0 {
        seq![Seq::<char>::empty()]
    } else {
        let init = spec_spans(b.drop_last());
        if b.last() == '.' {
            init + seq![Seq::<char>::empty()]
        } else {
            init.update(init.len() - 1, init.last().push(b.last()))
        }
    }
}

/// The spans of a span list whose length is not a multiple of 3, in order.
pub open spec fn spec_bad_filter(spans: Seq<Seq<char>>) -> Seq<Seq<char>>
    decreases spans.len(),
{
    if spans.len() == 0 {
        Seq::empty()
    } else {
        spec_bad_filter(spans.drop_last()) + if spans.last().len() % 3 != 0 {
            seq![spans.last()]
        } else {
            Seq::empty()
        }
    }
}

/// The offending spans of a body: those whose length is not a multiple of 3.
pub open spec fn spec_bad_spans(b: Seq<char>) -> Seq<Seq<char>> {
    spec_bad_filter(spec_spans(b))
}

/// The first body character from index `i` on that is neither the delimiter
/// nor a recognized symbol.
pub open spec fn spec_first_invalid_from(b: Seq<char>, i: int) -> Option<char>
    decreases b.len() - i,
{
    if i < 0 || i >= b.len() {
        None
    } else if b[i] != '.' && !is_letter_char(b[i]) {
        Some(b[i])
    } else {
        spec_first_invalid_from(b, i + 1)
    }
}

/// The first body character that is neither the delimiter nor a recognized
/// symbol, if any.
pub open spec fn spec_first_invalid(b: Seq<char>) -> Option<char> {
    spec_first_invalid_from(b, 0)
}

/// The group a full three-letter buffer closes into, tagged with whether a
/// delimiter preceded it.
pub open spec fn spec_chunk_of(buf: Seq<Letter>, has_dot: bool) -> Chunk {
    if has_dot {
        Chunk::WithDot(Some([buf[0], buf[1], buf[2]]))
    } else {
        Chunk::NoDot([buf[0], buf[1], buf[2]])
    }
}

/// The tokens produced from body position `i` on, given the letters already
/// buffered for the current group and whether a delimiter is pending. A
/// delimiter with one already pending emits a standalone marker; every third
/// buffered letter closes a group and resets the pending state; a pending
/// delimiter at the end emits a trailing marker; an incompletely buffered
/// group at the end is dropped.
pub open spec fn spec_scan_from(b: Seq<char>, i: int, buf: Seq<Letter>, has_dot: bool) -> Seq<
    Chunk,
>
    decreases b.len() - i,
{
    if i < 0 || i >= b.len() {
        if has_dot {
            seq![Chunk::WithDot(None)]
        } else {
            Seq::empty()
        }
    } else if b[i] == '.' {
        if has_dot {
            seq![Chunk::WithDot(None)] + spec_scan_from(b, i + 1, buf, true)
        } else {
            spec_scan_from(b, i + 1, buf, true)
        }
    } else {
        let buf2 = buf.push(letter_of(b[i]));
        if buf2.len() == 3 {
            seq![spec_chunk_of(buf2, has_dot)] + spec_scan_from(b, i + 1, Seq::empty(), false)
        } else {
            spec_scan_from(b, i + 1, buf2, has_dot)
        }
    }
}

/// The tokens of a body.
pub open spec fn spec_chunks_of(b: Seq<char>) -> Seq<Chunk> {
    spec_scan_from(b, 0, Seq::empty(), false)
}

/// Whether an input passes every validation stage of the tokenizer.
pub open spec fn spec_parse_ok(s: Seq<char>) -> bool {
    &&& spec_stripped_len(s) >= 5
    &&& spec_envelope_ok(s)
    &&& spec_bad_spans(spec_body(s)).len() == 0
    &&& spec_first_invalid(spec_body(s)) is None
}

/// The views of a list of strings.
pub open spec fn spec_views(ss: Seq<String>) -> Seq<Seq<char>> {
    ss.map_values(|t: String| t@)
}

/// The characters of `s`, as a vector.
fn chars_of(s: &str) -> (v: Vec<char>)
    ensures
        v@ == s@,
{
    let n: usize = s.unicode_len();
    let mut v: Vec<char> = Vec::new();
    let mut i: usize = 0;
    while i < n
        invariant
            n == s@.len(),
            i <= n,
            v@ == s@.take(i as int),
        decreases n - i,
    {
        let c: char = s.get_char(i);
        v.push(c);
        proof {
            assert(v@ =~= s@.take(i + 1));
        }
        i = i + 1;
    }
    proof {
        assert(v@ =~= s@);
    }
    v
}

/// Counts the non-delimiter characters of `v`.
fn stripped_count(v: &Vec<char>) -> (n: usize)
    ensures
        n as nat == spec_stripped_len(v@),
{
    let mut n: usize = 0;
    let mut i: usize = 0;
    while i < v.len()
        invariant
            i <= v@.len(),
            n <= i,
            n as nat == spec_stripped_len(v@.take(i as int)),
        decreases v@.len() - i,
    {
        proof {
            assert(v@.take(i + 1).drop_last() =~= v@.take(i as int));
            assert(v@.take(i + 1).last() == v@[i as int]);
        }
        if v[i] != '.' {
            n = n + 1;
        }
        i = i + 1;
    }
    proof {
        assert(v@.take(v@.len() as int) =~= v@);
    }
    n
}

/// Copies `v[from..to]` into a fresh vector.
fn subrange_vec(v: &Vec<char>, from: usize, to: usize) -> (r: Vec<char>)
    requires
        from <= to <= v@.len(),
    ensures
        r@ == v@.subrange(from as int, to as int),
{
    let mut r: Vec<char> = Vec::new();
    let mut i: usize = from;
    while i < to
        invariant
            from <= i <= to <= v@.len(),
            r@ == v@.subrange(from as int, i as int),
        decreases to - i,
    {
        r.push(v[i]);
        proof {
            assert(r@ =~= v@.subrange(from as int, i + 1));
        }
        i = i + 1;
    }
    r
}

/// Collects every offending span of the body, in order, each as a substring
/// of the raw input.
fn collect_bad_spans(input: &str, body: &Vec<char>) -> (bads: Vec<String>)
    requires
        5 <= input@.len() <= usize::MAX,
        body@ == spec_body(input@),
    ensures
        spec_views(bads@) == spec_bad_spans(body@),
{
    let ghost b: Seq<char> = body@;
    let mut bads: Vec<String> = Vec::new();
    let ghost mut emitted: Seq<Seq<char>> = Seq::empty();
    let mut start: usize = 0;
    let mut i: usize = 0;
    proof {
        assert(b.take(0) =~= Seq::<char>::empty());
        assert(b.subrange(0, 0) =~= Seq::<char>::empty());
        assert(spec_spans(b.take(0)) =~= emitted + seq![b.subrange(0, 0)]);
        assert(spec_views(bads@) =~= spec_bad_filter(emitted));
    }
    while i < body.len()
        invariant
            5 <= input@.len() <= usize::MAX,
            b == body@,
            b == spec_body(input@),
            start <= i <= b.len(),
            spec_spans(b.take(i as int)) == emitted + seq![b.subrange(start as int, i as int)],
            spec_views(bads@) == spec_bad_filter(emitted),
        decreases b.len() - i,
    {
        proof {
            assert(b.take(i + 1).drop_last() =~= b.take(i as int));
            assert(b.take(i + 1).last() == b[i as int]);
        }
        if body[i] == '.' {
            // the delimiter closes the current span
            if (i - start) % 3 != 0 {
                let span: String = input.substring_char(3 + start, 3 + i).to_owned();
                proof {
                    assert(span@ =~= b.subrange(start as int, i as int));
                }
                bads.push(span);
            }
            proof {
                let sp = b.subrange(start as int, i as int);
                let emitted2 = emitted.push(sp);
                assert(emitted2.drop_last() =~= emitted);
                assert(emitted2.last() == sp);
                assert(spec_views(bads@) =~= spec_bad_filter(emitted2));
                assert(b.subrange(i + 1, i + 1) =~= Seq::<char>::empty());
                assert(emitted2 =~= emitted + seq![sp]);
                assert(spec_spans(b.take(i + 1)) =~= emitted2 + seq![b.subrange(i + 1, i + 1)]);
                emitted = emitted2;
            }
            start = i + 1;
        } else {
            proof {
                let cur = b.subrange(start as int, i as int);
                let cur2 = b.subrange(start as int, i + 1);
                let old_spans = emitted + seq![cur];
                assert(old_spans.last() == cur);
                assert(cur.push(b[i as int]) =~= cur2);
                assert(old_spans.update(old_spans.len() - 1, cur.push(b[i as int])) =~= emitted
                    + seq![cur2]);
                assert(spec_spans(b.take(i + 1)) =~= emitted + seq![cur2]);
            }
        }
        i = i + 1;
    }
    // the end of the body closes the final span
    proof {
        assert(b.take(b.len() as int) =~= b);
    }
    if (body.len() - start) % 3 != 0 {
        let span: String = input.substring_char(3 + start, 3 + body.len()).to_owned();
        proof {
            assert(span@ =~= b.subrange(start as int, b.len() as int));
        }
        bads.push(span);
    }
    proof {
        let sp = b.subrange(start as int, b.len() as int);
        let emitted2 = emitted.push(sp);
        assert(emitted2.drop_last() =~= emitted);
        assert(emitted2 =~= spec_spans(b));
        assert(spec_views(bads@) =~= spec_bad_filter(emitted2));
    }
    bads
}

/// Splits the body into tokens, or reports the first unrecognized character.
fn scan_chunks(body: &Vec<char>) -> (r: Result<Vec<Chunk>, char>)
    ensures
        match r {
            Ok(chunks) => spec_first_invalid(body@) is None && chunks@ == spec_chunks_of(body@),
            Err(c) => spec_first_invalid(body@) == Some(c),
        },
{
    let ghost b: Seq<char> = body@;
    let mut chunks: Vec<Chunk> = Vec::new();
    let mut buf: Vec<Letter> = Vec::new();
    let mut has_dot: bool = false;
    let mut i: usize = 0;
    while i < body.len()
        invariant
            b == body@,
            i <= b.len(),
            buf@.len() < 3,
            spec_first_invalid_from(b, 0) == spec_first_invalid_from(b, i as int),
            spec_chunks_of(b) == chunks@ + spec_scan_from(b, i as int, buf@, has_dot),
        decreases b.len() - i,
    {
        let c: char = body[i];
        if c == '.' {
            if has_dot {
                chunks.push(Chunk::WithDot(None));
                proof {
                    assert(chunks@ + spec_scan_from(b, i + 1, buf@, true) =~= spec_chunks_of(b));
                }
            }
            has_dot = true;
        } else {
            match letter_from_char(c) {
                None => {
                    return Err(c);
                },
                Some(l) => {
                    buf.push(l);
                    if buf.len() == 3 {
                        let arr: [Letter; 3] = [buf[0], buf[1], buf[2]];
                        let chunk: Chunk = if has_dot {
                            Chunk::WithDot(Some(arr))
                        } else {
                            Chunk::NoDot(arr)
                        };
                        proof {
                            assert(chunk == spec_chunk_of(buf@, has_dot));
                        }
                        chunks.push(chunk);
                        proof {
                            assert(chunks@ + spec_scan_from(b, i + 1, Seq::<Letter>::empty(), false)
                                =~= spec_chunks_of(b));
                        }
                        buf.clear();
                        has_dot = false;
                    }
                },
            }
        }
        i = i + 1;
    }
    if has_dot {
        chunks.push(Chunk::WithDot(None));
        proof {
            assert(chunks@ =~= spec_chunks_of(b));
        }
    } else {
        proof {
            assert(chunks@ =~= spec_chunks_of(b));
        }
    }
    Ok(chunks)
}

/// Tokenizes an input: validates its stripped length, its envelope and its
/// span lengths, then splits the body into groups and delimiter markers.
/// Exactly the inputs that pass every stage produce a token list; each error
/// names the first stage that failed.
pub fn parse(input: &str) -> (r: Result<LevelanceChunks, DecodeError>)
    ensures
        match r {
            Ok(lc) => {
                &&& spec_parse_ok(input@)
                &&& lc.spec_chunks() == spec_chunks_of(spec_body(input@))
                &&& lc.spec_len() as nat == spec_stripped_len(input@)
            },
            Err(DecodeError::TooShort) => spec_stripped_len(input@) < 5,
            Err(DecodeError::BadEnvelope) => {
                &&& spec_stripped_len(input@) >= 5
                &&& !spec_envelope_ok(input@)
            },
            Err(DecodeError::BadGroupLength(bads)) => {
                &&& spec_stripped_len(input@) >= 5
                &&& spec_envelope_ok(input@)
                &&& spec_bad_spans(spec_body(input@)).len() > 0
                &&& spec_views(bads@) == spec_bad_spans(spec_body(input@))
            },
            Err(DecodeError::InvalidSymbol(c)) => {
                &&& spec_stripped_len(input@) >= 5
                &&& spec_envelope_ok(input@)
                &&& spec_bad_spans(spec_body(input@)).len() == 0
                &&& spec_first_invalid(spec_body(input@)) == Some(c)
            },
        },
{
    let v: Vec<char> = chars_of(input);
    let strlen: usize = stripped_count(&v);
    if strlen < 5 {
        return Err(DecodeError::TooShort);
    }
    proof {
        lemma_stripped_len_le(v@);
    }
    let n: usize = v.len();
    if !(v[0] == 'L' && v[1] == 'P' && v[2] == 'S' && v[n - 2] == 'L' && v[n - 1] == 'P') {
        return Err(DecodeError::BadEnvelope);
    }
    let body: Vec<char> = subrange_vec(&v, 3, n - 2);
    let bads: Vec<String> = collect_bad_spans(input, &body);
    if bads.len() > 0 {
        proof {
            assert(spec_views(bads@).len() == bads@.len());
        }
        return Err(DecodeError::BadGroupLength(bads));
    }
    proof {
        assert(spec_views(bads@).len() == bads@.len());
    }
    match scan_chunks(&body) {
        Err(c) => Err(DecodeError::InvalidSymbol(c)),
        Ok(chunks) => Ok(LevelanceChunks::new(chunks, strlen)),
    }
}

/// What every token of a token list renders to, concatenated in order.
pub open spec fn spec_render_all(chunks: Seq<Chunk>, len: usize) -> Seq<char>
    decreases chunks.len(),
{
    if chunks.len() == 0 {
        Seq::empty()
    } else {
        spec_render_all(chunks.drop_last(), len) + spec_chunk_render(chunks.last(), len)
    }
}

/// The decoded output of an input that passes every validation stage.
pub open spec fn spec_output(s: Seq<char>) -> Seq<char> {
    spec_render_all(spec_chunks_of(spec_body(s)), spec_stripped_len(s) as usize)
}

/// Decodes an input: tokenizes it, renders every group to its digit and
/// every delimiter marker to a literal delimiter, and concatenates the
/// results in input order. Exactly the inputs that pass every validation
/// stage decode; each error names the first stage that failed.
pub fn decode(input: &str) -> (r: Result<String, DecodeError>)
    ensures
        match r {
            Ok(out) => spec_parse_ok(input@) && out@ == spec_output(input@),
            Err(DecodeError::TooShort) => spec_stripped_len(input@) < 5,
            Err(DecodeError::BadEnvelope) => {
                &&& spec_stripped_len(input@) >= 5
                &&& !spec_envelope_ok(input@)
            },
            Err(DecodeError::BadGroupLength(bads)) => {
                &&& spec_stripped_len(input@) >= 5
                &&& spec_envelope_ok(input@)
                &&& spec_bad_spans(spec_body(input@)).len() > 0
                &&& spec_views(bads@) == spec_bad_spans(spec_body(input@))
            },
            Err(DecodeError::InvalidSymbol(c)) => {
                &&& spec_stripped_len(input@) >= 5
                &&& spec_envelope_ok(input@)
                &&& spec_bad_spans(spec_body(input@)).len() == 0
                &&& spec_first_invalid(spec_body(input@)) == Some(c)
            },
        },
{
    let lc: LevelanceChunks = match parse(input) {
        Ok(lc) => lc,
        Err(e) => {
            return Err(e);
        },
    };
    let parts: Vec<String> = lc.decode();
    let ghost chunks: Seq<Chunk> = lc.spec_chunks();
    let mut out: String = String::new();
    let mut i: usize = 0;
    while i < parts.len()
        invariant
            parts@.len() == chunks.len(),
            forall|j: int|
                0 <= j < parts@.len() ==> parts@[j]@ == spec_chunk_render(
                    chunks[j],
                    lc.spec_len(),
                ),
            i <= parts@.len(),
            out@ == spec_render_all(chunks.take(i as int), lc.spec_len()),
        decreases parts@.len() - i,
    {
        proof {
            assert(chunks.take(i + 1).drop_last() =~= chunks.take(i as int));
            assert(chunks.take(i + 1).last() == chunks[i as int]);
        }
        out.append(parts[i].as_str());
        i = i + 1;
    }
    proof {
        assert(chunks.take(chunks.len() as int) =~= chunks);
    }
    Ok(out)
}

} // verus!
