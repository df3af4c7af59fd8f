//! Symbol groups and their evaluation to a single decimal digit.
//!
//! A group of three symbols is evaluated by running the three symbol rules
//! left to right over a fresh accumulator, freezing the accumulator's parity,
//! folding the up-to-three flagged transforms against that frozen parity, and
//! reducing with `mod 10` and absolute value.

use vstd::prelude::*;
use vstd::string::StringExecFns;
use vstd::wrapping::i32_specs;

use crate::letter::letter_flag;
use crate::letter::letter_step;
use crate::letter::Letter;
use crate::letter::Transform;

verus! {

/// One token of a tokenized input: a three-symbol group, either plain or
/// preceded by a delimiter, or a standalone delimiter marker.
#[derive(Debug, PartialEq, Eq)]
pub enum Chunk {
    NoDot([Letter; 3]),
    WithDot(Option<[Letter; 3]>),
}

/// The ordered tokens of one input, together with the stripped input length
/// that every group's evaluation is parameterized by.
#[derive(Debug)]
pub struct LevelanceChunks {
    chunks: Vec<Chunk>,
    len: usize,
}

/// The effect of one deferred transform on the accumulator, against the
/// frozen parity of the accumulator after the three symbol rules.
pub open spec fn spec_apply_transform(n: i32, is_even: bool, t: Option<Transform>) -> i32 {
    match t {
        Some(Transform::Add5IfEven) => if is_even {
            i32_specs::wrapping_add(n, 5)
        } else {
            n
        },
        Some(Transform::Add1IfOdd) => if !is_even {
            i32_specs::wrapping_add(n, 1)
        } else {
            n
        },
        None => n,
    }
}

/// Whether an accumulator value is even.
pub open spec fn spec_is_even(n: i32) -> bool {
    (n as int) % 2 == 0
}

/// The digit a group of three symbols evaluates to, given the stripped input
/// length: run the three rules, freeze parity, fold the flagged transforms in
/// original order against it, then reduce with `mod 10` and absolute value.
pub open spec fn spec_decode_letters(ls: [Letter; 3], len: usize) -> int {
    let len32 = i32_specs::signed_crop(len as int);
    let n0 = letter_step(ls[0], 0i32, 0, len32);
    let n1 = letter_step(ls[1], n0, 1, len32);
    let n2 = letter_step(ls[2], n1, 2, len32);
    let even = spec_is_even(n2);
    let t0 = spec_apply_transform(n2, even, letter_flag(ls[0]));
    let t1 = spec_apply_transform(t0, even, letter_flag(ls[1]));
    let t2 = spec_apply_transform(t1, even, letter_flag(ls[2]));
    (vstd::math::abs(t2 as int) % 10) as int
}

/// The character a group renders to.
pub open spec fn digit_char(d: int) -> char {
    ((48 + d) as u8) as char
}

/// What one token renders to: a group renders to its digit, a standalone
/// delimiter marker to a literal `.`, and a delimiter-preceded group to `.`
/// followed by its digit.
pub open spec fn spec_chunk_render(ch: Chunk, len: usize) -> Seq<char> {
    match ch {
        Chunk::NoDot(ls) => seq![digit_char(spec_decode_letters(ls, len))],
        Chunk::WithDot(None) => seq!['.'],
        Chunk::WithDot(Some(ls)) => seq!['.', digit_char(spec_decode_letters(ls, len))],
    }
}

/// Every group evaluates to a single decimal digit: never negative, never
/// more than 9, whatever the symbols and the stripped length are.
pub proof fn lemma_decode_letters_in_range(ls: [Letter; 3], len: usize)
    ensures
        0 <= spec_decode_letters(ls, len) <= 9,
{
}

/// Applies one deferred transform to the accumulator `num`, against the
/// frozen parity `is_even`.
pub fn apply_transform(num: &mut i32, is_even: bool, transform: Option<Transform>)
    ensures
        *final(num) == spec_apply_transform(*old(num), is_even, transform),
{
    match transform {
        Some(Transform::Add5IfEven) => {
            if is_even {
                *num = num.wrapping_add(5);
            }
        },
        Some(Transform::Add1IfOdd) => {
            if !is_even {
                *num = num.wrapping_add(1);
            }
        },
        None => (),
    }
}

/// The stripped input length cropped to 32 bits, as the symbol rules use it.
fn crop_len(len: usize) -> (r: i32)
    ensures
        r == i32_specs::signed_crop(len as int),
{
    let x: u64 = len as u64;
    let rem: u64 = x % 0x1_0000_0000;
    let m: i64 = rem as i64;
    if m > 0x7fff_ffff {
        (m - 0x1_0000_0000) as i32
    } else {
        m as i32
    }
}

/// Evaluates a group of three symbols to its digit, given the stripped input
/// length `len`.
pub fn decode_letters(letters: &[Letter; 3], len: usize) -> (d: i32)
    ensures
        d as int == spec_decode_letters(*letters, len),
        0 <= d <= 9,
{
    let len32: i32 = crop_len(len);
    let mut num: i32 = 0;
    let transform_0 = letters[0].decode(&mut num, 0, len32);
    let transform_1 = letters[1].decode(&mut num, 1, len32);
    let transform_2 = letters[2].decode(&mut num, 2, len32);
    let frozen: i64 = num as i64;
    let frozen_abs: i64 = if frozen >= 0 {
        frozen
    } else {
        -frozen
    };
    let is_even: bool = (frozen_abs as u64) % 2 == 0;
    proof {
        assert(is_even == spec_is_even(num));
    }
    apply_transform(&mut num, is_even, transform_0);
    apply_transform(&mut num, is_even, transform_1);
    apply_transform(&mut num, is_even, transform_2);
    let reduced: i64 = num as i64;
    let reduced_abs: i64 = if reduced >= 0 {
        reduced
    } else {
        -reduced
    };
    let digit: u64 = (reduced_abs as u64) % 10;
    digit as i32
}

/// The single-character string a digit renders to.
fn digit_string(d: i32) -> (s: String)
    requires
        0 <= d <= 9,
    ensures
        s@ == seq![digit_char(d as int)],
{
    let t: &str = if d == 0 {
        "0"
    } else if d == 1 {
        "1"
    } else if d == 2 {
        "2"
    } else if d == 3 {
        "3"
    } else if d == 4 {
        "4"
    } else if d == 5 {
        "5"
    } else if d == 6 {
        "6"
    } else if d == 7 {
        "7"
    } else if d == 8 {
        "8"
    } else {
        "9"
    };
    proof {
        reveal_strlit("0");
        reveal_strlit("1");
        reveal_strlit("2");
        reveal_strlit("3");
        reveal_strlit("4");
        reveal_strlit("5");
        reveal_strlit("6");
        reveal_strlit("7");
        reveal_strlit("8");
        reveal_strlit("9");
        assert(t@ =~= seq![digit_char(d as int)]);
    }
    t.to_owned()
}

impl Chunk {
    /// Renders this token: a group to its digit, a standalone delimiter
    /// marker to `.`, a delimiter-preceded group to `.` and its digit.
    pub fn decode(&self, len: usize) -> (s: String)
        ensures
            s@ == spec_chunk_render(*self, len),
    {
        match self {
            Chunk::NoDot(letters) => {
                let d: i32 = decode_letters(letters, len);
                digit_string(d)
            },
            Chunk::WithDot(None) => {
                let s = ".".to_owned();
                proof {
                    reveal_strlit(".");
                    assert(s@ =~= spec_chunk_render(*self, len));
                }
                s
            },
            Chunk::WithDot(Some(letters)) => {
                let d: i32 = decode_letters(letters, len);
                let mut s = ".".to_owned();
                let ds = digit_string(d);
                s.append(ds.as_str());
                proof {
                    reveal_strlit(".");
                    assert(s@ =~= spec_chunk_render(*self, len));
                }
                s
            },
        }
    }
}

impl LevelanceChunks {
    /// The ordered tokens.
    pub closed spec fn spec_chunks(&self) -> Seq<Chunk> {
        self.chunks@
    }

    /// The stripped input length the tokens were parsed with.
    pub closed spec fn spec_len(&self) -> usize {
        self.len
    }

    /// Wraps a token list and the stripped length it was produced with.
    pub(crate) fn new(chunks: Vec<Chunk>, len: usize) -> (r: Self)
        ensures
            r.spec_chunks() == chunks@,
            r.spec_len() == len,
    {
        Self { chunks, len }
    }

    /// Renders every token in order; element `i` of the result is what token
    /// `i` renders to.
    pub fn decode(&self) -> (r: Vec<String>)
        ensures
            r@.len() == self.spec_chunks().len(),
            forall|i: int|
                0 <= i < r@.len() ==> r@[i]@ == spec_chunk_render(
                    self.spec_chunks()[i],
                    self.spec_len(),
                ),
    {
        let mut out: Vec<String> = Vec::new();
        let mut i: usize = 0;
        while i < self.chunks.len()
            invariant
                0 <= i <= self.chunks.len(),
                out@.len() == i,
                forall|j: int|
                    0 <= j < i ==> out@[j]@ == spec_chunk_render(
                        self.spec_chunks()[j],
                        self.spec_len(),
                    ),
            decreases self.chunks.len() - i,
        {
            let s = self.chunks[i].decode(self.len);
            out.push(s);
            i = i + 1;
        }
        out
    }
}

} // verus!
