//! The symbol alphabet and its per-symbol arithmetic rules.
//!
//! Each of the 26 symbols, given the running accumulator, its 0-based
//! position inside its group and the stripped input length, produces a new
//! accumulator value and possibly flags one of two deferred bonus transforms.
//! All accumulator arithmetic is 32-bit wrapping arithmetic.

use vstd::prelude::*;
use vstd::wrapping::i32_specs;

verus! {

/// One of the 26 recognized symbols, identified by an uppercase letter.
#[derive(Clone, Copy, Debug, PartialEq, Eq, Structural)]
pub enum Letter {
    A,
    B,
    C,
    D,
    E,
    F,
    G,
    H,
    I,
    J,
    K,
    L,
    M,
    N,
    O,
    P,
    Q,
    R,
    S,
    T,
    U,
    V,
    W,
    X,
    Y,
    Z,
}

/// A deferred post-pass adjustment, applied after all three symbols of a
/// group have run, against the parity frozen at that point.
#[derive(Clone, Copy, Debug, PartialEq, Eq, Structural)]
pub enum Transform {
    Add5IfEven,
    Add1IfOdd,
}

/// The accumulator produced by one symbol's rule: `n` is the running
/// accumulator, `idx` the symbol's 0-based position in its group (0..=2) and
/// `len` the stripped input length cropped to 32 bits. Arithmetic wraps.
pub open spec fn letter_step(l: Letter, n: i32, idx: i32, len: i32) -> i32 {
    let pos: i32 = (idx + 1) as i32;
    let rev: i32 = (3 - idx) as i32;
    match l {
        Letter::A => i32_specs::wrapping_add(n, 1),
        Letter::B => n,
        Letter::C => i32_specs::wrapping_sub(n, 1),
        Letter::D => i32_specs::wrapping_mul(n, 2),
        Letter::E => i32_specs::wrapping_mul(n, n),
        Letter::F => if idx == 0 {
            i32_specs::wrapping_sub(n, 1)
        } else {
            i32_specs::wrapping_add(n, 1)
        },
        Letter::G => i32_specs::wrapping_add(n, 5),
        Letter::H => 5,
        Letter::I => i32_specs::wrapping_add(n, pos),
        Letter::J => i32_specs::wrapping_add(n, len),
        Letter::K => i32_specs::wrapping_sub(n, len),
        Letter::L => i32_specs::wrapping_sub(i32_specs::wrapping_add(pos, n), len),
        Letter::M => i32_specs::wrapping_mul(n, len),
        Letter::N => i32_specs::wrapping_add(n, 2),
        Letter::O => i32_specs::wrapping_sub(n, pos),
        Letter::P => i32_specs::wrapping_add(n, rev),
        Letter::Q => i32_specs::wrapping_sub(n, rev),
        Letter::R => i32_specs::wrapping_add(n, i32_specs::wrapping_add(rev, len)),
        Letter::S => i32_specs::wrapping_add(n, i32_specs::wrapping_sub(rev, len)),
        Letter::T => i32_specs::wrapping_add(n, (pos + 1) as i32),
        Letter::U => i32_specs::wrapping_add(i32_specs::wrapping_sub(rev, len), n),
        Letter::V => i32_specs::wrapping_sub(n, 7),
        Letter::W => i32_specs::wrapping_add(n, 1),
        Letter::X => i32_specs::wrapping_add(n, 1),
        Letter::Y => if n == 0 {
            9
        } else {
            0
        },
        Letter::Z => 0,
    }
}

/// The transform a symbol flags: only `W` and `X` flag one.
pub open spec fn letter_flag(l: Letter) -> Option<Transform> {
    match l {
        Letter::W => Some(Transform::Add5IfEven),
        Letter::X => Some(Transform::Add1IfOdd),
        _ => None,
    }
}

impl Letter {
    /// Applies this symbol's rule to the accumulator `num` and returns the
    /// transform it flags, if any.
    pub fn decode(&self, num: &mut i32, idx: i32, len: i32) -> (t: Option<Transform>)
        requires
            0 <= idx <= 2,
        ensures
            *final(num) == letter_step(*self, *old(num), idx, len),
            t == letter_flag(*self),
    {
        let pos: i32 = idx + 1;
        let rev: i32 = 3 - idx;
        let mut transform: Option<Transform> = None;
        match self {
            Letter::A => *num = num.wrapping_add(1),
            Letter::B => (),
            Letter::C => *num = num.wrapping_sub(1),
            Letter::D => *num = num.wrapping_mul(2),
            Letter::E => *num = num.wrapping_mul(*num),
            Letter::F => {
                if idx == 0 {
                    *num = num.wrapping_sub(1);
                } else {
                    *num = num.wrapping_add(1);
                }
            },
            Letter::G => *num = num.wrapping_add(5),
            Letter::H => *num = 5,
            Letter::I => *num = num.wrapping_add(pos),
            Letter::J => *num = num.wrapping_add(len),
            Letter::K => *num = num.wrapping_sub(len),
            Letter::L => *num = pos.wrapping_add(*num).wrapping_sub(len),
            Letter::M => *num = num.wrapping_mul(len),
            Letter::N => *num = num.wrapping_add(2),
            Letter::O => *num = num.wrapping_sub(pos),
            Letter::P => *num = num.wrapping_add(rev),
            Letter::Q => *num = num.wrapping_sub(rev),
            Letter::R => *num = num.wrapping_add(rev.wrapping_add(len)),
            Letter::S => *num = num.wrapping_add(rev.wrapping_sub(len)),
            Letter::T => *num = num.wrapping_add(pos + 1),
            Letter::U => *num = rev.wrapping_sub(len).wrapping_add(*num),
            Letter::V => *num = num.wrapping_sub(7),
            Letter::W => {
                *num = num.wrapping_add(1);
                transform = Some(Transform::Add5IfEven);
            },
            Letter::X => {
                *num = num.wrapping_add(1);
                transform = Some(Transform::Add1IfOdd);
            },
            Letter::Y => {
                if *num == 0 {
                    *num = 9;
                } else {
                    *num = 0;
                }
            },
            Letter::Z => *num = 0,
        }
        transform
    }
}

/// The value of one symbol's rule over unbounded integers, before it is
/// wrapped to 32 bits: the rule table as the format documents it. `pos` is
/// the 1-based position of the symbol in its group and `rev` is `3 - idx`.
pub open spec fn letter_rule(l: Letter, n: int, idx: int, len: int) -> int {
    let pos: int = idx + 1;
    let rev: int = 3 - idx;
    match l {
        Letter::A => n + 1,
        Letter::B => n,
        Letter::C => n - 1,
        Letter::D => n * 2,
        Letter::E => n * n,
        Letter::F => if idx == 0 {
            n - 1
        } else {
            n + 1
        },
        Letter::G => n + 5,
        Letter::H => 5,
        Letter::I => n + pos,
        Letter::J => n + len,
        Letter::K => n - len,
        Letter::L => pos + n - len,
        Letter::M => n * len,
        Letter::N => n + 2,
        Letter::O => n - pos,
        Letter::P => n + rev,
        Letter::Q => n - rev,
        Letter::R => n + rev + len,
        Letter::S => n + rev - len,
        Letter::T => n + pos + 1,
        Letter::U => rev - len + n,
        Letter::V => n - 7,
        Letter::W => n + 1,
        Letter::X => n + 1,
        Letter::Y => if n == 0 {
            9
        } else {
            0
        },
        Letter::Z => 0,
    }
}

/// A value inside the 32-bit signed range is its own crop.
proof fn lemma_crop_id(x: int)
    requires
        -0x8000_0000 <= x <= 0x7fff_ffff,
    ensures
        i32_specs::signed_crop(x) == x,
{
    if x < 0 {
        vstd::arithmetic::div_mod::lemma_mod_multiples_vanish(1, x, 0x1_0000_0000);
        assert((x + 0x1_0000_0000) % 0x1_0000_0000 == x + 0x1_0000_0000);
    }
}

/// Values that differ by a multiple of `2^32` crop to the same value.
proof fn lemma_crop_congruent(a: int, b: int)
    requires
        (a - b) % 0x1_0000_0000 == 0,
    ensures
        i32_specs::signed_crop(a) == i32_specs::signed_crop(b),
{
    vstd::arithmetic::div_mod::lemma_mod_equivalence(a, b, 0x1_0000_0000);
}

/// A value and its crop differ by a multiple of `2^32`.
proof fn lemma_crop_diff_multiple(s: int)
    ensures
        (i32_specs::signed_crop(s) - s) % 0x1_0000_0000 == 0,
{
    vstd::arithmetic::div_mod::lemma_fundamental_div_mod(s, 0x1_0000_0000);
    vstd::arithmetic::div_mod::lemma_mod_multiples_basic(-(s / 0x1_0000_0000), 0x1_0000_0000);
    vstd::arithmetic::div_mod::lemma_mod_multiples_basic(-(s / 0x1_0000_0000) - 1, 0x1_0000_0000);
}

/// Wrapping addition is the crop of the exact sum.
proof fn lemma_wrapping_add_crop(x: i32, y: i32)
    ensures
        i32_specs::wrapping_add(x, y) == i32_specs::signed_crop(x + y),
{
    vstd::arithmetic::div_mod::lemma_mod_multiples_basic(1, 0x1_0000_0000);
    vstd::arithmetic::div_mod::lemma_mod_multiples_basic(-1, 0x1_0000_0000);
    if x + y > i32::MAX {
        lemma_crop_congruent(x + y, x + y - 0x1_0000_0000);
        lemma_crop_id(x + y - 0x1_0000_0000);
    } else if x + y < i32::MIN {
        lemma_crop_congruent(x + y, x + y + 0x1_0000_0000);
        lemma_crop_id(x + y + 0x1_0000_0000);
    } else {
        lemma_crop_id(x + y);
    }
}

/// Wrapping subtraction is the crop of the exact difference.
proof fn lemma_wrapping_sub_crop(x: i32, y: i32)
    ensures
        i32_specs::wrapping_sub(x, y) == i32_specs::signed_crop(x - y),
{
    vstd::arithmetic::div_mod::lemma_mod_multiples_basic(1, 0x1_0000_0000);
    vstd::arithmetic::div_mod::lemma_mod_multiples_basic(-1, 0x1_0000_0000);
    if x - y > i32::MAX {
        lemma_crop_congruent(x - y, x - y - 0x1_0000_0000);
        lemma_crop_id(x - y - 0x1_0000_0000);
    } else if x - y < i32::MIN {
        lemma_crop_congruent(x - y, x - y + 0x1_0000_0000);
        lemma_crop_id(x - y + 0x1_0000_0000);
    } else {
        lemma_crop_id(x - y);
    }
}

/// Cropping an inner operand before an addition or subtraction does not
/// change the cropped result.
proof fn lemma_crop_inner(n: int, s: int)
    ensures
        i32_specs::signed_crop(n + i32_specs::signed_crop(s)) == i32_specs::signed_crop(n + s),
        i32_specs::signed_crop(i32_specs::signed_crop(s) - n) == i32_specs::signed_crop(s - n),
{
    lemma_crop_diff_multiple(s);
    lemma_crop_congruent(n + i32_specs::signed_crop(s), n + s);
    lemma_crop_congruent(i32_specs::signed_crop(s) - n, s - n);
}

/// One symbol step is exactly the documented rule value, wrapped to the
/// 32-bit signed range.
pub proof fn lemma_letter_step_wraps_rule(l: Letter, n: i32, idx: i32, len: i32)
    requires
        0 <= idx <= 2,
    ensures
        letter_step(l, n, idx, len) == i32_specs::signed_crop(
            letter_rule(l, n as int, idx as int, len as int),
        ),
{
    let pos: i32 = (idx + 1) as i32;
    let rev: i32 = (3 - idx) as i32;
    match l {
        Letter::B => lemma_crop_id(n as int),
        Letter::H => lemma_crop_id(5),
        Letter::Y => {
            lemma_crop_id(9);
            lemma_crop_id(0);
        },
        Letter::Z => lemma_crop_id(0),
        Letter::A => lemma_wrapping_add_crop(n, 1),
        Letter::C => lemma_wrapping_sub_crop(n, 1),
        Letter::F => {
            lemma_wrapping_sub_crop(n, 1);
            lemma_wrapping_add_crop(n, 1);
        },
        Letter::G => lemma_wrapping_add_crop(n, 5),
        Letter::I => lemma_wrapping_add_crop(n, pos),
        Letter::J => lemma_wrapping_add_crop(n, len),
        Letter::K => lemma_wrapping_sub_crop(n, len),
        Letter::N => lemma_wrapping_add_crop(n, 2),
        Letter::O => lemma_wrapping_sub_crop(n, pos),
        Letter::P => lemma_wrapping_add_crop(n, rev),
        Letter::Q => lemma_wrapping_sub_crop(n, rev),
        Letter::T => lemma_wrapping_add_crop(n, (pos + 1) as i32),
        Letter::V => lemma_wrapping_sub_crop(n, 7),
        Letter::W => lemma_wrapping_add_crop(n, 1),
        Letter::X => lemma_wrapping_add_crop(n, 1),
        Letter::L => {
            lemma_wrapping_add_crop(pos, n);
            lemma_wrapping_sub_crop(i32_specs::wrapping_add(pos, n), len);
            lemma_crop_inner(len as int, pos + n);
        },
        Letter::R => {
            lemma_wrapping_add_crop(rev, len);
            lemma_wrapping_add_crop(n, i32_specs::wrapping_add(rev, len));
            lemma_crop_inner(n as int, rev + len);
        },
        Letter::S => {
            lemma_wrapping_sub_crop(rev, len);
            lemma_wrapping_add_crop(n, i32_specs::wrapping_sub(rev, len));
            lemma_crop_inner(n as int, rev - len);
        },
        Letter::U => {
            lemma_wrapping_sub_crop(rev, len);
            lemma_wrapping_add_crop(i32_specs::wrapping_sub(rev, len), n);
            lemma_crop_inner(n as int, rev - len);
        },
        Letter::D => (),
        Letter::E => (),
        Letter::M => (),
    }
}

/// Where the documented rule value already lies in the 32-bit signed range,
/// one symbol step equals it exactly.
pub proof fn lemma_letter_step_exact(l: Letter, n: i32, idx: i32, len: i32)
    requires
        0 <= idx <= 2,
        i32::MIN <= letter_rule(l, n as int, idx as int, len as int) <= i32::MAX,
    ensures
        letter_step(l, n, idx, len) == letter_rule(l, n as int, idx as int, len as int),
{
    lemma_letter_step_wraps_rule(l, n, idx, len);
    lemma_crop_id(letter_rule(l, n as int, idx as int, len as int));
}

/// Whether `c` is one of the 26 recognized symbol characters, `'A'..='Z'`.
pub open spec fn is_letter_char(c: char) -> bool {
    'A' <= c && c <= 'Z'
}

/// The symbol a recognized character stands for. Unrecognized characters are
/// mapped to `Letter::A`; every use is guarded by `is_letter_char`.
pub open spec fn letter_of(c: char) -> Letter {
    if c == 'A' {
        Letter::A
    } else if c == 'B' {
        Letter::B
    } else if c == 'C' {
        Letter::C
    } else if c == 'D' {
        Letter::D
    } else if c == 'E' {
        Letter::E
    } else if c == 'F' {
        Letter::F
    } else if c == 'G' {
        Letter::G
    } else if c == 'H' {
        Letter::H
    } else if c == 'I' {
        Letter::I
    } else if c == 'J' {
        Letter::J
    } else if c == 'K' {
        Letter::K
    } else if c == 'L' {
        Letter::L
    } else if c == 'M' {
        Letter::M
    } else if c == 'N' {
        Letter::N
    } else if c == 'O' {
        Letter::O
    } else if c == 'P' {
        Letter::P
    } else if c == 'Q' {
        Letter::Q
    } else if c == 'R' {
        Letter::R
    } else if c == 'S' {
        Letter::S
    } else if c == 'T' {
        Letter::T
    } else if c == 'U' {
        Letter::U
    } else if c == 'V' {
        Letter::V
    } else if c == 'W' {
        Letter::W
    } else if c == 'X' {
        Letter::X
    } else if c == 'Y' {
        Letter::Y
    } else {
        Letter::Z
    }
}

/// Classifies one body character: the symbol it stands for, or `None` for an
/// unrecognized character.
pub fn letter_from_char(c: char) -> (r: Option<Letter>)
    ensures
        r == if is_letter_char(c) {
            Some(letter_of(c))
        } else {
            None::<Letter>
        },
{
    match c {
        'A' => Some(Letter::A),
        'B' => Some(Letter::B),
        'C' => Some(Letter::C),
        'D' => Some(Letter::D),
        'E' => Some(Letter::E),
        'F' => Some(Letter::F),
        'G' => Some(Letter::G),
        'H' => Some(Letter::H),
        'I' => Some(Letter::I),
        'J' => Some(Letter::J),
        'K' => Some(Letter::K),
        'L' => Some(Letter::L),
        'M' => Some(Letter::M),
        'N' => Some(Letter::N),
        'O' => Some(Letter::O),
        'P' => Some(Letter::P),
        'Q' => Some(Letter::Q),
        'R' => Some(Letter::R),
        'S' => Some(Letter::S),
        'T' => Some(Letter::T),
        'U' => Some(Letter::U),
        'V' => Some(Letter::V),
        'W' => Some(Letter::W),
        'X' => Some(Letter::X),
        'Y' => Some(Letter::Y),
        'Z' => Some(Letter::Z),
        _ => None,
    }
}

} // verus!
