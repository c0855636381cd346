//! Fixed-width lowercase hexadecimal rendering and parsing.
//!
//! Token fields carry a session identifier and an expiry as zero-padded
//! lowercase hex strings of a fixed width, so that rendering is injective
//! and parsing is its exact inverse.

use vstd::prelude::*;

verus! {

/// Width, in hex digits, of a rendered `u128` field.
pub const HEX_WIDTH: usize = 32;

/// The lowercase hex digit standing for `d` (for `0 <= d < 16`).
pub open spec fn hex_char_of(d: int) -> char {
    if d == 0 {
        '0'
    } else if d == 1 {
        '1'
    } else if d == 2 {
        '2'
    } else if d == 3 {
        '3'
    } else if d == 4 {
        '4'
    } else if d == 5 {
        '5'
    } else if d == 6 {
        '6'
    } else if d == 7 {
        '7'
    } else if d == 8 {
        '8'
    } else if d == 9 {
        '9'
    } else if d == 10 {
        'a'
    } else if d == 11 {
        'b'
    } else if d == 12 {
        'c'
    } else if d == 13 {
        'd'
    } else if d == 14 {
        'e'
    } else {
        'f'
    }
}

/// The value of a lowercase hex digit, or 16 for any other character.
pub open spec fn hex_digit_val(c: char) -> int {
    if c == '0' {
        0
    } else if c == '1' {
        1
    } else if c == '2' {
        2
    } else if c == '3' {
        3
    } else if c == '4' {
        4
    } else if c == '5' {
        5
    } else if c == '6' {
        6
    } else if c == '7' {
        7
    } else if c == '8' {
        8
    } else if c == '9' {
        9
    } else if c == 'a' {
        10
    } else if c == 'b' {
        11
    } else if c == 'c' {
        12
    } else if c == 'd' {
        13
    } else if c == 'e' {
        14
    } else if c == 'f' {
        15
    } else {
        16
    }
}

pub open spec fn is_hex_digit(c: char) -> bool {
    hex_digit_val(c) < 16
}

pub open spec fn is_hex_str(s: Seq<char>) -> bool {
    forall|i: int| 0 <= i < s.len() ==> is_hex_digit(#[trigger] s[i])
}

/// 16 to the power `w`.
pub open spec fn pow16(w: nat) -> nat
    decreases w,
{
    if w == 0 {
        1
    } else {
        16 * pow16((w - 1) as nat)
    }
}

/// The low `w` hex digits of `n`, most significant first, zero padded.
pub open spec fn hex_seq_of(n: nat, w: nat) -> Seq<char>
    decreases w,
{
    if w == 0 {
        Seq::<char>::empty()
    } else {
        hex_seq_of(n / 16, (w - 1) as nat).push(hex_char_of((n % 16) as int))
    }
}

/// The value of a hex digit string (non-digits count as 16, but a string
/// passing `is_hex_str` never holds one).
pub open spec fn hex_val(s: Seq<char>) -> nat
    decreases s.len(),
{
    if s.len() == 0 {
        0
    } else {
        (hex_val(s.drop_last()) * 16 + hex_digit_val(s.last())) as nat
    }
}

pub proof fn lemma_hex_seq_len(n: nat, w: nat)
    ensures
        hex_seq_of(n, w).len() == w,
        is_hex_str(hex_seq_of(n, w)),
    decreases w,
{
    if w > 0 {
        lemma_hex_seq_len(n / 16, (w - 1) as nat);
        let s = hex_seq_of(n, w);
        let t = hex_seq_of(n / 16, (w - 1) as nat);
        assert forall|i: int| 0 <= i < s.len() implies is_hex_digit(#[trigger] s[i]) by {
            if i < t.len() {
                assert(s[i] == t[i]);
            } else {
                assert(s[i] == hex_char_of((n % 16) as int));
            }
        }
    }
}

/// Rendering then parsing gives the value back, for values that fit.
pub proof fn lemma_hex_round_trip(n: nat, w: nat)
    requires
        n < pow16(w),
    ensures
        hex_val(hex_seq_of(n, w)) == n,
    decreases w,
{
    if w == 0 {
    } else {
        let wm = (w - 1) as nat;
        assert(n / 16 < pow16(wm)) by (nonlinear_arith)
            requires
                n < 16 * pow16(wm),
        ;
        lemma_hex_round_trip(n / 16, wm);
        let s = hex_seq_of(n, w);
        let t = hex_seq_of(n / 16, wm);
        lemma_hex_seq_len(n / 16, wm);
        assert(s.drop_last() =~= t);
        assert(s.last() == hex_char_of((n % 16) as int));
        assert(hex_digit_val(hex_char_of((n % 16) as int)) == n % 16);
    }
}

/// Any hex digit string is the rendering of its own value: rendering at a
/// fixed width is a bijection onto `w`-digit hex strings.
pub proof fn lemma_hex_canonical(s: Seq<char>)
    requires
        is_hex_str(s),
    ensures
        hex_val(s) < pow16(s.len()),
        hex_seq_of(hex_val(s), s.len()) =~= s,
    decreases s.len(),
{
    if s.len() == 0 {
    } else {
        let t = s.drop_last();
        assert(is_hex_str(t)) by {
            assert forall|i: int| 0 <= i < t.len() implies is_hex_digit(#[trigger] t[i]) by {
                assert(t[i] == s[i]);
            }
        }
        lemma_hex_canonical(t);
        let d = hex_digit_val(s.last());
        let v = hex_val(s);
        assert(v == hex_val(t) * 16 + d);
        assert(v < pow16(s.len())) by (nonlinear_arith)
            requires
                v == hex_val(t) * 16 + d,
                hex_val(t) < pow16(t.len()),
                d < 16,
                pow16(s.len()) == 16 * pow16(t.len()),
        ;
        assert(v / 16 == hex_val(t) && v % 16 == d) by (nonlinear_arith)
            requires
                v == hex_val(t) * 16 + d,
                0 <= d < 16,
        ;
        assert(hex_char_of(hex_digit_val(s.last())) == s.last());
        assert(hex_seq_of(v, s.len()) =~= s);
    }
}

/// pow16 at the full width of a `u128` field.
pub proof fn lemma_pow16_32()
    ensures
        pow16(32) == 0x100000000000000000000000000000000nat,
{
    assert(pow16(32) == 0x100000000000000000000000000000000nat) by {
        reveal_with_fuel(pow16, 33);
    }
}

/// A one-character string holding the hex digit for `d`.
fn hex_digit_str(d: u128) -> (r: &'static str)
    requires
        d < 16,
    ensures
        r@ =~= seq![hex_char_of(d as int)],
{
    proof {
        reveal_strlit("0");
        reveal_strlit("1");
        reveal_strlit("2");
        reveal_strlit("3");
        reveal_strlit("4");
        reveal_strlit("5");
        reveal_strlit("6");
        reveal_strlit("7");
        reveal_strlit("8");
        reveal_strlit("9");
        reveal_strlit("a");
        reveal_strlit("b");
        reveal_strlit("c");
        reveal_strlit("d");
        reveal_strlit("e");
        reveal_strlit("f");
    }
    if d == 0 {
        "0"
    } else if d == 1 {
        "1"
    } else if d == 2 {
        "2"
    } else if d == 3 {
        "3"
    } else if d == 4 {
        "4"
    } else if d == 5 {
        "5"
    } else if d == 6 {
        "6"
    } else if d == 7 {
        "7"
    } else if d == 8 {
        "8"
    } else if d == 9 {
        "9"
    } else if d == 10 {
        "a"
    } else if d == 11 {
        "b"
    } else if d == 12 {
        "c"
    } else if d == 13 {
        "d"
    } else if d == 14 {
        "e"
    } else {
        "f"
    }
}

fn hex_render_rec(n: u128, w: usize) -> (r: String)
    requires
        w <= 32,
    ensures
        r@ =~= hex_seq_of(n as nat, w as nat),
    decreases w,
{
    if w == 0 {
        String::new()
    } else {
        let mut s = hex_render_rec(n / 16, w - 1);
        s.append(hex_digit_str(n % 16));
        proof {
            assert(s@ =~= hex_seq_of(n as nat, w as nat));
        }
        s
    }
}

/// Renders `n` as exactly 32 lowercase hex digits, most significant first.
pub fn hex32_render(n: u128) -> (r: String)
    ensures
        r@ =~= hex_seq_of(n as nat, HEX_WIDTH as nat),
        r@.len() == HEX_WIDTH,
{
    let r = hex_render_rec(n, HEX_WIDTH);
    proof {
        lemma_hex_seq_len(n as nat, HEX_WIDTH as nat);
    }
    r
}

fn hex_digit_of_char(c: char) -> (r: u8)
    ensures
        r as int == hex_digit_val(c),
{
    match c {
        '0' => 0,
        '1' => 1,
        '2' => 2,
        '3' => 3,
        '4' => 4,
        '5' => 5,
        '6' => 6,
        '7' => 7,
        '8' => 8,
        '9' => 9,
        'a' => 10,
        'b' => 11,
        'c' => 12,
        'd' => 13,
        'e' => 14,
        'f' => 15,
        _ => 16,
    }
}

/// Parses exactly 32 lowercase hex digits; `None` on any other input.
/// The inverse of `hex32_render`.
pub fn hex32_parse(s: &str) -> (r: Option<u128>)
    ensures
        r matches Some(n) ==> s@ =~= hex_seq_of(n as nat, HEX_WIDTH as nat),
        forall|n: u128| s@ == hex_seq_of(n as nat, HEX_WIDTH as nat) ==> r == Some(n),
{
    let len = s.unicode_len();
    if len != HEX_WIDTH {
        proof {
            assert forall|n: u128| s@ != hex_seq_of(n as nat, HEX_WIDTH as nat) by {
                lemma_hex_seq_len(n as nat, HEX_WIDTH as nat);
            }
        }
        return None;
    }
    let mut acc: u128 = 0;
    let mut i: usize = 0;
    while i < HEX_WIDTH
        invariant
            i <= HEX_WIDTH,
            s@.len() == HEX_WIDTH,
            is_hex_str(s@.subrange(0, i as int)),
            acc as nat == hex_val(s@.subrange(0, i as int)),
            (acc as nat) < pow16(i as nat),
        decreases HEX_WIDTH - i,
    {
        let c = s.get_char(i);
        let d = hex_digit_of_char(c);
        if d >= 16 {
            proof {
                assert forall|n: u128| s@ != hex_seq_of(n as nat, HEX_WIDTH as nat) by {
                    lemma_hex_seq_len(n as nat, HEX_WIDTH as nat);
                    if s@ == hex_seq_of(n as nat, HEX_WIDTH as nat) {
                        assert(is_hex_digit(s@[i as int]));
                    }
                }
            }
            return None;
        }
        proof {
            let pre = s@.subrange(0, i as int);
            let post = s@.subrange(0, i as int + 1);
            assert(post.drop_last() =~= pre);
            assert(post.last() == s@[i as int]);
            assert(pow16((i + 1) as nat) == 16 * pow16(i as nat));
            assert((acc as nat) * 16 + (d as nat) < 16 * pow16(i as nat)) by (nonlinear_arith)
                requires
                    (acc as nat) < pow16(i as nat),
                    d < 16,
            ;
            lemma_pow16_32();
            assert(pow16(i as nat) <= pow16(31)) by {
                lemma_pow16_monotone(i as nat, 31);
            }
            assert(pow16(32) == 16 * pow16(31));
        }
        acc = acc * 16 + (d as u128);
        i += 1;
        proof {
            assert(is_hex_str(s@.subrange(0, i as int))) by {
                let post = s@.subrange(0, i as int);
                assert forall|j: int| 0 <= j < post.len() implies is_hex_digit(
                    #[trigger] post[j],
                ) by {
                    assert(post[j] == s@[j]);
                    if j < i - 1 {
                        assert(s@.subrange(0, i - 1)[j] == s@[j]);
                    }
                }
            }
        }
    }
    proof {
        assert(s@.subrange(0, HEX_WIDTH as int) =~= s@);
        lemma_hex_canonical(s@);
        lemma_pow16_32();
        assert forall|n: u128| s@ == hex_seq_of(n as nat, HEX_WIDTH as nat) implies acc == n by {
            lemma_hex_round_trip(n as nat, HEX_WIDTH as nat);
        }
    }
    Some(acc)
}

proof fn lemma_pow16_monotone(a: nat, b: nat)
    requires
        a <= b,
    ensures
        pow16(a) <= pow16(b),
    decreases b,
{
    if a < b {
        lemma_pow16_monotone(a, (b - 1) as nat);
        assert(pow16(b) == 16 * pow16((b - 1) as nat));
    }
}

/// No hex digit is a dot, so hex fields never collide with the token's
/// field separator.
pub proof fn lemma_hex_seq_no_dot(n: nat, w: nat)
    ensures
        forall|i: int|
            0 <= i < hex_seq_of(n, w).len() ==> #[trigger] hex_seq_of(n, w)[i] != '.',
    decreases w,
{
    lemma_hex_seq_len(n, w);
    assert forall|i: int| 0 <= i < hex_seq_of(n, w).len() implies #[trigger] hex_seq_of(n, w)[i]
        != '.' by {
        assert(is_hex_digit(hex_seq_of(n, w)[i]));
    }
}

} // verus!
