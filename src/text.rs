//! Plain text building blocks: ANSI styling, decimal numerals, repetition.

use vstd::prelude::*;

verus! {

/// The palette code of red, used for errors and highlighted spans.
pub const RED: u8 = 1;

/// The palette code of yellow, used for rejected input.
pub const YELLOW: u8 = 3;

/// The palette code of blue, used for gutters and decorations.
pub const BLUE: u8 = 4;

/// The character that spells the decimal digit `d`.
pub open spec fn digit_char(d: nat) -> char
    recommends
        d < 10,
{
    if d == 0 {
        '0'
    } else if d == 1 {
        '1'
    } else if d == 2 {
        '2'
    } else if d == 3 {
        '3'
    } else if d == 4 {
        '4'
    } else if d == 5 {
        '5'
    } else if d == 6 {
        '6'
    } else if d == 7 {
        '7'
    } else if d == 8 {
        '8'
    } else {
        '9'
    }
}

/// The decimal numeral of `n`, without sign or leading zeros.
pub open spec fn dec(n: nat) -> Seq<char>
    decreases n,
{
    if n < 10 {
        seq![digit_char(n)]
    } else {
        dec(n / 10).push(digit_char(n % 10))
    }
}

/// `n` copies of `s`, one after another.
pub open spec fn repeat(s: Seq<char>, n: nat) -> Seq<char>
    decreases n,
{
    if n == 0 {
        Seq::empty()
    } else {
        repeat(s, (n - 1) as nat) + s
    }
}

/// `n` spaces.
pub open spec fn spaces(n: nat) -> Seq<char> {
    repeat(seq![' '], n)
}

/// `s` switched to bold, then back to the normal weight.
pub open spec fn bold_spec(s: Seq<char>) -> Seq<char> {
    seq!['\x1b', '[', '1', 'm'] + s + seq!['\x1b', '[', '0', 'm']
}

/// `s` in the foreground color `code` of the palette, then back to the
/// default foreground.
pub open spec fn color_spec(s: Seq<char>, code: nat) -> Seq<char> {
    seq!['\x1b', '[', '3', digit_char(code), 'm'] + s + seq!['\x1b', '[', '3', '9', 'm']
}

pub proof fn lemma_repeat_char(c: char, n: nat)
    ensures
        repeat(seq![c], n).len() == n,
        forall|i: int| 0 <= i < n ==> #[trigger] repeat(seq![c], n)[i] == c,
    decreases n,
{
    if n > 0 {
        lemma_repeat_char(c, (n - 1) as nat);
    }
}

pub proof fn lemma_dec_len_pos(n: nat)
    ensures
        dec(n).len() >= 1,
    decreases n,
{
    if n >= 10 {
        lemma_dec_len_pos(n / 10);
    }
}

/// The numeral of a smaller number is never longer.
pub proof fn lemma_dec_len_mono(a: nat, b: nat)
    requires
        a <= b,
    ensures
        dec(a).len() <= dec(b).len(),
    decreases b,
{
    if a >= 10 {
        lemma_dec_len_mono(a / 10, b / 10);
    } else {
        lemma_dec_len_pos(b);
    }
}

/// Ten to the power `k`.
pub open spec fn pow10(k: nat) -> nat
    decreases k,
{
    if k == 0 {
        1
    } else {
        10 * pow10((k - 1) as nat)
    }
}

/// A number below ten to the power `k` has at most `k` digits.
pub proof fn lemma_dec_len_bound(n: nat, k: nat)
    requires
        n < pow10(k),
        k >= 1,
    ensures
        dec(n).len() <= k,
    decreases n,
{
    if n >= 10 {
        reveal_with_fuel(pow10, 2);
        let p = pow10((k - 1) as nat);
        assert(n / 10 < p);
        lemma_dec_len_bound(n / 10, (k - 1) as nat);
    }
}

/// The numeral of a `usize` has at most twenty digits.
pub proof fn lemma_dec_len_usize(n: usize)
    ensures
        dec(n as nat).len() <= 20,
{
    reveal_with_fuel(pow10, 21);
    assert(pow10(20) == 100_000_000_000_000_000_000);
    lemma_dec_len_bound(n as nat, 20);
}

/// The one-character string of the digit `d`.
pub fn digit_str(d: usize) -> (r: &'static str)
    requires
        d < 10,
    ensures
        r@ == seq![digit_char(d as nat)],
{
    proof {
        reveal_strlit("0");
        reveal_strlit("1");
        reveal_strlit("2");
        reveal_strlit("3");
        reveal_strlit("4");
        reveal_strlit("5");
        reveal_strlit("6");
        reveal_strlit("7");
        reveal_strlit("8");
        reveal_strlit("9");
    }
    if d == 0 {
        "0"
    } else if d == 1 {
        "1"
    } else if d == 2 {
        "2"
    } else if d == 3 {
        "3"
    } else if d == 4 {
        "4"
    } else if d == 5 {
        "5"
    } else if d == 6 {
        "6"
    } else if d == 7 {
        "7"
    } else if d == 8 {
        "8"
    } else {
        "9"
    }
}

/// The decimal numeral of `n`.
pub fn decimal(n: usize) -> (r: String)
    ensures
        r@ == dec(n as nat),
    decreases n,
{
    if n < 10 {
        String::from_str(digit_str(n))
    } else {
        let mut r = decimal(n / 10);
        r.append(digit_str(n % 10));
        r
    }
}

/// `n` copies of `piece`.
pub fn repeat_str(piece: &str, n: usize) -> (r: String)
    ensures
        r@ == repeat(piece@, n as nat),
{
    let mut r = String::new();
    let mut i: usize = 0;
    while i < n
        invariant
            i <= n,
            r@ == repeat(piece@, i as nat),
        decreases n - i,
    {
        r.append(piece);
        i = i + 1;
    }
    r
}

/// Wraps `string` in the escape codes that switch bold on and off.
pub fn bold(string: String) -> (r: String)
    ensures
        r@ == bold_spec(string@),
{
    proof {
        reveal_strlit("\x1b[1m");
        reveal_strlit("\x1b[0m");
    }
    let mut r = String::from_str("\x1b[1m");
    r.append(string.as_str());
    r.append("\x1b[0m");
    r
}

/// Wraps `string` in the escape codes that set the foreground color `code`
/// of the eight-color palette and restore the default foreground.
pub fn color(string: String, code: u8) -> (r: String)
    requires
        code < 8,
    ensures
        r@ == color_spec(string@, code as nat),
{
    proof {
        reveal_strlit("\x1b[3");
        reveal_strlit("m");
        reveal_strlit("\x1b[39m");
    }
    let mut r = String::from_str("\x1b[3");
    r.append(digit_str(code as usize));
    r.append("m");
    r.append(string.as_str());
    r.append("\x1b[39m");
    assert(r@ =~= color_spec(string@, code as nat));
    r
}

} // verus!
