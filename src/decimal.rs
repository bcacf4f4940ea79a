//! Decimal digits: reading a number from them and writing one out.
use vstd::prelude::*;

verus! {

/// An ASCII decimal digit.
pub open spec fn is_digit(c: char) -> bool {
    '0' <= c <= '9'
}

/// The value of an ASCII decimal digit.
pub open spec fn digit_value(c: char) -> nat {
    (c as nat - '0' as nat) as nat
}

/// The character that writes the digit `d < 10`.
pub open spec fn digit_char(d: nat) -> char {
    if d == 0 {
        '0'
    } else if d == 1 {
        '1'
    } else if d == 2 {
        '2'
    } else if d == 3 {
        '3'
    } else if d == 4 {
        '4'
    } else if d == 5 {
        '5'
    } else if d == 6 {
        '6'
    } else if d == 7 {
        '7'
    } else if d == 8 {
        '8'
    } else {
        '9'
    }
}

/// The number written by the digits `s[start..end]`, most significant first.
pub open spec fn digits_value(s: Seq<char>, start: int, end: int) -> nat
    decreases end - start,
{
    if end <= start {
        0
    } else {
        digits_value(s, start, end - 1) * 10 + digit_value(s[end - 1])
    }
}

/// The end of the run of digits that starts at `start`.
pub open spec fn digit_run_end(s: Seq<char>, start: int) -> int
    decreases s.len() - start,
{
    if 0 <= start < s.len() && is_digit(s[start]) {
        digit_run_end(s, start + 1)
    } else {
        start
    }
}

/// The shortest decimal writing of `n`.
pub open spec fn decimal(n: nat) -> Seq<char>
    decreases n,
{
    if n < 10 {
        seq![digit_char(n)]
    } else {
        decimal(n / 10).push(digit_char(n % 10))
    }
}

/// The run of digits from `start` reaches `digit_run_end`, and nothing in
/// it is anything but a digit.
pub proof fn lemma_digit_run(s: Seq<char>, start: int)
    requires
        0 <= start <= s.len(),
    ensures
        start <= digit_run_end(s, start) <= s.len(),
        forall|k: int| start <= k < digit_run_end(s, start) ==> is_digit(#[trigger] s[k]),
        digit_run_end(s, start) < s.len() ==> !is_digit(s[digit_run_end(s, start)]),
    decreases s.len() - start,
{
    if start < s.len() && is_digit(s[start]) {
        lemma_digit_run(s, start + 1);
    }
}

/// Over a run of digits, reading more of them never gives a smaller number.
pub proof fn lemma_digits_value_grows(s: Seq<char>, start: int, mid: int, end: int)
    requires
        start <= mid <= end,
        forall|k: int| start <= k < end ==> is_digit(#[trigger] s[k]),
    ensures
        digits_value(s, start, mid) <= digits_value(s, start, end),
    decreases end - mid,
{
    if mid < end {
        lemma_digits_value_grows(s, start, mid, end - 1);
    }
}

/// Reads the run of ASCII digits that starts at `*pos` and moves `*pos`
/// past it; returns the number it writes (zero for an empty run).
pub fn parse_number(chars: &Vec<char>, pos: &mut usize) -> (r: u32)
    requires
        *old(pos) <= chars@.len(),
        digits_value(chars@, *old(pos) as int, digit_run_end(chars@, *old(pos) as int)) <= u32::MAX,
    ensures
        *final(pos) == digit_run_end(chars@, *old(pos) as int),
        r == digits_value(chars@, *old(pos) as int, *final(pos) as int),
{
    let ghost start = *pos as int;
    let ghost end = digit_run_end(chars@, start);
    proof {
        lemma_digit_run(chars@, start);
    }
    let mut n: u32 = 0;
    while *pos < chars.len() && '0' <= chars[*pos] && chars[*pos] <= '9'
        invariant
            start <= *pos <= end <= chars@.len(),
            end == digit_run_end(chars@, start),
            forall|k: int| start <= k < end ==> is_digit(#[trigger] chars@[k]),
            end < chars@.len() ==> !is_digit(chars@[end]),
            n == digits_value(chars@, start, *pos as int),
            digits_value(chars@, start, end) <= u32::MAX,
        decreases chars@.len() - *pos,
    {
        proof {
            lemma_digits_value_grows(chars@, start, *pos + 1, end);
        }
        let d = (chars[*pos] as u32) - ('0' as u32);
        n = n * 10 + d;
        *pos = *pos + 1;
    }
    n
}

/// The one-character string that writes the digit `d`.
fn digit_str(d: usize) -> (r: &'static str)
    requires
        d < 10,
    ensures
        r@ == seq![digit_char(d as nat)],
{
    proof {
        reveal_strlit("0");
        reveal_strlit("1");
        reveal_strlit("2");
        reveal_strlit("3");
        reveal_strlit("4");
        reveal_strlit("5");
        reveal_strlit("6");
        reveal_strlit("7");
        reveal_strlit("8");
        reveal_strlit("9");
    }
    if d == 0 {
        "0"
    } else if d == 1 {
        "1"
    } else if d == 2 {
        "2"
    } else if d == 3 {
        "3"
    } else if d == 4 {
        "4"
    } else if d == 5 {
        "5"
    } else if d == 6 {
        "6"
    } else if d == 7 {
        "7"
    } else if d == 8 {
        "8"
    } else {
        "9"
    }
}

/// Appends the decimal writing of `n` to `s`.
pub fn push_decimal(s: &mut String, n: usize)
    ensures
        final(s)@ == old(s)@ + decimal(n as nat),
    decreases n,
{
    let ghost before = s@;
    if n >= 10 {
        push_decimal(s, n / 10);
    }
    s.append(digit_str(n % 10));
    proof {
        if n >= 10 {
            assert(decimal(n as nat) == decimal((n / 10) as nat).push(digit_char((n % 10) as nat)));
        }
    }
    assert(s@ =~= before + decimal(n as nat));
}

} // verus!
