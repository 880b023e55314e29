//! Exact decimal rendering of integers and fixed-point values, and padding.
use vstd::prelude::*;

verus! {

/// The character of a decimal digit.
pub open spec fn digit(d: int) -> char {
    if d == 0 {
        '0'
    } else if d == 1 {
        '1'
    } else if d == 2 {
        '2'
    } else if d == 3 {
        '3'
    } else if d == 4 {
        '4'
    } else if d == 5 {
        '5'
    } else if d == 6 {
        '6'
    } else if d == 7 {
        '7'
    } else if d == 8 {
        '8'
    } else {
        '9'
    }
}

/// The decimal digits of a natural number, without leading zeros.
pub open spec fn decimal(n: nat) -> Seq<char>
    decreases n,
{
    if n < 10 {
        seq![digit(n as int)]
    } else {
        decimal(n / 10).push(digit((n % 10) as int))
    }
}

/// The decimal text of an integer, with a leading `-` when negative.
pub open spec fn signed_text(v: int) -> Seq<char> {
    if v < 0 {
        seq!['-'] + decimal((-v) as nat)
    } else {
        decimal(v as nat)
    }
}

/// `k` copies of a character.
pub open spec fn repeat(c: char, k: int) -> Seq<char> {
    Seq::new(if k > 0 { k as nat } else { 0 }, |i: int| c)
}

/// `s` followed by spaces up to `w` characters (left-aligned).
pub open spec fn left_aligned(s: Seq<char>, w: int) -> Seq<char> {
    s + repeat(' ', w - s.len())
}

/// Spaces followed by `s` up to `w` characters (right-aligned).
pub open spec fn right_aligned(s: Seq<char>, w: int) -> Seq<char> {
    repeat(' ', w - s.len()) + s
}

/// An integer padded with zeros after its sign to `w` characters.
pub open spec fn zero_padded(v: int, w: int) -> Seq<char> {
    if v < 0 {
        seq!['-'] + repeat('0', w - 1 - decimal((-v) as nat).len()) + decimal((-v) as nat)
    } else {
        repeat('0', w - decimal(v as nat).len()) + decimal(v as nat)
    }
}

/// Ten to the power `p`.
pub open spec fn pow10(p: nat) -> nat
    decreases p,
{
    if p == 0 {
        1
    } else {
        10 * pow10((p - 1) as nat)
    }
}

/// A value in millionths as a decimal with `places` decimals, rounded half
/// away from zero; a negative value keeps its `-` even when it rounds to zero.
pub open spec fn fixed_text(v: int, places: nat) -> Seq<char> {
    let step = pow10((6 - places) as nat);
    let a: nat = if v < 0 { (-v) as nat } else { v as nat };
    let q: nat = (a + step / 2) / step;
    let sign = if v < 0 { seq!['-'] } else { Seq::empty() };
    sign + decimal(q / pow10(places)) + seq!['.'] + zero_padded((q % pow10(places)) as int, places as int)
}

/// The character of a digit.
fn digit_char(d: u128) -> (c: char)
    requires
        d < 10,
    ensures
        c == digit(d as int),
{
    if d == 0 {
        '0'
    } else if d == 1 {
        '1'
    } else if d == 2 {
        '2'
    } else if d == 3 {
        '3'
    } else if d == 4 {
        '4'
    } else if d == 5 {
        '5'
    } else if d == 6 {
        '6'
    } else if d == 7 {
        '7'
    } else if d == 8 {
        '8'
    } else {
        '9'
    }
}

/// The decimal digits of `n`.
pub fn decimal_chars(n: u128) -> (r: Vec<char>)
    ensures
        r@ == decimal(n as nat),
    decreases n,
{
    if n < 10 {
        let mut v: Vec<char> = Vec::new();
        v.push(digit_char(n));
        assert(v@ =~= decimal(n as nat));
        v
    } else {
        let mut v = decimal_chars(n / 10);
        v.push(digit_char(n % 10));
        v
    }
}

/// Appends the characters of `s`.
pub fn push_chars(out: &mut Vec<char>, s: &Vec<char>)
    ensures
        final(out)@ == old(out)@ + s@,
{
    let ghost start = out@;
    let mut i: usize = 0;
    while i < s.len()
        invariant
            i <= s@.len(),
            out@ =~= start + s@.take(i as int),
        decreases s@.len() - i,
    {
        out.push(s[i]);
        i = i + 1;
    }
    assert(s@.take(s@.len() as int) =~= s@);
}

/// Appends the characters of a string.
pub fn push_str(out: &mut Vec<char>, s: &str)
    ensures
        final(out)@ == old(out)@ + s@,
{
    let ghost start = out@;
    let n = s.unicode_len();
    let mut i: usize = 0;
    while i < n
        invariant
            n == s@.len(),
            i <= n,
            out@ =~= start + s@.take(i as int),
        decreases n - i,
    {
        out.push(s.get_char(i));
        i = i + 1;
    }
    assert(s@.take(n as int) =~= s@);
}

/// Appends `k` copies of `c`.
pub fn push_repeat(out: &mut Vec<char>, c: char, k: usize)
    ensures
        final(out)@ == old(out)@ + repeat(c, k as int),
{
    let ghost start = out@;
    let mut i: usize = 0;
    while i < k
        invariant
            i <= k,
            out@ =~= start + repeat(c, i as int),
        decreases k - i,
    {
        out.push(c);
        i = i + 1;
    }
}

/// Appends `s` left-aligned in `w` characters.
pub fn push_left_aligned(out: &mut Vec<char>, s: &Vec<char>, w: usize)
    ensures
        final(out)@ == old(out)@ + left_aligned(s@, w as int),
{
    push_chars(out, s);
    let k: usize = if s.len() < w { w - s.len() } else { 0 };
    push_repeat(out, ' ', k);
    assert(repeat(' ', k as int) =~= repeat(' ', w - s@.len()));
}

/// Appends `s` right-aligned in `w` characters.
pub fn push_right_aligned(out: &mut Vec<char>, s: &Vec<char>, w: usize)
    ensures
        final(out)@ == old(out)@ + right_aligned(s@, w as int),
{
    let k: usize = if s.len() < w { w - s.len() } else { 0 };
    push_repeat(out, ' ', k);
    assert(repeat(' ', k as int) =~= repeat(' ', w - s@.len()));
    push_chars(out, s);
}

/// The decimal text of an integer.
pub fn signed_chars(v: i128) -> (r: Vec<char>)
    ensures
        r@ == signed_text(v as int),
{
    if v < 0 {
        let mut r: Vec<char> = Vec::new();
        r.push('-');
        let d = decimal_chars((-(v + 1)) as u128 + 1);
        push_chars(&mut r, &d);
        r
    } else {
        decimal_chars(v as u128)
    }
}

/// Appends an integer zero-padded to `w` characters.
pub fn push_zero_padded(out: &mut Vec<char>, v: i128, w: usize)
    ensures
        final(out)@ == old(out)@ + zero_padded(v as int, w as int),
{
    if v < 0 {
        let d = decimal_chars((-(v + 1)) as u128 + 1);
        out.push('-');
        let k: usize = if w >= 1 && d.len() < w - 1 { w - 1 - d.len() } else { 0 };
        push_repeat(out, '0', k);
        assert(repeat('0', k as int) =~= repeat('0', w - 1 - d@.len()));
        push_chars(out, &d);
    } else {
        let d = decimal_chars(v as u128);
        let k: usize = if d.len() < w { w - d.len() } else { 0 };
        push_repeat(out, '0', k);
        assert(repeat('0', k as int) =~= repeat('0', w - d@.len()));
        push_chars(out, &d);
    }
}

/// A value in millionths as a decimal with two (or three) places.
pub fn fixed_chars(v: i128, three: bool) -> (r: Vec<char>)
    requires
        -0x1_0000_0000_0000_0000_0000_0000 <= v <= 0x1_0000_0000_0000_0000_0000_0000,
    ensures
        r@ == fixed_text(v as int, if three { 3 } else { 2 }),
{
    let places: u128 = if three { 3 } else { 2 };
    let step: u128 = if three { 1000 } else { 10000 };
    let scale: u128 = if three { 1000 } else { 100 };
    proof {
        reveal_with_fuel(pow10, 7);
        assert(step == pow10((6 - places) as nat));
        assert(scale == pow10(places as nat));
    }
    let a: u128 = if v < 0 { (-(v + 1)) as u128 + 1 } else { v as u128 };
    let q: u128 = (a + step / 2) / step;
    let mut r: Vec<char> = Vec::new();
    if v < 0 {
        r.push('-');
    }
    let whole = decimal_chars(q / scale);
    push_chars(&mut r, &whole);
    r.push('.');
    push_zero_padded(&mut r, (q % scale) as i128, places as usize);
    proof {
        let sign = if v < 0 { seq!['-'] } else { Seq::<char>::empty() };
        assert(r@ =~= sign + decimal((q / scale) as nat) + seq!['.'] + zero_padded(
            (q % scale) as int,
            places as int,
        ));
    }
    r
}

} // verus!
