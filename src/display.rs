//! Text shown in the interface: times, file sizes, fixed-width names, and
//! the scroll position of the track list.
use vstd::prelude::*;
use crate::text::{push_char, push_chars, string_of};

verus! {

pub open spec fn digit_char(d: int) -> char {
    if d == 0 {
        '0'
    } else if d == 1 {
        '1'
    } else if d == 2 {
        '2'
    } else if d == 3 {
        '3'
    } else if d == 4 {
        '4'
    } else if d == 5 {
        '5'
    } else if d == 6 {
        '6'
    } else if d == 7 {
        '7'
    } else if d == 8 {
        '8'
    } else {
        '9'
    }
}

/// The decimal digits of `n`, without leading zeros.
pub open spec fn decimal(n: nat) -> Seq<char>
    decreases n,
{
    if n < 10 {
        seq![digit_char(n as int)]
    } else {
        decimal(n / 10).push(digit_char((n % 10) as int))
    }
}

fn digit(d: u64) -> (c: char)
    requires
        d < 10,
    ensures
        c == digit_char(d as int),
{
    if d == 0 {
        '0'
    } else if d == 1 {
        '1'
    } else if d == 2 {
        '2'
    } else if d == 3 {
        '3'
    } else if d == 4 {
        '4'
    } else if d == 5 {
        '5'
    } else if d == 6 {
        '6'
    } else if d == 7 {
        '7'
    } else if d == 8 {
        '8'
    } else {
        '9'
    }
}

/// The decimal digits of `n`.
pub fn decimal_chars(n: u64) -> (r: Vec<char>)
    ensures
        r@ == decimal(n as nat),
    decreases n,
{
    if n < 10 {
        let mut v: Vec<char> = Vec::new();
        v.push(digit(n));
        assert(v@ =~= seq![digit_char(n as int)]);
        v
    } else {
        let mut v = decimal_chars(n / 10);
        v.push(digit(n % 10));
        v
    }
}

/// Minutes and seconds: `m:ss`.
pub open spec fn time_text(secs: nat) -> Seq<char> {
    decimal(secs / 60) + seq![':', digit_char(((secs % 60) / 10) as int), digit_char((secs % 10) as int)]
}

/// A duration in whole seconds as `m:ss`, minutes not capped at an hour.
pub fn format_time(secs: u64) -> (r: String)
    ensures
        r@ == time_text(secs as nat),
{
    let mins = decimal_chars(secs / 60);
    let s = secs % 60;
    let mut out = string_of(mins.as_slice());
    push_char(&mut out, ':');
    push_char(&mut out, digit(s / 10));
    push_char(&mut out, digit(s % 10));
    assert(out@ =~= time_text(secs as nat));
    out
}

/// `bytes` over `unit` in tenths, rounded to nearest with ties to even.
pub open spec fn tenths(bytes: int, unit: int) -> int {
    let q = bytes * 10 / unit;
    let rem = bytes * 10 % unit;
    if 2 * rem > unit || (2 * rem == unit && q % 2 == 1) {
        q + 1
    } else {
        q
    }
}

/// `t` tenths as `whole.tenth` followed by a space and the unit name.
pub open spec fn tenths_text(t: nat, unit: Seq<char>) -> Seq<char> {
    decimal(t / 10) + seq!['.', digit_char((t % 10) as int), ' '] + unit
}

/// A file size in the largest binary unit it reaches, with one decimal.
pub open spec fn size_text(bytes: nat) -> Seq<char> {
    if bytes >= 1073741824 {
        tenths_text(tenths(bytes as int, 1073741824int) as nat, seq!['G', 'B'])
    } else if bytes >= 1048576 {
        tenths_text(tenths(bytes as int, 1048576int) as nat, seq!['M', 'B'])
    } else if bytes >= 1024 {
        tenths_text(tenths(bytes as int, 1024int) as nat, seq!['K', 'B'])
    } else {
        decimal(bytes) + seq![' ', 'B']
    }
}

fn tenths_of(bytes: u64, unit: u64) -> (r: u64)
    requires
        unit >= 1024,
        bytes >= unit,
    ensures
        r == tenths(bytes as int, unit as int),
{
    let x: u128 = bytes as u128 * 10;
    let q: u128 = x / unit as u128;
    let rem: u128 = x % unit as u128;
    assert(q <= bytes * 10 / 1024) by (nonlinear_arith)
        requires
            q as int == (x as int) / (unit as int),
            x == bytes * 10,
            unit >= 1024,
            bytes >= 0,
    ;
    assert(bytes * 10 / 1024 < u64::MAX) by (nonlinear_arith)
        requires
            0 <= bytes <= u64::MAX,
    ;
    let q64: u64 = q as u64;
    if 2 * rem > unit as u128 || (2 * rem == unit as u128 && q64 % 2 == 1) {
        q64 + 1
    } else {
        q64
    }
}

fn push_tenths(out: &mut String, t: u64, u0: char, u1: char)
    ensures
        final(out)@ == old(out)@ + tenths_text(t as nat, seq![u0, u1]),
{
    let whole = decimal_chars(t / 10);
    push_chars(out, whole.as_slice());
    push_char(out, '.');
    push_char(out, digit(t % 10));
    push_char(out, ' ');
    push_char(out, u0);
    push_char(out, u1);
    assert(out@ =~= old(out)@ + tenths_text(t as nat, seq![u0, u1]));
}

/// A file size for display: `512 B`, `1.5 KB`, `3.0 MB`, `1.2 GB`.
pub fn format_file_size(bytes: u64) -> (r: String)
    ensures
        r@ == size_text(bytes as nat),
{
    let mut out = String::new();
    if bytes >= 1_073_741_824 {
        push_tenths(&mut out, tenths_of(bytes, 1_073_741_824), 'G', 'B');
    } else if bytes >= 1_048_576 {
        push_tenths(&mut out, tenths_of(bytes, 1_048_576), 'M', 'B');
    } else if bytes >= 1024 {
        push_tenths(&mut out, tenths_of(bytes, 1024), 'K', 'B');
    } else {
        let digits = decimal_chars(bytes);
        push_chars(&mut out, digits.as_slice());
        push_char(&mut out, ' ');
        push_char(&mut out, 'B');
    }
    assert(out@ =~= size_text(bytes as nat));
    out
}

/// `s` fitted to `max_len` characters: padded with spaces when shorter,
/// else cut to `max_len - 1` characters and an ellipsis.
pub open spec fn fitted(s: Seq<char>, max_len: nat) -> Seq<char> {
    if s.len() <= max_len {
        s + Seq::new((max_len - s.len()) as nat, |i: int| ' ')
    } else {
        s.subrange(0, max_len - 1).push('…')
    }
}

/// Fit a name to a column of `max_len` characters (see [`fitted`]).
pub fn truncate_str(s: &str, max_len: usize) -> (r: String)
    requires
        max_len > 0 || s@.len() == 0,
    ensures
        r@ == fitted(s@, max_len as nat),
{
    let cs = crate::text::chars_of(s);
    let n = cs.len();
    if n <= max_len {
        let mut out = string_of(cs.as_slice());
        let mut k: usize = n;
        while k < max_len
            invariant
                n <= k <= max_len,
                out@ == s@ + Seq::new((k - n) as nat, |i: int| ' '),
            decreases max_len - k,
        {
            push_char(&mut out, ' ');
            k = k + 1;
            assert(out@ =~= s@ + Seq::new((k - n) as nat, |i: int| ' '));
        }
        out
    } else {
        let keep: usize = max_len - 1;
        let mut out = String::new();
        let mut k: usize = 0;
        while k < keep
            invariant
                keep < n,
                n == cs@.len(),
                cs@ == s@,
                k <= keep,
                out@ == s@.subrange(0, k as int),
            decreases keep - k,
        {
            push_char(&mut out, cs[k]);
            k = k + 1;
            assert(out@ =~= s@.subrange(0, k as int));
        }
        push_char(&mut out, '…');
        out
    }
}

/// The first visible row of a list of `visible` rows, scrolled as little as
/// needed to show row `selected`.
pub open spec fn scroll_for(selected: int, visible: int, current: int) -> int {
    if visible == 0 {
        0
    } else if selected < current {
        selected
    } else if selected >= current + visible {
        selected - visible + 1
    } else {
        current
    }
}

pub fn calculate_scroll(selected: usize, visible: usize, current_scroll: usize) -> (r: usize)
    ensures
        r == scroll_for(selected as int, visible as int, current_scroll as int),
{
    if visible == 0 {
        return 0;
    }
    if selected < current_scroll {
        selected
    } else if selected - current_scroll >= visible {
        selected - visible + 1
    } else {
        current_scroll
    }
}

} // verus!
