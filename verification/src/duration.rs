//! Rendering of elapsed times, in milliseconds, as `HH:MM:SS.mmm`.
//!
//! The hour field grows past two digits when needed; minutes and seconds
//! are always two digits and milliseconds three, all zero-padded.

use vstd::prelude::*;

verus! {

/// The decimal digit character for a value below ten.
pub open spec fn digit_char(d: nat) -> char {
    if d == 0 {
        '0'
    } else if d == 1 {
        '1'
    } else if d == 2 {
        '2'
    } else if d == 3 {
        '3'
    } else if d == 4 {
        '4'
    } else if d == 5 {
        '5'
    } else if d == 6 {
        '6'
    } else if d == 7 {
        '7'
    } else if d == 8 {
        '8'
    } else {
        '9'
    }
}

/// The shortest decimal rendering of `n`: no leading zero except for zero itself.
pub open spec fn spec_decimal(n: nat) -> Seq<char>
    decreases n,
{
    if n < 10 {
        seq![digit_char(n)]
    } else {
        spec_decimal(n / 10) + seq![digit_char(n % 10)]
    }
}

/// The decimal rendering of `n`, zero-padded on the left to at least two digits.
pub open spec fn spec_pad2(n: nat) -> Seq<char> {
    if n < 10 {
        seq!['0'] + spec_decimal(n)
    } else {
        spec_decimal(n)
    }
}

/// The decimal rendering of `n`, zero-padded on the left to at least three digits.
pub open spec fn spec_pad3(n: nat) -> Seq<char> {
    if n < 100 {
        seq!['0'] + spec_pad2(n)
    } else {
        spec_decimal(n)
    }
}

/// The whole hours in `t` milliseconds.
pub open spec fn dur_hours(t: nat) -> nat {
    t / 1000 / 60 / 60
}

/// The minutes component, below sixty.
pub open spec fn dur_minutes(t: nat) -> nat {
    (t / 1000 / 60) % 60
}

/// The seconds component, below sixty.
pub open spec fn dur_seconds(t: nat) -> nat {
    (t / 1000) % 60
}

/// The milliseconds component, below one thousand.
pub open spec fn dur_millis(t: nat) -> nat {
    t % 1000
}

/// The full `HH:MM:SS.mmm` rendering of `t` milliseconds.
pub open spec fn spec_format_duration(t: nat) -> Seq<char> {
    spec_pad2(dur_hours(t)) + seq![':'] + spec_pad2(dur_minutes(t)) + seq![':']
        + spec_pad2(dur_seconds(t)) + seq!['.'] + spec_pad3(dur_millis(t))
}

/// The numeric value of a decimal digit character; ten for any other character.
pub open spec fn digit_val(c: char) -> nat {
    if c == '0' {
        0
    } else if c == '1' {
        1
    } else if c == '2' {
        2
    } else if c == '3' {
        3
    } else if c == '4' {
        4
    } else if c == '5' {
        5
    } else if c == '6' {
        6
    } else if c == '7' {
        7
    } else if c == '8' {
        8
    } else if c == '9' {
        9
    } else {
        10
    }
}

/// Reads a run of decimal digit characters as a number, most significant first.
pub open spec fn spec_parse_decimal(s: Seq<char>) -> nat
    decreases s.len(),
{
    if s.len() == 0 {
        0
    } else {
        spec_parse_decimal(s.drop_last()) * 10 + digit_val(s.last())
    }
}

proof fn lemma_parse_decimal_of_decimal(n: nat)
    ensures
        spec_parse_decimal(spec_decimal(n)) == n,
    decreases n,
{
    if n < 10 {
        let s = spec_decimal(n);
        assert(s.len() == 1);
        assert(s.last() == digit_char(n));
        assert(s.drop_last() =~= Seq::<char>::empty());
        assert(spec_parse_decimal(Seq::<char>::empty()) == 0);
        assert(spec_parse_decimal(s) == spec_parse_decimal(s.drop_last()) * 10 + digit_val(
            s.last(),
        ));
        assert(digit_val(digit_char(n)) == n);
    } else {
        let s = spec_decimal(n);
        assert(s.drop_last() =~= spec_decimal(n / 10));
        assert(s.last() == digit_char(n % 10));
        lemma_parse_decimal_of_decimal(n / 10);
        assert(digit_val(digit_char(n % 10)) == n % 10);
        assert((n / 10) * 10 + n % 10 == n) by (nonlinear_arith);
    }
}

proof fn lemma_parse_leading_zero(s: Seq<char>)
    ensures
        spec_parse_decimal(seq!['0'] + s) == spec_parse_decimal(s),
    decreases s.len(),
{
    let t = seq!['0'] + s;
    assert(t.len() == s.len() + 1);
    assert(spec_parse_decimal(t) == spec_parse_decimal(t.drop_last()) * 10 + digit_val(t.last()));
    if s.len() == 0 {
        assert(t.drop_last() =~= Seq::<char>::empty());
        assert(t.last() == '0');
        assert(spec_parse_decimal(Seq::<char>::empty()) == 0);
        assert(digit_val('0') == 0);
    } else {
        assert(t.drop_last() =~= seq!['0'] + s.drop_last());
        assert(t.last() == s.last());
        lemma_parse_leading_zero(s.drop_last());
        assert(spec_parse_decimal(s) == spec_parse_decimal(s.drop_last()) * 10 + digit_val(
            s.last(),
        ));
    }
}

proof fn lemma_parse_pad2(n: nat)
    ensures
        spec_parse_decimal(spec_pad2(n)) == n,
{
    lemma_parse_decimal_of_decimal(n);
    if n < 10 {
        lemma_parse_leading_zero(spec_decimal(n));
    }
}

proof fn lemma_parse_pad3(n: nat)
    ensures
        spec_parse_decimal(spec_pad3(n)) == n,
{
    lemma_parse_pad2(n);
    if n < 100 {
        lemma_parse_leading_zero(spec_pad2(n));
    }
}

proof fn lemma_decimal_len(n: nat)
    ensures
        spec_decimal(n).len() >= 1,
        n < 10 ==> spec_decimal(n).len() == 1,
        n >= 10 ==> spec_decimal(n).len() >= 2,
        n >= 100 ==> spec_decimal(n).len() >= 3,
        n < 100 ==> spec_decimal(n).len() <= 2,
        n < 1000 ==> spec_decimal(n).len() <= 3,
    decreases n,
{
    if n >= 10 {
        lemma_decimal_len(n / 10);
    }
}

proof fn lemma_pad2_len(n: nat)
    ensures
        spec_pad2(n).len() >= 2,
        n < 100 ==> spec_pad2(n).len() == 2,
{
    lemma_decimal_len(n);
}

proof fn lemma_pad3_len(n: nat)
    ensures
        spec_pad3(n).len() >= 3,
        n < 1000 ==> spec_pad3(n).len() == 3,
{
    lemma_decimal_len(n);
    lemma_pad2_len(n);
}

/// Splitting a millisecond count into hour, minute, second and millisecond
/// fields loses nothing: recombining the four fields gives the count back.
pub proof fn lemma_duration_components(t: nat)
    ensures
        dur_minutes(t) < 60,
        dur_seconds(t) < 60,
        dur_millis(t) < 1000,
        ((dur_hours(t) * 60 + dur_minutes(t)) * 60 + dur_seconds(t)) * 1000 + dur_millis(t) == t,
{
    assert(t == (t / 1000) * 1000 + t % 1000) by (nonlinear_arith);
    assert(t / 1000 == (t / 1000 / 60) * 60 + (t / 1000) % 60) by (nonlinear_arith);
    assert(t / 1000 / 60 == (t / 1000 / 60 / 60) * 60 + (t / 1000 / 60) % 60) by (nonlinear_arith);
}

/// Round trip: the four numeric fields of the rendered string sit at fixed
/// offsets from its end; re-parsing them and recombining yields the original
/// millisecond count.
pub proof fn lemma_format_duration_roundtrip(t: nat)
    ensures
        ({
            let s = spec_format_duration(t);
            let n = s.len() as int;
            &&& n >= 12
            &&& s[n - 10] == ':'
            &&& s[n - 7] == ':'
            &&& s[n - 4] == '.'
            &&& ((spec_parse_decimal(s.subrange(0, n - 10)) * 60 + spec_parse_decimal(
                s.subrange(n - 9, n - 7),
            )) * 60 + spec_parse_decimal(s.subrange(n - 6, n - 4))) * 1000 + spec_parse_decimal(
                s.subrange(n - 3, n),
            ) == t
        }),
{
    let h: nat = dur_hours(t);
    let m: nat = dur_minutes(t);
    let sc: nat = dur_seconds(t);
    let ms: nat = dur_millis(t);
    lemma_duration_components(t);
    lemma_pad2_len(h);
    lemma_pad2_len(m);
    lemma_pad2_len(sc);
    lemma_pad3_len(ms);
    let s = spec_format_duration(t);
    let n = s.len() as int;
    assert(s.subrange(0, n - 10) =~= spec_pad2(h));
    assert(s.subrange(n - 9, n - 7) =~= spec_pad2(m));
    assert(s.subrange(n - 6, n - 4) =~= spec_pad2(sc));
    assert(s.subrange(n - 3, n) =~= spec_pad3(ms));
    lemma_parse_pad2(h);
    lemma_parse_pad2(m);
    lemma_parse_pad2(sc);
    lemma_parse_pad3(ms);
}

fn digit_str(d: u64) -> (r: &'static str)
    requires
        d < 10,
    ensures
        r@ == seq![digit_char(d as nat)],
{
    proof {
        reveal_strlit("0");
        reveal_strlit("1");
        reveal_strlit("2");
        reveal_strlit("3");
        reveal_strlit("4");
        reveal_strlit("5");
        reveal_strlit("6");
        reveal_strlit("7");
        reveal_strlit("8");
        reveal_strlit("9");
    }
    let r: &'static str = if d == 0 {
        "0"
    } else if d == 1 {
        "1"
    } else if d == 2 {
        "2"
    } else if d == 3 {
        "3"
    } else if d == 4 {
        "4"
    } else if d == 5 {
        "5"
    } else if d == 6 {
        "6"
    } else if d == 7 {
        "7"
    } else if d == 8 {
        "8"
    } else {
        "9"
    };
    proof {
        assert(r@ =~= seq![digit_char(d as nat)]);
    }
    r
}

fn decimal_string(n: u64) -> (r: String)
    ensures
        r@ == spec_decimal(n as nat),
    decreases n,
{
    if n < 10 {
        let mut s = String::new();
        s.append(digit_str(n));
        proof {
            assert(s@ =~= spec_decimal(n as nat));
        }
        s
    } else {
        let mut s = decimal_string(n / 10);
        s.append(digit_str(n % 10));
        proof {
            assert(s@ =~= spec_decimal(n as nat));
        }
        s
    }
}

fn pad2_string(n: u64) -> (r: String)
    ensures
        r@ == spec_pad2(n as nat),
{
    proof {
        reveal_strlit("0");
    }
    let mut s = String::new();
    if n < 10 {
        s.append("0");
    }
    let digits = decimal_string(n);
    s.append(digits.as_str());
    proof {
        assert(s@ =~= spec_pad2(n as nat));
    }
    s
}

fn pad3_string(n: u64) -> (r: String)
    ensures
        r@ == spec_pad3(n as nat),
{
    proof {
        reveal_strlit("0");
    }
    if n < 100 {
        let mut s = String::new();
        s.append("0");
        let rest = pad2_string(n);
        s.append(rest.as_str());
        proof {
            assert(s@ =~= spec_pad3(n as nat));
        }
        s
    } else {
        let s = decimal_string(n);
        s
    }
}

/// Renders `millis` as `HH:MM:SS.mmm`, the hour field widening as needed.
pub fn format_duration(millis: u64) -> (r: String)
    ensures
        r@ == spec_format_duration(millis as nat),
{
    let seconds = (millis / 1000) % 60;
    let minutes = (millis / 1000 / 60) % 60;
    let hours = millis / 1000 / 60 / 60;
    let ms = millis % 1000;
    let mut s = pad2_string(hours);
    s.append(":");
    let mm = pad2_string(minutes);
    s.append(mm.as_str());
    s.append(":");
    let ss = pad2_string(seconds);
    s.append(ss.as_str());
    s.append(".");
    let mmm = pad3_string(ms);
    s.append(mmm.as_str());
    proof {
        reveal_strlit(":");
        reveal_strlit(".");
        assert(s@ =~= spec_format_duration(millis as nat));
    }
    s
}

} // verus!
