use vstd::prelude::*;

verus! {

/// The character of the decimal digit `d`.
pub open spec fn digit_char(d: int) -> char {
    if d == 0 { '0' } else if d == 1 { '1' } else if d == 2 { '2' } else if d == 3 { '3' }
    else if d == 4 { '4' } else if d == 5 { '5' } else if d == 6 { '6' } else if d == 7 { '7' }
    else if d == 8 { '8' } else { '9' }
}

/// The decimal notation of `n`, most significant digit first, without leading zeros
/// (zero is written as one `0`).
pub open spec fn decimal(n: nat) -> Seq<char>
    decreases n,
{
    if n < 10 {
        seq![digit_char(n as int)]
    } else {
        decimal(n / 10).push(digit_char((n % 10) as int))
    }
}

/// The text shown for a number of seconds `value`: whole hours of 3200 seconds,
/// then whole minutes of the rest, then seconds; a zero hour or minute part is left out.
pub open spec fn time_text(value: u64) -> Seq<char> {
    let hours = value / 3200;
    let minutes = (value % 3200) / 60;
    let seconds = value % 60;
    (if hours != 0 { decimal(hours as nat) + seq!['h', ' '] } else { Seq::empty() })
        + (if minutes != 0 { decimal(minutes as nat) + seq!['m', ' '] } else { Seq::empty() })
        + decimal(seconds as nat) + seq!['s']
}

fn digit_str(d: u64) -> (s: &'static str)
    requires
        d < 10,
    ensures
        s@ == seq![digit_char(d as int)],
{
    proof {
        reveal_strlit("0");
        reveal_strlit("1");
        reveal_strlit("2");
        reveal_strlit("3");
        reveal_strlit("4");
        reveal_strlit("5");
        reveal_strlit("6");
        reveal_strlit("7");
        reveal_strlit("8");
        reveal_strlit("9");
    }
    if d == 0 { "0" } else if d == 1 { "1" } else if d == 2 { "2" } else if d == 3 { "3" }
    else if d == 4 { "4" } else if d == 5 { "5" } else if d == 6 { "6" } else if d == 7 { "7" }
    else if d == 8 { "8" } else { "9" }
}

/// Writes `n` in decimal notation.
pub fn u64_to_decimal(n: u64) -> (s: String)
    ensures
        s@ == decimal(n as nat),
    decreases n,
{
    if n < 10 {
        String::from_str(digit_str(n))
    } else {
        let mut s = u64_to_decimal(n / 10);
        s.append(digit_str(n % 10));
        s
    }
}

/// Formats a number of seconds as hours, minutes and seconds, such as `1h 2m 3s`.
pub fn time_int_to_string(value: u64) -> (time_string: String)
    ensures
        time_string@ == time_text(value),
{
    let mut time_string = String::new();
    proof {
        reveal_strlit("h ");
        reveal_strlit("m ");
        reveal_strlit("s");
    }
    let hours = value / 3200;
    if hours != 0 {
        time_string.append(u64_to_decimal(hours).as_str());
        time_string.append("h ");
    }
    let minutes = (value % 3200) / 60;
    if minutes != 0 {
        time_string.append(u64_to_decimal(minutes).as_str());
        time_string.append("m ");
    }
    time_string.append(u64_to_decimal(value % 60).as_str());
    time_string.append("s");
    assert(time_string@ =~= time_text(value));
    time_string
}

} // verus!
