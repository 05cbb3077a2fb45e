use vstd::prelude::*;

verus! {

/// A calendar day as plain numbers.
#[derive(Clone, Copy, Debug, PartialEq, Eq)]
pub struct Date {
    pub year: i32,
    pub month: u32,
    pub day: u32,
}

impl Date {
    /// A month between 1 and 12 and a day between 1 and 31.
    pub open spec fn wf(&self) -> bool {
        1 <= self.month <= 12 && 1 <= self.day <= 31
    }
}

pub open spec fn digit_char(d: int) -> char {
    seq!['0', '1', '2', '3', '4', '5', '6', '7', '8', '9'][d]
}

/// The decimal digits of `n`, most significant first, with no leading zero.
pub open spec fn digits(n: nat) -> Seq<char>
    decreases n,
{
    if n < 10 {
        seq![digit_char(n as int)]
    } else {
        digits(n / 10).push(digit_char((n % 10) as int))
    }
}

/// `n` in decimal, padded with zeros on the left to four digits.
pub open spec fn padded4(n: nat) -> Seq<char> {
    let d = digits(n);
    if d.len() < 4 {
        Seq::new((4 - d.len()) as nat, |i: int| '0') + d
    } else {
        d
    }
}

/// A year as a long date shows it: four digits, with a sign outside 0..=9999.
pub open spec fn year_text(y: int) -> Seq<char> {
    if 0 <= y <= 9999 {
        padded4(y as nat)
    } else if y < 0 {
        seq!['-'] + padded4((-y) as nat)
    } else {
        seq!['+'] + padded4(y as nat)
    }
}

/// The English name of a month numbered from 1.
pub open spec fn month_text(m: int) -> Seq<char> {
    if m == 1 { "January"@ }
    else if m == 2 { "February"@ }
    else if m == 3 { "March"@ }
    else if m == 4 { "April"@ }
    else if m == 5 { "May"@ }
    else if m == 6 { "June"@ }
    else if m == 7 { "July"@ }
    else if m == 8 { "August"@ }
    else if m == 9 { "September"@ }
    else if m == 10 { "October"@ }
    else if m == 11 { "November"@ }
    else { "December"@ }
}

/// The ordinal ending of a day of the month.
pub open spec fn suffix_text(day: int) -> Seq<char> {
    if day == 1 || day == 21 || day == 31 {
        "st"@
    } else if day == 2 || day == 22 {
        "nd"@
    } else if day == 3 || day == 23 {
        "rd"@
    } else {
        "th"@
    }
}

/// A date as posts show it, such as "June 3rd, 2024".
pub open spec fn date_text(d: Date) -> Seq<char> {
    month_text(d.month as int) + " "@ + digits(d.day as nat) + suffix_text(d.day as int) + ", "@
        + year_text(d.year as int)
}

proof fn lemma_digits_len(n: nat)
    ensures
        n < 10 ==> digits(n).len() == 1,
        10 <= n < 100 ==> digits(n).len() == 2,
        100 <= n < 1000 ==> digits(n).len() == 3,
        1000 <= n ==> digits(n).len() >= 4,
    decreases n,
{
    if n >= 10 {
        lemma_digits_len(n / 10);
    }
}

/// The ordinal ending for a day of the month: "st", "nd", "rd" or "th".
pub fn ordinal_suffix(day: u32) -> (r: &'static str)
    ensures
        r@ == suffix_text(day as int),
{
    if day == 1 || day == 21 || day == 31 {
        "st"
    } else if day == 2 || day == 22 {
        "nd"
    } else if day == 3 || day == 23 {
        "rd"
    } else {
        "th"
    }
}

fn digit_str(d: u64) -> (r: &'static str)
    requires
        d < 10,
    ensures
        r@ == seq![digit_char(d as int)],
{
    proof {
        reveal_strlit("0");
        reveal_strlit("1");
        reveal_strlit("2");
        reveal_strlit("3");
        reveal_strlit("4");
        reveal_strlit("5");
        reveal_strlit("6");
        reveal_strlit("7");
        reveal_strlit("8");
        reveal_strlit("9");
    }
    let r = match d {
        0 => "0",
        1 => "1",
        2 => "2",
        3 => "3",
        4 => "4",
        5 => "5",
        6 => "6",
        7 => "7",
        8 => "8",
        _ => "9",
    };
    assert(r@ =~= seq![digit_char(d as int)]);
    r
}

fn push_digits(n: u64, out: &mut String)
    ensures
        final(out)@ == old(out)@ + digits(n as nat),
    decreases n,
{
    if n >= 10 {
        push_digits(n / 10, out);
    }
    out.append(digit_str(n % 10));
    assert(final(out)@ =~= old(out)@ + digits(n as nat));
}

fn push_padded4(n: u64, out: &mut String)
    ensures
        final(out)@ == old(out)@ + padded4(n as nat),
{
    proof {
        lemma_digits_len(n as nat);
        reveal_strlit("000");
        reveal_strlit("00");
        reveal_strlit("0");
    }
    let ghost start = out@;
    if n < 10 {
        out.append("000");
    } else if n < 100 {
        out.append("00");
    } else if n < 1000 {
        out.append("0");
    }
    let ghost pad = out@.subrange(start.len() as int, out@.len() as int);
    push_digits(n, out);
    assert(out@ =~= start + padded4(n as nat)) by {
        assert(pad =~= Seq::new((4 - digits(n as nat).len()) as nat, |i: int| '0') || digits(
            n as nat,
        ).len() >= 4);
    }
}

fn push_year(y: i32, out: &mut String)
    ensures
        final(out)@ == old(out)@ + year_text(y as int),
{
    proof {
        reveal_strlit("-");
        reveal_strlit("+");
    }
    let ghost start = out@;
    if 0 <= y && y <= 9999 {
        push_padded4(y as u64, out);
    } else if y < 0 {
        out.append("-");
        let a: i64 = -(y as i64);
        push_padded4(a as u64, out);
        assert(out@ =~= start + year_text(y as int));
    } else {
        out.append("+");
        push_padded4(y as u64, out);
        assert(out@ =~= start + year_text(y as int));
    }
}

/// Relies on chrono::Month::name, reached through `TryFrom<u8>`: the English
/// name of a month numbered from 1 to 12.
#[verifier::external_body]
fn month_name(m: u32) -> (r: String)
    requires
        1 <= m <= 12,
    ensures
        r@ == month_text(m as int),
{
    chrono::Month::try_from(m as u8).unwrap().name().to_string()
}

/// Writes a date the way posts show it: month name, day with its ordinal
/// ending, a comma, and the year ("June 3rd, 2024").
pub fn format_date(date: &Date) -> (r: String)
    requires
        date.wf(),
    ensures
        r@ == date_text(*date),
{
    let mut out = month_name(date.month);
    out.append(" ");
    push_digits(date.day as u64, &mut out);
    out.append(ordinal_suffix(date.day));
    out.append(", ");
    push_year(date.year, &mut out);
    assert(out@ =~= date_text(*date));
    out
}

} // verus!
