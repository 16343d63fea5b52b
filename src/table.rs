use vstd::prelude::*;
use vstd::string::StringExecFns;
use vstd::string::StrSliceExecFns;
use crate::forecast::ForecastTime;

verus! {

// ---------------------------------------------------------------------------
// Text layout
// ---------------------------------------------------------------------------

/// `n` spaces.
pub open spec fn spaces(n: nat) -> Seq<char> {
    Seq::new(n, |_i: int| ' ')
}

/// `s` right-justified in a field of `width` characters.
pub open spec fn padded_left(s: Seq<char>, width: nat) -> Seq<char> {
    if s.len() >= width { s } else { spaces((width - s.len()) as nat) + s }
}

/// `s` left-justified in a field of `width` characters.
pub open spec fn padded_right(s: Seq<char>, width: nat) -> Seq<char> {
    if s.len() >= width { s } else { s + spaces((width - s.len()) as nat) }
}

/// The cells in order with `sep` between neighbours.
pub open spec fn join(cells: Seq<Seq<char>>, sep: Seq<char>) -> Seq<char>
    decreases cells.len(),
{
    if cells.len() == 0 {
        Seq::empty()
    } else if cells.len() == 1 {
        cells[0]
    } else {
        join(cells.drop_last(), sep) + sep + cells.last()
    }
}

/// The characters of each string.
pub open spec fn texts(v: Seq<String>) -> Seq<Seq<char>> {
    v.map_values(|s: String| s@)
}

/// The gap between two columns.
pub open spec fn gutter() -> Seq<char> {
    "   "@
}

fn append_spaces(s: &mut String, n: usize)
    ensures
        final(s)@ == old(s)@ + spaces(n as nat),
{
    let ghost start = s@;
    let mut k: usize = 0;
    proof {
        reveal_strlit(" ");
        assert(start + spaces(0) == start);
    }
    while k < n
        invariant
            k <= n,
            s@ == start + spaces(k as nat),
        decreases n - k,
    {
        s.append(" ");
        proof {
            reveal_strlit(" ");
            assert(spaces(k as nat) + " "@ == spaces((k + 1) as nat));
        }
        k = k + 1;
    }
}

/// `s` right-justified in a field of `width` characters.
pub fn pad_left(s: &str, width: usize) -> (r: String)
    ensures
        r@ == padded_left(s@, width as nat),
{
    let n = s.unicode_len();
    let mut r = String::new();
    if n < width {
        append_spaces(&mut r, width - n);
    }
    r.append(s);
    proof {
        if n >= width {
            assert(r@ == s@);
        }
    }
    r
}

/// `s` left-justified in a field of `width` characters.
pub fn pad_right(s: &str, width: usize) -> (r: String)
    ensures
        r@ == padded_right(s@, width as nat),
{
    let n = s.unicode_len();
    let mut r = String::from_str(s);
    if n < width {
        append_spaces(&mut r, width - n);
    }
    r
}

/// Joins the cells, `sep` between neighbours.
pub fn join_cells(cells: &Vec<String>, sep: &str) -> (r: String)
    ensures
        r@ == join(texts(cells@), sep@),
{
    if cells.len() == 0 {
        return String::new();
    }
    let mut r = cells[0].clone();
    let mut i: usize = 1;
    proof {
        assert(texts(cells@).take(1).drop_last().len() == 0);
    }
    while i < cells.len()
        invariant
            1 <= i <= cells@.len(),
            r@ == join(texts(cells@).take(i as int), sep@),
        decreases cells@.len() - i,
    {
        let ghost prev = texts(cells@).take(i as int);
        r.append(sep);
        r.append(cells[i].as_str());
        proof {
            assert(texts(cells@).take(i + 1).drop_last() == prev);
        }
        i = i + 1;
    }
    proof {
        assert(texts(cells@).take(i as int) == texts(cells@));
    }
    r
}

// ---------------------------------------------------------------------------
// Time label: abbreviated month, two-digit day, two-digit hour and "h"
// ---------------------------------------------------------------------------

/// The English abbreviation of month `m`.
pub open spec fn month_abbrev(m: u32) -> Seq<char> {
    match m {
        1 => "Jan"@,
        2 => "Feb"@,
        3 => "Mar"@,
        4 => "Apr"@,
        5 => "May"@,
        6 => "Jun"@,
        7 => "Jul"@,
        8 => "Aug"@,
        9 => "Sep"@,
        10 => "Oct"@,
        11 => "Nov"@,
        _ => "Dec"@,
    }
}

/// The decimal digit `d`.
pub open spec fn digit_text(d: u32) -> Seq<char> {
    match d {
        0 => "0"@,
        1 => "1"@,
        2 => "2"@,
        3 => "3"@,
        4 => "4"@,
        5 => "5"@,
        6 => "6"@,
        7 => "7"@,
        8 => "8"@,
        _ => "9"@,
    }
}

/// `n` below 100 in two digits, with a leading zero.
pub open spec fn two_digits(n: u32) -> Seq<char> {
    digit_text(n / 10) + digit_text(n % 10)
}

/// The label of a time slot, such as `Jan 05, 14h`.
pub open spec fn time_label(t: ForecastTime) -> Seq<char> {
    month_abbrev(t.month) + " "@ + two_digits(t.day) + ", "@ + two_digits(t.hour) + "h"@
}

fn month_str(m: u32) -> (r: &'static str)
    requires
        1 <= m <= 12,
    ensures
        r@ == month_abbrev(m),
{
    match m {
        1 => "Jan",
        2 => "Feb",
        3 => "Mar",
        4 => "Apr",
        5 => "May",
        6 => "Jun",
        7 => "Jul",
        8 => "Aug",
        9 => "Sep",
        10 => "Oct",
        11 => "Nov",
        _ => "Dec",
    }
}

fn digit_str(d: u32) -> (r: &'static str)
    requires
        d < 10,
    ensures
        r@ == digit_text(d),
{
    match d {
        0 => "0",
        1 => "1",
        2 => "2",
        3 => "3",
        4 => "4",
        5 => "5",
        6 => "6",
        7 => "7",
        8 => "8",
        _ => "9",
    }
}

/// The label of a time slot, such as `Jan 05, 14h`.
pub fn format_time(t: &ForecastTime) -> (r: String)
    requires
        t.wf(),
    ensures
        r@ == time_label(*t),
{
    let mut r = String::from_str(month_str(t.month));
    r.append(" ");
    r.append(digit_str(t.day / 10));
    r.append(digit_str(t.day % 10));
    r.append(", ");
    r.append(digit_str(t.hour / 10));
    r.append(digit_str(t.hour % 10));
    r.append("h");
    r
}

} // verus!
