//! Text helpers: decimal rendering, truncation, markdown escaping, and the
//! duration formatter used by reminder prompts and reports.

use vstd::prelude::*;

verus! {

/// The decimal digit character for `d`.
pub open spec fn dec_digit(d: int) -> char {
    if d == 0 {
        '0'
    } else if d == 1 {
        '1'
    } else if d == 2 {
        '2'
    } else if d == 3 {
        '3'
    } else if d == 4 {
        '4'
    } else if d == 5 {
        '5'
    } else if d == 6 {
        '6'
    } else if d == 7 {
        '7'
    } else if d == 8 {
        '8'
    } else {
        '9'
    }
}

/// The decimal rendering of a non-negative integer, most significant digit
/// first, without leading zeroes (`0` renders as `"0"`).
pub open spec fn dec_str(n: int) -> Seq<char>
    decreases n,
{
    if n < 10 {
        seq![dec_digit(n)]
    } else {
        dec_str(n / 10).push(dec_digit(n % 10))
    }
}

/// The decimal rendering of any integer: a `-` sign ahead of the magnitude
/// for negative values.
pub open spec fn int_str(n: int) -> Seq<char> {
    if n < 0 {
        seq!['-'] + dec_str(-n)
    } else {
        dec_str(n)
    }
}

/// One decimal digit as a string slice.
fn digit_str(d: u64) -> (r: &'static str)
    requires
        d < 10,
    ensures
        r@ == seq![dec_digit(d as int)],
{
    proof {
        reveal_strlit("0");
        reveal_strlit("1");
        reveal_strlit("2");
        reveal_strlit("3");
        reveal_strlit("4");
        reveal_strlit("5");
        reveal_strlit("6");
        reveal_strlit("7");
        reveal_strlit("8");
        reveal_strlit("9");
    }
    let r = match d {
        0 => "0",
        1 => "1",
        2 => "2",
        3 => "3",
        4 => "4",
        5 => "5",
        6 => "6",
        7 => "7",
        8 => "8",
        _ => "9",
    };
    proof {
        assert(r@ =~= seq![dec_digit(d as int)]);
    }
    r
}

/// Render `n` in decimal.
pub fn u64_string(n: u64) -> (r: String)
    ensures
        r@ == dec_str(n as int),
    decreases n,
{
    if n < 10 {
        String::from_str(digit_str(n))
    } else {
        let high = u64_string(n / 10);
        high.concat(digit_str(n % 10))
    }
}

/// Render `n` in decimal, with a leading `-` when negative.
pub fn i64_string(n: i64) -> (r: String)
    ensures
        r@ == int_str(n as int),
{
    if n >= 0 {
        let r = u64_string(n as u64);
        r
    } else {
        // magnitude of `n`, written so that `i64::MIN` cannot overflow
        let m: u64 = ((-(n + 1)) as u64) + 1;
        assert(m == -(n as int));
        let r = String::from_str("-").concat(u64_string(m).as_str());
        proof {
            reveal_strlit("-");
            assert(r@ =~= seq!['-'] + dec_str(-(n as int)));
        }
        r
    }
}

/// `n` in decimal, left-padded with `0` to two places (for `n < 100`).
pub open spec fn pad2_str(n: int) -> Seq<char> {
    seq![dec_digit(n / 10), dec_digit(n % 10)]
}

/// Render `n` as exactly two digits.
pub fn pad2(n: u64) -> (r: String)
    requires
        n < 100,
    ensures
        r@ == pad2_str(n as int),
{
    let r = String::from_str(digit_str(n / 10)).concat(digit_str(n % 10));
    proof {
        assert(r@ =~= pad2_str(n as int));
    }
    r
}

/// Truncation with an ellipsis: text of at most `trunc_len` characters is
/// kept whole; longer text is cut to `trunc_len - 3` characters and `...`.
pub open spec fn ellipsis_spec(s: Seq<char>, trunc_len: int) -> Seq<char> {
    if s.len() <= trunc_len {
        s
    } else {
        s.subrange(0, trunc_len - 3) + seq!['.', '.', '.']
    }
}

/// Shorten `s` to at most `trunc_len` characters, ending in `...` when cut.
pub fn ellipsis(s: &str, trunc_len: usize) -> (r: String)
    requires
        s@.len() > trunc_len ==> trunc_len >= 3,
    ensures
        r@ == ellipsis_spec(s@, trunc_len as int),
{
    let n = s.unicode_len();
    if n <= trunc_len {
        String::from_str(s)
    } else {
        let head = s.substring_char(0, trunc_len - 3);
        let r = String::from_str(head).concat("...");
        proof {
            reveal_strlit("...");
            assert(r@ =~= ellipsis_spec(s@, trunc_len as int));
        }
        r
    }
}

/// How one character is escaped for markdown: `_`, `*` and `` ` `` get a
/// leading backslash; everything else stays itself.
pub open spec fn escape_char(c: char) -> Seq<char> {
    if c == '_' || c == '*' || c == '`' {
        seq!['\\', c]
    } else {
        seq![c]
    }
}

/// The whole text escaped character by character.
pub open spec fn escape_md(s: Seq<char>) -> Seq<char>
    decreases s.len(),
{
    if s.len() == 0 {
        Seq::empty()
    } else {
        escape_md(s.drop_last()) + escape_char(s.last())
    }
}

/// Escape markdown control characters so user text renders literally.
pub fn escape_markdown(s: &str) -> (r: String)
    ensures
        r@ == escape_md(s@),
{
    let n = s.unicode_len();
    let mut out = String::new();
    let mut i: usize = 0;
    while i < n
        invariant
            i <= n,
            n == s@.len(),
            out@ == escape_md(s@.subrange(0, i as int)),
        decreases n - i,
    {
        let c = s.get_char(i);
        if c == '_' {
            out.append("\\_");
        } else if c == '*' {
            out.append("\\*");
        } else if c == '`' {
            out.append("\\`");
        } else {
            out.append(s.substring_char(i, i + 1));
        }
        proof {
            reveal_strlit("\\_");
            reveal_strlit("\\*");
            reveal_strlit("\\`");
            let pre = s@.subrange(0, i as int);
            let cur = s@.subrange(0, i + 1);
            assert(cur.drop_last() =~= pre);
            assert(cur.last() == s@[i as int]);
            assert(s@.subrange(i as int, i + 1) =~= seq![s@[i as int]]);
            assert(out@ =~= escape_md(cur));
        }
        i += 1;
    }
    proof {
        assert(s@.subrange(0, s@.len() as int) =~= s@);
    }
    out
}

/// The rendering of a non-negative duration: the non-zero day, hour and
/// minute components in order, then the leftover seconds, joined by spaces.
pub open spec fn duration_str(d: int) -> Seq<char> {
    let days = d / 86400;
    let r1 = d % 86400;
    let hours = r1 / 3600;
    let r2 = r1 % 3600;
    let mins = r2 / 60;
    let secs = r2 % 60;
    let day_part: Seq<char> = if days >= 1 {
        dec_str(days) + " days "@
    } else {
        Seq::empty()
    };
    let hour_part: Seq<char> = if hours >= 1 {
        dec_str(hours) + " hours "@
    } else {
        Seq::empty()
    };
    let min_part: Seq<char> = if mins >= 1 {
        dec_str(mins) + " mins "@
    } else {
        Seq::empty()
    };
    day_part + hour_part + min_part + dec_str(secs) + " secs"@
}

/// A result whose outcome is deliberately ignored; saying so by name keeps
/// the intent visible at the call site.
pub trait Omittable {
    fn omit(&self) {
    }

    fn o(&self) {
    }
}

impl<T, E> Omittable for Result<T, E> {

}

impl Omittable for () {

}

/// Describe a span of `d` seconds in words, e.g. `1 days 2 hours 5 secs`;
/// a negative span renders as `<0 sec`.
pub fn format_duration(d: i64) -> (r: String)
    ensures
        d >= 0 ==> r@ == duration_str(d as int),
        d < 0 ==> r@ == "<0 sec"@,
{
    if d < 0 {
        return String::from_str("<0 sec");
    }
    let days = d / 86400;
    let r1 = d % 86400;
    let hours = r1 / 3600;
    let r2 = r1 % 3600;
    let mins = r2 / 60;
    let secs = r2 % 60;
    let mut out = String::new();
    if days >= 1 {
        out.append(u64_string(days as u64).as_str());
        out.append(" days ");
    }
    if hours >= 1 {
        out.append(u64_string(hours as u64).as_str());
        out.append(" hours ");
    }
    if mins >= 1 {
        out.append(u64_string(mins as u64).as_str());
        out.append(" mins ");
    }
    out.append(u64_string(secs as u64).as_str());
    out.append(" secs");
    proof {
        reveal_strlit(" days ");
        reveal_strlit(" hours ");
        reveal_strlit(" mins ");
        reveal_strlit(" secs");
        assert(out@ =~= duration_str(d as int));
    }
    out
}

} // verus!
