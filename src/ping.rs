//! Reading the output of the `ping` and `nslookup` tools.

use vstd::prelude::*;
use crate::metrics::PingResult;
use crate::netsh::{all_digits, contains_text, digits_value, is_digit, lower_of, lowercase, occurs, parse_unsigned, parsed_unsigned};
use crate::probe::{deviation_ok, loss_of, summarize_latency};
use crate::stats::ints;
use crate::analysis::texts;
use crate::text::same_text;

verus! {

pub open spec fn occurs_at(s: Seq<char>, pat: Seq<char>, i: int) -> bool {
    0 <= i && i + pat.len() <= s.len() && s.subrange(i, i + pat.len()) == pat
}

/// The index of the first occurrence of `pat` in `s`.
pub open spec fn first_at(s: Seq<char>, pat: Seq<char>, i: int) -> bool {
    occurs_at(s, pat, i) && forall|j: int| 0 <= j < i ==> !#[trigger] occurs_at(s, pat, j)
}

/// Where `pat` first occurs in `s`, if it does.
pub fn find_text(s: &str, pat: &str) -> (r: Option<usize>)
    ensures
        r matches Some(i) ==> first_at(s@, pat@, i as int),
        r is None ==> forall|j: int| !#[trigger] occurs_at(s@, pat@, j),
{
    let n = s.unicode_len();
    let m = pat.unicode_len();
    if m > n {
        return None;
    }
    let last = n - m;
    let mut i: usize = 0;
    loop
        invariant
            m <= n == s@.len(),
            m == pat@.len(),
            last == n - m,
            i <= last,
            forall|j: int| 0 <= j < i ==> !#[trigger] occurs_at(s@, pat@, j),
        decreases last - i,
    {
        if same_text(s.substring_char(i, i + m), pat) {
            return Some(i);
        }
        if i == last {
            return None;
        }
        i = i + 1;
    }
}

/// The text between the first and the second occurrence of `pat` (or to the
/// end when there is no second one); absent when `pat` does not occur.
pub open spec fn segment_after(s: Seq<char>, pat: Seq<char>) -> Option<Seq<char>> {
    if exists|i: int| first_at(s, pat, i) {
        let i = choose|i: int| first_at(s, pat, i);
        let rest = s.skip(i + pat.len());
        if exists|j: int| first_at(rest, pat, j) {
            Some(rest.take(choose|j: int| first_at(rest, pat, j)))
        } else {
            Some(rest)
        }
    } else {
        None
    }
}

proof fn lemma_first_unique(s: Seq<char>, pat: Seq<char>, i: int, k: int)
    requires
        first_at(s, pat, i),
        first_at(s, pat, k),
    ensures
        i == k,
{
    if i < k {
        assert(!occurs_at(s, pat, i));
    } else if k < i {
        assert(!occurs_at(s, pat, k));
    }
}

/// The text between the first and the second occurrence of `pat`.
pub fn text_after<'a>(s: &'a str, pat: &str) -> (r: Option<&'a str>)
    ensures
        r matches Some(t) ==> segment_after(s@, pat@) == Some(t@),
        r is None ==> segment_after(s@, pat@) is None,
{
    match find_text(s, pat) {
        None => {
            assert(!exists|i: int| first_at(s@, pat@, i));
            None
        },
        Some(i) => {
            proof {
                assert forall|k: int| first_at(s@, pat@, k) implies k == i by {
                    lemma_first_unique(s@, pat@, i as int, k);
                }
            }
            let n = s.unicode_len();
            let m = pat.unicode_len();
            let rest = s.substring_char(i + m, n);
            assert(rest@ =~= s@.skip(i + m));
            match find_text(rest, pat) {
                None => {
                    assert(!exists|j: int| first_at(rest@, pat@, j));
                    Some(rest)
                },
                Some(j) => {
                    proof {
                        assert forall|k: int| first_at(rest@, pat@, k) implies k == j by {
                            lemma_first_unique(rest@, pat@, j as int, k);
                        }
                    }
                    let t = rest.substring_char(0, j);
                    assert(t@ =~= rest@.take(j as int));
                    Some(t)
                },
            }
        },
    }
}

/// `s` from its first digit on.
pub open spec fn from_first_digit(s: Seq<char>) -> Seq<char>
    decreases s.len(),
{
    if s.len() > 0 && !is_digit(s[0]) { from_first_digit(s.drop_first()) } else { s }
}

pub open spec fn is_number_char(c: char) -> bool {
    is_digit(c) || c == '.'
}

/// The leading run of digits of `s`, dots included when `dots` holds.
pub open spec fn leading_run(s: Seq<char>, dots: bool) -> Seq<char>
    decreases s.len(),
{
    if s.len() > 0 && (is_digit(s[0]) || (dots && s[0] == '.')) {
        seq![s[0]] + leading_run(s.drop_first(), dots)
    } else {
        seq![]
    }
}

/// The number at the start of the first digit of `s`: its digits, with dots
/// when `dots` holds.
pub fn number_after_text(s: &str, dots: bool) -> (r: &str)
    ensures
        r@ == leading_run(from_first_digit(s@), dots),
{
    let n = s.unicode_len();
    let mut a: usize = 0;
    assert(s@.skip(0) =~= s@);
    while a < n && !('0' <= s.get_char(a) && s.get_char(a) <= '9')
        invariant
            a <= n == s@.len(),
            from_first_digit(s@.skip(a as int)) == from_first_digit(s@),
        decreases n - a,
    {
        assert(s@.skip(a as int).drop_first() =~= s@.skip(a + 1));
        a = a + 1;
    }
    let ghost t = s@.skip(a as int);
    assert(from_first_digit(t) == t);
    let mut b: usize = a;
    while b < n && (('0' <= s.get_char(b) && s.get_char(b) <= '9') || (dots && s.get_char(b) == '.'))
        invariant
            a <= b <= n == s@.len(),
            t == s@.skip(a as int),
            leading_run(t, dots) == s@.subrange(a as int, b as int) + leading_run(s@.skip(b as int), dots),
        decreases n - b,
    {
        assert(s@.skip(b as int).drop_first() =~= s@.skip(b + 1));
        assert(s@.subrange(a as int, b + 1) =~= s@.subrange(a as int, b as int) + seq![s@[b as int]]);
        b = b + 1;
    }
    assert(leading_run(s@.skip(b as int), dots) =~= seq![]);
    assert(s@.subrange(a as int, b as int) + seq![] =~= s@.subrange(a as int, b as int));
    s.substring_char(a, b)
}

pub open spec fn in_u32(v: int) -> Option<int> {
    if v <= u32::MAX { Some(v) } else { None }
}

/// Microseconds of the first three fraction digits of a millisecond value.
pub open spec fn fraction_us(b: Seq<char>) -> int {
    if b.len() >= 3 {
        digits_value(b.take(3))
    } else if b.len() == 2 {
        digits_value(b) * 10
    } else if b.len() == 1 {
        digits_value(b) * 100
    } else {
        0
    }
}

/// A millisecond value written with digits and at most one dot, in whole
/// microseconds (further fraction digits dropped); absent when malformed or
/// beyond `u32`.
pub open spec fn ms_text_us(t: Seq<char>) -> Option<int> {
    if exists|d: int| first_at(t, "."@, d) {
        let d = choose|d: int| first_at(t, "."@, d);
        let a = t.take(d);
        let b = t.skip(d + 1);
        if occurs(b, "."@) || a.len() + b.len() == 0 {
            None
        } else {
            in_u32(digits_value(a) * 1000 + fraction_us(b))
        }
    } else if t.len() == 0 {
        None
    } else {
        in_u32(digits_value(t) * 1000)
    }
}

proof fn lemma_no_dot(t: Seq<char>)
    requires
        forall|i: int| 0 <= i < t.len() ==> #[trigger] is_number_char(t[i]),
        !exists|d: int| first_at(t, "."@, d),
    ensures
        all_digits(t),
{
    reveal_strlit(".");
    assert forall|i: int| 0 <= i < t.len() implies is_digit(#[trigger] t[i]) by {
        assert(is_number_char(t[i]));
        if t[i] == '.' {
            assert(t.subrange(i, i + 1) =~= "."@);
            assert(occurs_at(t, "."@, i));
            let k = choose_first_dot(t, i);
            assert(first_at(t, "."@, k));
        }
    }
}

/// The first dot at or before `i`, where one sits at `i`.
proof fn choose_first_dot(t: Seq<char>, i: int) -> (k: int)
    requires
        occurs_at(t, "."@, i),
    ensures
        first_at(t, "."@, k),
    decreases i,
{
    if exists|j: int| 0 <= j < i && occurs_at(t, "."@, j) {
        let j = choose|j: int| 0 <= j < i && occurs_at(t, "."@, j);
        choose_first_dot(t, j)
    } else {
        i
    }
}

pub open spec fn pow10(n: nat) -> int
    decreases n,
{
    if n == 0 { 1 } else { 10 * pow10((n - 1) as nat) }
}

proof fn lemma_digits_below(s: Seq<char>)
    requires
        all_digits(s),
    ensures
        0 <= digits_value(s) < pow10(s.len()),
    decreases s.len(),
{
    if s.len() > 0 {
        assert(all_digits(s.drop_last()));
        lemma_digits_below(s.drop_last());
        assert(is_digit(s[s.len() - 1]));
    }
}

fn digits_number(s: &str, max: u32) -> (r: Option<u32>)
    requires
        all_digits(s@),
    ensures
        r matches Some(v) ==> v <= max,
        0 <= digits_value(s@),
        r == (if s@.len() == 0 { Some(0u32) } else if digits_value(s@) <= max { Some(digits_value(s@) as u32) } else { None }),
{
    proof {
        lemma_digits_below(s@);
    }
    if s.unicode_len() == 0 {
        return Some(0);
    }
    proof {
        assert(is_digit(s@[0]));
    }
    parse_unsigned(s, max)
}

fn fraction_of(b: &str) -> (r: u32)
    requires
        all_digits(b@),
    ensures
        r == fraction_us(b@),
{
    let k = b.unicode_len();
    if k >= 3 {
        let head = b.substring_char(0, 3);
        assert(head@ =~= b@.take(3));
        assert(all_digits(head@));
        proof {
            lemma_digits_below(head@);
            assert(pow10(3) == 1000) by {
                reveal_with_fuel(pow10, 4);
            }
        }
        match digits_number(head, 999) {
            Some(v) => v,
            None => 0,
        }
    } else {
        proof {
            lemma_digits_below(b@);
            assert(pow10(2) == 100 && pow10(1) == 10 && pow10(0) == 1) by {
                reveal_with_fuel(pow10, 3);
            }
        }
        let v = match digits_number(b, 99) {
            Some(v) => v,
            None => 0,
        };
        if k == 2 {
            v * 10
        } else if k == 1 {
            v * 100
        } else {
            0
        }
    }
}

/// Reads a millisecond value written with digits and at most one dot.
fn ms_to_us(t: &str) -> (r: Option<u32>)
    requires
        forall|i: int| 0 <= i < t@.len() ==> #[trigger] is_number_char(t@[i]),
    ensures
        r == (match ms_text_us(t@) { Some(v) => Some(v as u32), None => None }),
{
    match find_text(t, ".") {
        None => {
            proof {
                lemma_no_dot(t@);
            }
            if t.unicode_len() == 0 {
                return None;
            }
            match digits_number(t, 4294967) {
                Some(a) => Some(a * 1000),
                None => None,
            }
        },
        Some(d) => {
            proof {
                reveal_strlit(".");
                assert forall|k: int| first_at(t@, "."@, k) implies k == d by {
                    lemma_first_unique(t@, "."@, d as int, k);
                }
            }
            let n = t.unicode_len();
            let a = t.substring_char(0, d);
            let b = t.substring_char(d + 1, n);
            assert(a@ =~= t@.take(d as int));
            assert(b@ =~= t@.skip(d + 1));
            if contains_text(b, ".") || a.unicode_len() + b.unicode_len() == 0 {
                return None;
            }
            proof {
                assert forall|i: int| 0 <= i < a@.len() implies is_digit(#[trigger] a@[i]) by {
                    assert(a@[i] == t@[i]);
                    assert(is_number_char(t@[i]));
                    if t@[i] == '.' {
                        assert(t@.subrange(i, i + 1) =~= "."@);
                        assert(occurs_at(t@, "."@, i));
                    }
                }
                assert forall|i: int| 0 <= i < b@.len() implies is_digit(#[trigger] b@[i]) by {
                    assert(b@[i] == t@[d + 1 + i]);
                    assert(is_number_char(t@[d + 1 + i]));
                    if b@[i] == '.' {
                        assert(b@.subrange(i, i + 1) =~= "."@);
                        assert(b@.subrange(i, i + 1) == "."@);
                    }
                }
            }
            proof {
                lemma_digits_below(b@);
                if b@.len() >= 3 {
                    assert(all_digits(b@.take(3)));
                    lemma_digits_below(b@.take(3));
                }
                assert(fraction_us(b@) >= 0);
            }
            let whole = match digits_number(a, 4294967) {
                Some(v) => v,
                None => return None,
            };
            let frac = fraction_of(b);
            let total = whole as u64 * 1000 + frac as u64;
            if total > u32::MAX as u64 {
                None
            } else {
                Some(total as u32)
            }
        },
    }
}

/// The characters that `char::is_whitespace` accepts (Unicode `White_Space`).
pub open spec fn is_space(c: char) -> bool {
    ('\u{9}' <= c <= '\u{d}') || c == ' ' || c == '\u{85}' || c == '\u{a0}' || c == '\u{1680}'
        || ('\u{2000}' <= c <= '\u{200a}') || c == '\u{2028}' || c == '\u{2029}' || c == '\u{202f}'
        || c == '\u{205f}' || c == '\u{3000}'
}

fn space_char(c: char) -> (r: bool)
    ensures
        r == is_space(c),
{
    ('\u{9}' <= c && c <= '\u{d}') || c == ' ' || c == '\u{85}' || c == '\u{a0}' || c == '\u{1680}'
        || ('\u{2000}' <= c && c <= '\u{200a}') || c == '\u{2028}' || c == '\u{2029}' || c == '\u{202f}'
        || c == '\u{205f}' || c == '\u{3000}'
}

pub open spec fn trim_front(s: Seq<char>) -> Seq<char>
    decreases s.len(),
{
    if s.len() > 0 && is_space(s[0]) { trim_front(s.drop_first()) } else { s }
}

pub open spec fn trim_back(s: Seq<char>) -> Seq<char>
    decreases s.len(),
{
    if s.len() > 0 && is_space(s.last()) { trim_back(s.drop_last()) } else { s }
}

/// `s` without leading and trailing white space.
pub open spec fn trimmed(s: Seq<char>) -> Seq<char> {
    trim_back(trim_front(s))
}

/// `s` without leading and trailing white space.
pub fn trim_text(s: &str) -> (r: &str)
    ensures
        r@ == trimmed(s@),
{
    let n = s.unicode_len();
    let mut a: usize = 0;
    assert(s@.skip(0) =~= s@);
    while a < n && space_char(s.get_char(a))
        invariant
            a <= n == s@.len(),
            trim_front(s@.skip(a as int)) == trim_front(s@),
        decreases n - a,
    {
        assert(s@.skip(a as int).drop_first() =~= s@.skip(a + 1));
        a = a + 1;
    }
    let ghost f = s@.skip(a as int);
    assert(trim_front(f) == f);
    let mut b: usize = n;
    assert(f.take(n - a) =~= f);
    while b > a && space_char(s.get_char(b - 1))
        invariant
            a <= b <= n == s@.len(),
            f == s@.skip(a as int),
            trim_back(f.take(b - a)) == trim_back(f),
        decreases b,
    {
        assert(f.take(b - a).drop_last() =~= f.take(b - 1 - a));
        assert(f.take(b - a).last() == s@[b - 1]);
        b = b - 1;
    }
    assert(trim_back(f.take(b - a)) == f.take(b - a));
    let r = s.substring_char(a, b);
    assert(r@ =~= f.take(b - a));
    r
}

/// The leading part of `s` before any `:` or space.
pub open spec fn until_separator(s: Seq<char>) -> Seq<char>
    decreases s.len(),
{
    if s.len() > 0 && s[0] != ':' && s[0] != ' ' { seq![s[0]] + until_separator(s.drop_first()) } else { seq![] }
}

fn until_separator_text(s: &str) -> (r: &str)
    ensures
        r@ == until_separator(s@),
{
    let n = s.unicode_len();
    let mut b: usize = 0;
    assert(s@.skip(0) =~= s@);
    while b < n && s.get_char(b) != ':' && s.get_char(b) != ' '
        invariant
            b <= n == s@.len(),
            until_separator(s@) == s@.take(b as int) + until_separator(s@.skip(b as int)),
        decreases n - b,
    {
        assert(s@.skip(b as int).drop_first() =~= s@.skip(b + 1));
        assert(s@.take(b + 1) =~= s@.take(b as int) + seq![s@[b as int]]);
        b = b + 1;
    }
    assert(until_separator(s@.skip(b as int)) =~= seq![]);
    assert(s@.take(b as int) + seq![] =~= s@.take(b as int));
    let r = s.substring_char(0, b);
    assert(r@ =~= s@.take(b as int));
    r
}

/// The reply time a line reports, if any.
pub open spec fn reply_time(line: Seq<char>, lower: Seq<char>) -> Seq<u32> {
    if occurs(lower, "time="@) || occurs(lower, "time<"@) {
        match segment_after(line, "time"@) {
            Some(seg) => match ms_text_us(leading_run(from_first_digit(seg), true)) {
                Some(v) => seq![v as u32],
                None => seq![],
            },
            None => seq![],
        }
    } else {
        seq![]
    }
}

/// The replying address a line reports, if any.
pub open spec fn reply_address(line: Seq<char>, lower: Seq<char>) -> Option<Seq<char>> {
    if occurs(lower, "reply from"@) {
        match segment_after(line, "Reply from"@) {
            Some(seg) => Some(until_separator(trimmed(seg))),
            None => None,
        }
    } else {
        None
    }
}

/// The count of received replies a summary line reports, if any.
pub open spec fn reply_count(line: Seq<char>, lower: Seq<char>) -> Option<int> {
    if occurs(lower, "packets:"@) || occurs(lower, "received ="@) {
        match segment_after(line, "Received"@) {
            Some(seg) => parsed_unsigned(leading_run(from_first_digit(seg), false), u32::MAX as int),
            None => None,
        }
    } else {
        None
    }
}

/// `n` is `o` after reading one line of the tool's output, given with its
/// lowercase form.
pub open spec fn ping_line_read(o: PingResult, line: Seq<char>, lower: Seq<char>, n: PingResult) -> bool {
    &&& n == (PingResult {
        individual_times_us: n.individual_times_us,
        resolved_ip: n.resolved_ip,
        packets_received: n.packets_received,
        ..o
    })
    &&& n.individual_times_us@ == o.individual_times_us@ + reply_time(line, lower)
    &&& match reply_address(line, lower) {
        Some(ip) => n.resolved_ip matches Some(x) && x@ == ip,
        None => n.resolved_ip == o.resolved_ip,
    }
    &&& n.packets_received == match reply_count(line, lower) {
        Some(k) => k as u32,
        None => o.packets_received,
    }
}

fn reply_time_of(line: &str, lower: &str) -> (r: Option<u32>)
    ensures
        reply_time(line@, lower@) == match r { Some(v) => seq![v], None => seq![] },
{
    if contains_text(lower, "time=") || contains_text(lower, "time<") {
        match text_after(line, "time") {
            Some(seg) => {
                let num = number_after_text(seg, true);
                proof {
                    lemma_run_chars(from_first_digit(seg@), true);
                }
                ms_to_us(num)
            },
            None => None,
        }
    } else {
        None
    }
}

proof fn lemma_run_chars(s: Seq<char>, dots: bool)
    ensures
        forall|i: int| 0 <= i < leading_run(s, dots).len() ==> #[trigger] is_number_char(leading_run(s, dots)[i]),
        !dots ==> all_digits(leading_run(s, dots)),
    decreases s.len(),
{
    if s.len() > 0 && (is_digit(s[0]) || (dots && s[0] == '.')) {
        lemma_run_chars(s.drop_first(), dots);
        let r = leading_run(s, dots);
        assert(r == seq![s[0]] + leading_run(s.drop_first(), dots));
        assert forall|i: int| 0 <= i < r.len() implies #[trigger] is_number_char(r[i]) by {
            if i > 0 {
                assert(r[i] == leading_run(s.drop_first(), dots)[i - 1]);
            }
        }
        if !dots {
            assert forall|i: int| 0 <= i < r.len() implies is_digit(#[trigger] r[i]) by {
                if i > 0 {
                    assert(r[i] == leading_run(s.drop_first(), dots)[i - 1]);
                }
            }
        }
    }
}

/// Reads one line of the tool's output, given with its lowercase form.
pub fn read_ping_line_lowered(r: &mut PingResult, line: &str, lower: &str)
    ensures
        ping_line_read(*old(r), line@, lower@, *final(r)),
{
    let ghost before = r.individual_times_us@;
    if let Some(t) = reply_time_of(line, lower) {
        r.individual_times_us.push(t);
    }
    assert(r.individual_times_us@ =~= before + reply_time(line@, lower@));
    if contains_text(lower, "reply from") {
        if let Some(seg) = text_after(line, "Reply from") {
            let ip = until_separator_text(trim_text(seg));
            r.resolved_ip = Some(String::from_str(ip));
        }
    }
    if contains_text(lower, "packets:") || contains_text(lower, "received =") {
        if let Some(seg) = text_after(line, "Received") {
            let digits = number_after_text(seg, false);
            proof {
                lemma_run_chars(from_first_digit(seg@), false);
            }
            if let Some(k) = parse_unsigned(digits, u32::MAX) {
                r.packets_received = k;
            }
        }
    }
}

/// Reads one line of the tool's output.
pub fn read_ping_line(r: &mut PingResult, line: &str)
    ensures
        ping_line_read(*old(r), line@, lower_of(line@), *final(r)),
{
    let lower = lowercase(line);
    read_ping_line_lowered(r, line, lower.as_str());
}

/// The digits and dots of `s`, in order.
pub open spec fn number_chars(s: Seq<char>) -> Seq<char>
    decreases s.len(),
{
    if s.len() == 0 {
        seq![]
    } else if is_number_char(s.last()) {
        number_chars(s.drop_last()).push(s.last())
    } else {
        number_chars(s.drop_last())
    }
}

fn number_chars_text(s: &str) -> (r: String)
    ensures
        r@ == number_chars(s@),
        forall|i: int| 0 <= i < r@.len() ==> #[trigger] is_number_char(r@[i]),
{
    let n = s.unicode_len();
    let mut out = String::new();
    let mut i: usize = 0;
    assert(s@.take(0) =~= seq![]);
    assert(out@ =~= seq![]);
    while i < n
        invariant
            i <= n == s@.len(),
            out@ == number_chars(s@.take(i as int)),
            forall|k: int| 0 <= k < out@.len() ==> #[trigger] is_number_char(out@[k]),
        decreases n - i,
    {
        let c = s.get_char(i);
        let ghost before = out@;
        assert(s@.take(i + 1).drop_last() =~= s@.take(i as int));
        assert(s@.take(i + 1).last() == c);
        if ('0' <= c && c <= '9') || c == '.' {
            let one = s.substring_char(i, i + 1);
            assert(one@ =~= seq![c]);
            out.append(one);
            assert(out@ =~= before.push(c));
        }
        i = i + 1;
    }
    assert(s@.take(n as int) =~= s@);
    out
}

/// `n` is `o` after one comma-separated part of the summary line, given with
/// its lowercase form: a minimum, maximum or average in milliseconds.
pub open spec fn statistic_read(o: PingResult, part: Seq<char>, lower: Seq<char>, n: PingResult) -> bool {
    match ms_text_us(number_chars(part)) {
        Some(v) => if occurs(lower, "minimum"@) {
            n == (PingResult { min_us: Some(v as u32), ..o })
        } else if occurs(lower, "maximum"@) {
            n == (PingResult { max_us: Some(v as u32), ..o })
        } else if occurs(lower, "average"@) {
            n == (PingResult { avg_us: Some(v as u32), ..o })
        } else {
            n == o
        },
        None => n == o,
    }
}

/// Reads one comma-separated part of the summary line, given with its lowercase form.
pub fn read_statistic_lowered(r: &mut PingResult, part: &str, lower: &str)
    ensures
        statistic_read(*old(r), part@, lower@, *final(r)),
{
    let digits = number_chars_text(part);
    if let Some(v) = ms_to_us(digits.as_str()) {
        if contains_text(lower, "minimum") {
            r.min_us = Some(v);
        } else if contains_text(lower, "maximum") {
            r.max_us = Some(v);
        } else if contains_text(lower, "average") {
            r.avg_us = Some(v);
        }
    }
}

/// Reads one comma-separated part of the summary line.
pub fn read_statistic(r: &mut PingResult, part: &str)
    ensures
        statistic_read(*old(r), part@, lower_of(part@), *final(r)),
{
    let lower = lowercase(part);
    read_statistic_lowered(r, part, lower.as_str());
}

/// Whether a line is the summary of minimum, maximum and average times.
pub fn is_statistics_line(line: &str) -> (r: bool)
    ensures
        r == (occurs(lower_of(line@), "minimum"@) && occurs(lower_of(line@), "maximum"@)),
{
    let lower = lowercase(line);
    contains_text(lower.as_str(), "minimum") && contains_text(lower.as_str(), "maximum")
}

/// Completes a ping outcome once its output is read: the loss of the packets
/// sent (left as it is when none were sent) and the deviation of the reply
/// times once there are two of them.
pub fn finish_ping(r: &mut PingResult)
    requires
        old(r).individual_times_us@.len() <= 0x7fff_ffff,
    ensures
        *final(r) == (PingResult { packet_loss_bp: final(r).packet_loss_bp, stddev_us: final(r).stddev_us, ..*old(r) }),
        final(r).packet_loss_bp == if old(r).packets_sent > 0 {
            loss_of(old(r).packets_sent, old(r).packets_received)
        } else {
            old(r).packet_loss_bp
        },
        old(r).individual_times_us@.len() > 1 ==> final(r).stddev_us is Some
            && deviation_ok(ints(old(r).individual_times_us@), final(r).stddev_us->0 as int),
        old(r).individual_times_us@.len() <= 1 ==> final(r).stddev_us == old(r).stddev_us,
{
    let summary = summarize_latency(&r.individual_times_us, r.packets_sent, r.packets_received);
    if r.packets_sent > 0 {
        r.packet_loss_bp = summary.packet_loss_bp;
    }
    if r.individual_times_us.len() > 1 {
        r.stddev_us = summary.jitter_us;
    }
}

/// The answer-section state and the resolved addresses after one line of a
/// lookup's output, for `domain` asked of `server`.
pub open spec fn lookup_line_read(
    in_answer: bool,
    ips: Seq<Seq<char>>,
    line: Seq<char>,
    domain: Seq<char>,
    server: Seq<char>,
) -> (bool, Seq<Seq<char>>) {
    if occurs(line, "Name:"@) && occurs(line, domain) {
        (true, ips)
    } else if in_answer && occurs(line, "Address"@) {
        match segment_after(line, ":"@) {
            Some(seg) => if trimmed(seg).len() > 0 && !occurs(trimmed(seg), server) {
                (true, ips.push(trimmed(seg)))
            } else {
                (true, ips)
            },
            None => (true, ips),
        }
    } else {
        (in_answer, ips)
    }
}

/// Reads one line of a lookup's output for `domain` asked of `server`.
pub fn read_lookup_line(in_answer: &mut bool, ips: &mut Vec<String>, line: &str, domain: &str, server: &str)
    ensures
        (*final(in_answer), texts(final(ips)@)) == lookup_line_read(*old(in_answer), texts(old(ips)@), line@, domain@, server@),
{
    let ghost before = texts(ips@);
    if contains_text(line, "Name:") && contains_text(line, domain) {
        *in_answer = true;
        return;
    }
    if *in_answer && contains_text(line, "Address") {
        if let Some(seg) = text_after(line, ":") {
            let ip = trim_text(seg);
            if ip.unicode_len() > 0 && !contains_text(ip, server) {
                ips.push(String::from_str(ip));
                assert(texts(ips@) =~= before.push(ip@));
            }
        }
    }
}

} // verus!
