//! Naming of the debug server's socket file, and reading a process id
//! back out of such a name.

use vstd::prelude::*;

use crate::text::{decimal, decimal_text, digit_char};

verus! {

/// The first part of a debug socket's file name.
pub open spec fn socket_prefix() -> Seq<char> {
    "iced-debug-"@
}

/// The last part of a debug socket's file name.
pub open spec fn socket_suffix() -> Seq<char> {
    ".sock"@
}

/// `iced-debug-<pid>.sock`
pub open spec fn socket_name(pid: nat) -> Seq<char> {
    socket_prefix() + decimal(pid) + socket_suffix()
}

/// The file name of the debug socket of process `pid`.
pub fn socket_file_name(pid: u32) -> (s: String)
    ensures
        s@ == socket_name(pid as nat),
{
    let mut s = String::new();
    s.append("iced-debug-");
    s.append(decimal_text(pid as usize).as_str());
    s.append(".sock");
    s
}

/// `/tmp/iced-debug-<pid>.sock`
pub open spec fn socket_path_text(pid: nat) -> Seq<char> {
    "/tmp/"@ + socket_name(pid)
}

/// The path of the debug socket of process `pid`.
pub fn socket_path_for(pid: u32) -> (s: String)
    ensures
        s@ == socket_path_text(pid as nat),
{
    let mut s = String::new();
    s.append("/tmp/");
    s.append(socket_file_name(pid).as_str());
    s
}

/// An ASCII decimal digit.
pub open spec fn is_digit(c: char) -> bool {
    '0' <= c <= '9'
}

/// The value of an ASCII decimal digit.
pub open spec fn digit_value(c: char) -> int {
    c as int - '0' as int
}

/// Every character is a decimal digit.
pub open spec fn all_digits(s: Seq<char>) -> bool {
    forall|i: int| 0 <= i < s.len() ==> is_digit(#[trigger] s[i])
}

/// The number that a string of decimal digits denotes.
pub open spec fn digits_value(s: Seq<char>) -> int
    decreases s.len(),
{
    if s.len() == 0 {
        0
    } else {
        10 * digits_value(s.drop_last()) + digit_value(s.last())
    }
}

/// What `str::parse::<i32>` gives: an optional `+` or `-`, then one or
/// more decimal digits whose value fits in an `i32`.
pub open spec fn parsed_i32(s: Seq<char>) -> Option<i32> {
    let signed = s.len() > 0 && (s[0] == '-' || s[0] == '+');
    let body = if signed { s.drop_first() } else { s };
    let magnitude = digits_value(body);
    let v = if s.len() > 0 && s[0] == '-' { -magnitude } else { magnitude };
    if body.len() == 0 || !all_digits(body) {
        None
    } else if i32::MIN <= v <= i32::MAX {
        Some(v as i32)
    } else {
        None
    }
}

/// Values above `i32::MAX + 1` are all the same to the parser.
pub open spec fn parse_cap() -> int {
    2147483649
}

proof fn lemma_capped_step(v: int, d: int)
    requires
        v >= 0,
        0 <= d < 10,
    ensures
        (if 10 * (if v < parse_cap() { v } else { parse_cap() }) + d < parse_cap() {
            10 * (if v < parse_cap() { v } else { parse_cap() }) + d
        } else {
            parse_cap()
        }) == (if 10 * v + d < parse_cap() { 10 * v + d } else { parse_cap() }),
{
}

proof fn lemma_digits_value_nonneg(s: Seq<char>)
    requires
        all_digits(s),
    ensures
        digits_value(s) >= 0,
    decreases s.len(),
{
    if s.len() > 0 {
        assert(all_digits(s.drop_last())) by {
            assert forall|i: int| 0 <= i < s.drop_last().len() implies is_digit(
                #[trigger] s.drop_last()[i],
            ) by {
                assert(s.drop_last()[i] == s[i]);
            }
        }
        lemma_digits_value_nonneg(s.drop_last());
        assert(is_digit(s[s.len() - 1]));
    }
}

/// Parses a decimal `i32` the way `str::parse::<i32>` does.
pub fn parse_i32(s: &str) -> (r: Option<i32>)
    ensures
        r == parsed_i32(s@),
{
    let n = s.unicode_len();
    if n == 0 {
        return None;
    }
    let first = s.get_char(0);
    let negative = first == '-';
    let start: usize = if first == '-' || first == '+' { 1 } else { 0 };
    let ghost body = if start == 1 { s@.drop_first() } else { s@ };
    assert(body =~= s@.subrange(start as int, n as int));
    if start == n {
        return None;
    }
    let mut acc: u64 = 0;
    let mut i: usize = start;
    while i < n
        invariant
            n == s@.len(),
            n > 0,
            start == (if s@[0] == '-' || s@[0] == '+' { 1usize } else { 0usize }),
            negative == (s@[0] == '-'),
            start <= i <= n,
            all_digits(s@.subrange(start as int, i as int)),
            digits_value(s@.subrange(start as int, i as int)) >= 0,
            acc == (if digits_value(s@.subrange(start as int, i as int)) < parse_cap() {
                digits_value(s@.subrange(start as int, i as int))
            } else {
                parse_cap()
            }),
        decreases n - i,
    {
        let c = s.get_char(i);
        if !(c >= '0' && c <= '9') {
            proof {
                let b = if start == 1 { s@.drop_first() } else { s@ };
                assert(b =~= s@.subrange(start as int, n as int));
                assert(b[i - start] == c);
                assert(!is_digit(b[i - start]));
            }
            return None;
        }
        let d: u64 = (c as u32 - 48) as u64;
        let ghost prev = s@.subrange(start as int, i as int);
        let ghost next = s@.subrange(start as int, i + 1);
        proof {
            assert(next.drop_last() =~= prev);
            assert(next.last() == c);
            lemma_capped_step(digits_value(prev), d as int);
            assert forall|k: int| 0 <= k < next.len() implies is_digit(#[trigger] next[k]) by {
                if k < prev.len() {
                    assert(next[k] == prev[k]);
                }
            }
        }
        acc = acc * 10 + d;
        if acc > 2147483649 {
            acc = 2147483649;
        }
        i = i + 1;
    }
    if negative {
        if acc <= 2147483648 {
            Some((0 - (acc as i64)) as i32)
        } else {
            None
        }
    } else {
        if acc <= 2147483647 {
            Some(acc as i32)
        } else {
            None
        }
    }
}

/// The text between `iced-debug-` and `.sock`, when the name has that form.
pub open spec fn socket_pid_text(name: Seq<char>) -> Option<Seq<char>> {
    let pre = socket_prefix();
    let suf = socket_suffix();
    if name.len() >= pre.len() && name.take(pre.len() as int) == pre {
        let rest = name.skip(pre.len() as int);
        if rest.len() >= suf.len() && rest.skip(rest.len() - suf.len()) == suf {
            Some(rest.take(rest.len() - suf.len()))
        } else {
            None
        }
    } else {
        None
    }
}

/// The process id that a debug socket's file name carries.
pub open spec fn socket_pid(name: Seq<char>) -> Option<i32> {
    match socket_pid_text(name) {
        Some(t) => parsed_i32(t),
        None => None,
    }
}

/// Whether `s` begins with `p`.
fn has_prefix(s: &str, p: &str) -> (b: bool)
    ensures
        b == (p@.len() <= s@.len() && s@.take(p@.len() as int) == p@),
{
    let n = s.unicode_len();
    let m = p.unicode_len();
    if m > n {
        return false;
    }
    let mut i: usize = 0;
    while i < m
        invariant
            n == s@.len(),
            m == p@.len(),
            m <= n,
            i <= m,
            forall|k: int| 0 <= k < i ==> s@[k] == p@[k],
        decreases m - i,
    {
        if s.get_char(i) != p.get_char(i) {
            assert(s@.take(m as int)[i as int] != p@[i as int]);
            return false;
        }
        i = i + 1;
    }
    assert(s@.take(m as int) =~= p@);
    true
}

/// Whether `s` ends with `p`.
fn has_suffix(s: &str, p: &str) -> (b: bool)
    ensures
        b == (p@.len() <= s@.len() && s@.skip(s@.len() - p@.len()) == p@),
{
    let n = s.unicode_len();
    let m = p.unicode_len();
    if m > n {
        return false;
    }
    let off = n - m;
    let mut i: usize = 0;
    while i < m
        invariant
            n == s@.len(),
            m == p@.len(),
            off == n - m,
            i <= m,
            forall|k: int| 0 <= k < i ==> s@[off + k] == p@[k],
        decreases m - i,
    {
        if s.get_char(off + i) != p.get_char(i) {
            assert(s@.skip(off as int)[i as int] != p@[i as int]);
            return false;
        }
        i = i + 1;
    }
    assert(s@.skip(off as int) =~= p@);
    true
}

/// Reads the process id out of a debug socket's file name
/// (`iced-debug-<pid>.sock`), if the name has that form and the id parses.
pub fn stale_socket_pid(file_name: &str) -> (r: Option<i32>)
    ensures
        r == socket_pid(file_name@),
{
    let prefix = "iced-debug-";
    let suffix = ".sock";
    if !has_prefix(file_name, prefix) {
        return None;
    }
    let n = file_name.unicode_len();
    let rest = file_name.substring_char(prefix.unicode_len(), n);
    assert(rest@ =~= file_name@.skip(prefix@.len() as int));
    if !has_suffix(rest, suffix) {
        return None;
    }
    let body = rest.substring_char(0, rest.unicode_len() - suffix.unicode_len());
    assert(body@ =~= rest@.take(rest@.len() - suffix@.len()));
    parse_i32(body)
}

proof fn lemma_digit_char(d: int)
    requires
        0 <= d < 10,
    ensures
        is_digit(digit_char(d)),
        digit_value(digit_char(d)) == d,
{
}

/// Decimal notation reads back: it is a non-empty string of the digits `0`
/// to `9` that denotes `n`, with no leading zero.
pub proof fn lemma_decimal_digits(n: nat)
    ensures
        decimal(n).len() >= 1,
        all_digits(decimal(n)),
        digits_value(decimal(n)) == n,
        decimal(n).len() > 1 ==> decimal(n)[0] != '0',
    decreases n,
{
    if n < 10 {
        lemma_digit_char(n as int);
        assert(decimal(n).drop_last() =~= Seq::<char>::empty());
        assert(digits_value(Seq::<char>::empty()) == 0);
        assert(digits_value(decimal(n)) == 10 * digits_value(decimal(n).drop_last()) + digit_value(decimal(n).last()));
    } else {
        lemma_decimal_digits(n / 10);
        lemma_digit_char((n % 10) as int);
        let s = decimal(n);
        assert(s.drop_last() =~= decimal(n / 10));
        assert(s.last() == digit_char((n % 10) as int));
        assert(digits_value(s) == 10 * digits_value(decimal(n / 10)) + digit_value(s.last()));
        assert(n == 10 * (n / 10) + n % 10);
        assert forall|i: int| 0 <= i < s.len() implies is_digit(#[trigger] s[i]) by {
            if i < s.len() - 1 {
                assert(s[i] == decimal(n / 10)[i]);
            }
        }
        if decimal(n / 10).len() == 1 {
            assert(n / 10 < 10) by {
                if n / 10 >= 10 {
                    assert(decimal(n / 10).len() == decimal(n / 10 / 10).len() + 1);
                }
            }
            lemma_digit_char((n / 10) as int);
        }
        assert(s[0] == decimal(n / 10)[0]);
    }
}

/// Reading the process id back out of the socket file name made for
/// `pid` gives `pid`, for every id that fits in an `i32`.
pub proof fn lemma_socket_name_round_trip(pid: u32)
    requires
        pid <= i32::MAX,
    ensures
        socket_pid(socket_name(pid as nat)) == Some(pid as i32),
{
    reveal_strlit("iced-debug-");
    reveal_strlit(".sock");
    let d = decimal(pid as nat);
    lemma_decimal_digits(pid as nat);
    let name = socket_name(pid as nat);
    assert(name.take(socket_prefix().len() as int) =~= socket_prefix());
    let rest = name.skip(socket_prefix().len() as int);
    assert(rest =~= d + socket_suffix());
    assert(rest.skip(rest.len() - socket_suffix().len()) =~= socket_suffix());
    assert(rest.take(rest.len() - socket_suffix().len()) =~= d);
    assert(is_digit(d[0]));
}

} // verus!
