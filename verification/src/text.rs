//! Character-level helpers on strings: equality with a literal, prefix and
//! substring tests, dotted joins, decimal parsing and hexadecimal formatting.

use vstd::prelude::*;

verus! {

/// The characters of `s`, in order.
pub fn chars_of(s: &str) -> (r: Vec<char>)
    ensures
        r@ == s@,
{
    let mut out: Vec<char> = Vec::new();
    let chars = s.chars();
    for c in it: chars
        invariant
            out@ == it.seq().take(it.index() as int),
            it.seq() == s@,
    {
        out.push(c);
    }
    out
}

/// Whether the two strings hold the same characters.
pub fn same_text(a: &str, b: &str) -> (r: bool)
    ensures
        r == (a@ == b@),
{
    let x = chars_of(a);
    let y = chars_of(b);
    if x.len() != y.len() {
        return false;
    }
    let mut i: usize = 0;
    while i < x.len()
        invariant
            i <= x.len(),
            x.len() == y.len(),
            x@ == a@,
            y@ == b@,
            forall|k: int| 0 <= k < i ==> x@[k] == y@[k],
        decreases x.len() - i,
    {
        if x[i] != y[i] {
            return false;
        }
        i += 1;
    }
    assert(x@ =~= y@);
    true
}

/// Whether `pattern` occurs in `text` at offset `at`.
pub open spec fn occurs_at(text: Seq<char>, pattern: Seq<char>, at: int) -> bool {
    &&& 0 <= at
    &&& at + pattern.len() <= text.len()
    &&& text.subrange(at, at + pattern.len()) == pattern
}

/// Whether `pattern` occurs somewhere in `text`.
pub open spec fn spec_contains(text: Seq<char>, pattern: Seq<char>) -> bool {
    exists|at: int| occurs_at(text, pattern, at)
}

fn matches_at(text: &Vec<char>, pattern: &Vec<char>, at: usize) -> (r: bool)
    requires
        at + pattern.len() <= text.len(),
    ensures
        r == occurs_at(text@, pattern@, at as int),
{
    let mut j: usize = 0;
    while j < pattern.len()
        invariant
            j <= pattern.len(),
            at + pattern.len() <= text.len(),
            forall|k: int| 0 <= k < j ==> text@[at + k] == pattern@[k],
        decreases pattern.len() - j,
    {
        if text[at + j] != pattern[j] {
            assert(text@.subrange(at as int, at + pattern.len())[j as int] != pattern@[j as int]);
            return false;
        }
        j += 1;
    }
    assert(text@.subrange(at as int, at + pattern.len()) =~= pattern@);
    true
}

/// Whether `prefix` is a prefix of `text`.
pub fn starts_with(text: &str, prefix: &str) -> (r: bool)
    ensures
        r == prefix@.is_prefix_of(text@),
{
    let t = chars_of(text);
    let p = chars_of(prefix);
    if p.len() > t.len() {
        return false;
    }
    let r = matches_at(&t, &p, 0);
    assert(t@.subrange(0, p@.len() as int) == p@ <==> p@.is_prefix_of(t@)) by {
        if p@.is_prefix_of(t@) {
            assert(t@.subrange(0, p@.len() as int) =~= p@);
        }
    }
    r
}

/// Whether `pattern` occurs somewhere in `text`.
pub fn contains(text: &str, pattern: &str) -> (r: bool)
    ensures
        r == spec_contains(text@, pattern@),
{
    let t = chars_of(text);
    let p = chars_of(pattern);
    if p.len() > t.len() {
        return false;
    }
    let last: usize = t.len() - p.len();
    let mut at: usize = 0;
    while at < last
        invariant
            at <= last,
            last == t.len() - p.len(),
            p.len() <= t.len(),
            t@ == text@,
            p@ == pattern@,
            forall|k: int| 0 <= k < at ==> !occurs_at(t@, p@, k),
        decreases last - at,
    {
        if matches_at(&t, &p, at) {
            return true;
        }
        at += 1;
    }
    matches_at(&t, &p, last)
}

/// The segments of a path, each as its characters.
pub open spec fn path_view(path: Vec<String>) -> Seq<Seq<char>> {
    Seq::new(path.len() as nat, |i: int| path[i]@)
}

/// The segments joined by dots: `a.b.c` for `[a, b, c]`, nothing for `[]`.
pub open spec fn spec_join_dotted(path: Seq<Seq<char>>) -> Seq<char>
    decreases path.len(),
{
    if path.len() == 0 {
        Seq::empty()
    } else if path.len() == 1 {
        path[0]
    } else {
        spec_join_dotted(path.drop_last()) + seq!['.'] + path.last()
    }
}

/// Joins the segments of `path` with dots.
pub fn join_dotted(path: &Vec<String>) -> (r: String)
    ensures
        r@ == spec_join_dotted(path_view(*path)),
{
    let mut out = String::new();
    let mut i: usize = 0;
    while i < path.len()
        invariant
            i <= path.len(),
            out@ == spec_join_dotted(path_view(*path).take(i as int)),
        decreases path.len() - i,
    {
        proof {
            reveal_strlit(".");
            let next = path_view(*path).take(i + 1);
            assert(next.drop_last() =~= path_view(*path).take(i as int));
            assert(next.last() == path[i as int]@);
            if i == 0 {
                assert(out@ + path[0]@ =~= path[0]@);
            }
        }
        if i > 0 {
            out.append(".");
        }
        out.append(path[i].as_str());
        i += 1;
    }
    assert(path_view(*path).take(path.len() as int) =~= path_view(*path));
    out
}

/// Whether `c` is one of the ten ASCII digits.
pub open spec fn is_digit(c: char) -> bool {
    '0' <= c <= '9'
}

/// Whether every character of `s` is an ASCII digit.
pub open spec fn all_digits(s: Seq<char>) -> bool {
    forall|i: int| 0 <= i < s.len() ==> is_digit(#[trigger] s[i])
}

/// The number that a string of ASCII digits writes in base ten.
pub open spec fn decimal_value(s: Seq<char>) -> nat
    decreases s.len(),
{
    if s.len() == 0 {
        0
    } else {
        (decimal_value(s.drop_last()) * 10 + (s.last() as int - '0' as int)) as nat
    }
}

/// The digits of a signed decimal numeral: what follows one leading `+` or
/// `-`, or the whole string where there is no sign.
pub open spec fn numeral_digits(s: Seq<char>) -> Seq<char> {
    if s.len() > 0 && (s[0] == '-' || s[0] == '+') {
        s.subrange(1, s.len() as int)
    } else {
        s
    }
}

/// The integer that a signed decimal numeral writes, whatever its size.
pub open spec fn numeral_value(s: Seq<char>) -> int {
    if s.len() > 0 && s[0] == '-' {
        -(decimal_value(numeral_digits(s)) as int)
    } else {
        decimal_value(numeral_digits(s)) as int
    }
}

/// Whether `s` is a signed decimal numeral: an optional sign, then at least
/// one digit and nothing else.
pub open spec fn spec_is_numeral(s: Seq<char>) -> bool {
    numeral_digits(s).len() > 0 && all_digits(numeral_digits(s))
}

/// Whether the numeral has a minus sign, and the number that its digits
/// write, where `s` is a numeral and that number fits in 64 bits.
pub open spec fn spec_parse_signed(s: Seq<char>) -> Option<(bool, u64)> {
    if spec_is_numeral(s) && decimal_value(numeral_digits(s)) <= u64::MAX {
        Some((s[0] == '-', decimal_value(numeral_digits(s)) as u64))
    } else {
        None
    }
}

/// A longer string of digits writes a number that is no smaller.
pub proof fn lemma_decimal_value_grows(s: Seq<char>, n: int)
    requires
        all_digits(s),
        0 <= n <= s.len(),
    ensures
        decimal_value(s.take(n)) <= decimal_value(s),
    decreases s.len(),
{
    if n < s.len() {
        lemma_decimal_value_grows(s.drop_last(), n);
        assert(s.drop_last().take(n) =~= s.take(n));
        assert(is_digit(s.last()));
    } else {
        assert(s.take(n) =~= s);
    }
}

/// Reads a signed decimal numeral whose digits write a number of at most 64
/// bits: whether it has a minus sign, and that number.
#[verifier::loop_isolation(false)]
pub fn parse_signed(s: &str) -> (r: Option<(bool, u64)>)
    ensures
        r == spec_parse_signed(s@),
{
    let chars = chars_of(s);
    let n = chars.len();
    let negative = n > 0 && chars[0] == '-';
    let start: usize = if n > 0 && (chars[0] == '-' || chars[0] == '+') { 1 } else { 0 };
    if start == n {
        return None;
    }
    let ghost digits = numeral_digits(s@);
    assert(digits =~= chars@.subrange(start as int, n as int));
    let limit: u128 = 0xffff_ffff_ffff_ffff;
    let mut acc: u128 = 0;
    let mut i: usize = start;
    while i < n
        invariant
            start <= i <= n,
            all_digits(digits.take(i - start)),
            acc <= limit,
            acc == decimal_value(digits.take(i - start)),
        decreases n - i,
    {
        let c = chars[i];
        if !(c >= '0' && c <= '9') {
            assert(!is_digit(digits[i - start]));
            return None;
        }
        let d: u128 = (c as u32 - '0' as u32) as u128;
        let next: u128 = acc * 10 + d;
        proof {
            let grown = digits.take(i - start + 1);
            assert(grown.drop_last() =~= digits.take(i - start));
            assert(grown.last() == c);
            assert forall|k: int| 0 <= k < grown.len() implies is_digit(#[trigger] grown[k]) by {
                if k < grown.len() - 1 {
                    assert(grown[k] == digits.take(i - start)[k]);
                }
            }
            assert(next == decimal_value(grown));
        }
        if next > limit {
            // Too large already; the rest decides only whether it is a numeral at all.
            let mut j: usize = i + 1;
            while j < n
                invariant
                    i < j <= n,
                    all_digits(digits.take(j - start)),
                decreases n - j,
            {
                let e = chars[j];
                if !(e >= '0' && e <= '9') {
                    assert(!is_digit(digits[j - start]));
                    return None;
                }
                proof {
                    let grown = digits.take(j - start + 1);
                    assert forall|k: int| 0 <= k < grown.len() implies is_digit(
                        #[trigger] grown[k],
                    ) by {
                        if k < grown.len() - 1 {
                            assert(grown[k] == digits.take(j - start)[k]);
                        }
                    }
                }
                j += 1;
            }
            proof {
                assert(digits.take(n - start) =~= digits);
                lemma_decimal_value_grows(digits, i - start + 1);
            }
            return None;
        }
        acc = next;
        i += 1;
    }
    assert(digits.take(n - start) =~= digits);
    Some((negative, acc as u64))
}

/// The sixteen hexadecimal digits, upper case.
pub open spec fn hex_digits() -> Seq<char> {
    seq!['0', '1', '2', '3', '4', '5', '6', '7', '8', '9', 'A', 'B', 'C', 'D', 'E', 'F']
}

/// `n` in base sixteen with upper-case digits and no leading zero (`0` for 0).
pub open spec fn spec_upper_hex(n: nat) -> Seq<char>
    decreases n,
{
    if n < 16 {
        seq![hex_digits()[n as int]]
    } else {
        spec_upper_hex(n / 16).push(hex_digits()[(n % 16) as int])
    }
}

fn hex_digit_text(d: u64) -> (r: &'static str)
    requires
        d < 16,
    ensures
        r@ == seq![hex_digits()[d as int]],
{
    proof {
        reveal_strlit("0");
        reveal_strlit("1");
        reveal_strlit("2");
        reveal_strlit("3");
        reveal_strlit("4");
        reveal_strlit("5");
        reveal_strlit("6");
        reveal_strlit("7");
        reveal_strlit("8");
        reveal_strlit("9");
        reveal_strlit("A");
        reveal_strlit("B");
        reveal_strlit("C");
        reveal_strlit("D");
        reveal_strlit("E");
        reveal_strlit("F");
    }
    let r = if d == 0 {
        "0"
    } else if d == 1 {
        "1"
    } else if d == 2 {
        "2"
    } else if d == 3 {
        "3"
    } else if d == 4 {
        "4"
    } else if d == 5 {
        "5"
    } else if d == 6 {
        "6"
    } else if d == 7 {
        "7"
    } else if d == 8 {
        "8"
    } else if d == 9 {
        "9"
    } else if d == 10 {
        "A"
    } else if d == 11 {
        "B"
    } else if d == 12 {
        "C"
    } else if d == 13 {
        "D"
    } else if d == 14 {
        "E"
    } else {
        "F"
    };
    r
}

/// Writes `n` in base sixteen with upper-case digits.
pub fn upper_hex(n: u64) -> (r: String)
    ensures
        r@ == spec_upper_hex(n as nat),
    decreases n,
{
    if n < 16 {
        String::from_str(hex_digit_text(n))
    } else {
        let mut out = upper_hex(n / 16);
        out.append(hex_digit_text(n % 16));
        out
    }
}

} // verus!
