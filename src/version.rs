use vstd::prelude::*;

use crate::text::joined;

verus! {

/// A three-part version number `major.minor.patch`.
#[derive(Clone, Copy, PartialEq, Eq, PartialOrd, Ord, Hash, Debug)]
pub struct Version {
    pub version: [u8; 3],
}

/// A decimal digit.
pub open spec fn is_digit(c: char) -> bool {
    '0' <= c && c <= '9'
}

/// The value of decimal digit `c`.
pub open spec fn digit_value(c: char) -> int {
    c as int - '0' as int
}

/// The number that the decimal digits `s` spell.
pub open spec fn decimal_value(s: Seq<char>) -> int
    decreases s.len(),
{
    if s.len() == 0 {
        0
    } else {
        decimal_value(s.drop_last()) * 10 + digit_value(s.last())
    }
}

/// `s` as a byte-sized decimal number: an optional `+`, then at least one digit, with a
/// value of at most 255 (leading zeros allowed).
pub open spec fn parse_u8(s: Seq<char>) -> Option<u8> {
    let body = unsigned_body(s);
    if body.len() > 0 && all_digits(body) && decimal_value(body) <= 255 {
        Some(decimal_value(body) as u8)
    } else {
        None
    }
}

/// `s` without a leading `+`.
pub open spec fn unsigned_body(s: Seq<char>) -> Seq<char> {
    if s.len() > 0 && s[0] == '+' {
        s.subrange(1, s.len() as int)
    } else {
        s
    }
}

/// Every character of `s` is a decimal digit.
pub open spec fn all_digits(s: Seq<char>) -> bool {
    forall|i: int| 0 <= i < s.len() ==> is_digit(#[trigger] s[i])
}

/// Positions of the dots in `s`, in increasing order.
pub open spec fn dot_positions(s: Seq<char>) -> Seq<int>
    decreases s.len(),
{
    if s.len() == 0 {
        Seq::empty()
    } else if s.last() == '.' {
        dot_positions(s.drop_last()).push(s.len() - 1)
    } else {
        dot_positions(s.drop_last())
    }
}

/// The version that `s` spells: three dot-separated byte-sized numbers.
pub open spec fn version_of(s: Seq<char>) -> Option<[u8; 3]> {
    let d = dot_positions(s);
    if d.len() != 2 {
        None
    } else {
        match (
            parse_u8(s.subrange(0, d[0])),
            parse_u8(s.subrange(d[0] + 1, d[1])),
            parse_u8(s.subrange(d[1] + 1, s.len() as int)),
        ) {
            (Some(a), Some(b), Some(c)) => Some([a, b, c]),
            _ => None,
        }
    }
}

/// The character of decimal digit `d`.
pub open spec fn digit_char(d: nat) -> char {
    ((d + '0' as nat) as u32) as char
}

/// The decimal digits of `n`, without leading zeros.
pub open spec fn decimal_text(n: nat) -> Seq<char>
    decreases n,
{
    if n < 10 {
        seq![digit_char(n)]
    } else {
        decimal_text(n / 10).push(digit_char(n % 10))
    }
}

/// The dots of `s` lie inside it, in increasing order.
proof fn lemma_dot_positions(s: Seq<char>)
    ensures
        forall|k: int|
            0 <= k < dot_positions(s).len() ==> 0 <= #[trigger] dot_positions(s)[k] < s.len()
                && s[dot_positions(s)[k]] == '.',
        forall|k: int, l: int|
            0 <= k < l < dot_positions(s).len() ==> #[trigger] dot_positions(s)[k]
                < #[trigger] dot_positions(s)[l],
        dot_positions(s).len() <= s.len(),
    decreases s.len(),
{
    if s.len() > 0 {
        let q = s.drop_last();
        lemma_dot_positions(q);
        assert forall|k: int| 0 <= k < dot_positions(q).len() implies s[dot_positions(q)[k]]
            == '.' by {
            assert(q[dot_positions(q)[k]] == '.');
        }
    }
}

/// The byte-sized number that `s[lo..hi]` spells, if it spells one.
fn parse_u8_at(s: &str, lo: usize, hi: usize) -> (r: Option<u8>)
    requires
        lo <= hi <= s@.len(),
    ensures
        r == parse_u8(s@.subrange(lo as int, hi as int)),
{
    let ghost part = s@.subrange(lo as int, hi as int);
    let mut start = lo;
    if lo < hi && s.get_char(lo) == '+' {
        start = lo + 1;
    }
    let ghost body = s@.subrange(start as int, hi as int);
    assert(body == unsigned_body(part));
    if start == hi {
        return None;
    }
    let mut value: u32 = 0;
    let mut i = start;
    while i < hi
        invariant
            lo <= start <= i <= hi <= s@.len(),
            body == s@.subrange(start as int, hi as int),
            part == s@.subrange(lo as int, hi as int),
            body == unsigned_body(part),
            forall|j: int| start <= j < i ==> is_digit(#[trigger] s@[j]),
            value as int == if decimal_value(s@.subrange(start as int, i as int)) < 256 {
                decimal_value(s@.subrange(start as int, i as int))
            } else {
                256
            },
        decreases hi - i,
    {
        let c = s.get_char(i);
        if !('0' <= c && c <= '9') {
            assert(body[i - start] == s@[i as int]);
            assert(!is_digit(body[i - start]));
            assert(!all_digits(body));
            return None;
        }
        let ghost prev = s@.subrange(start as int, i as int);
        assert(s@.subrange(start as int, i + 1).drop_last() =~= prev);
        let ghost dv = decimal_value(prev);
        assert(dv >= 0) by {
            lemma_decimal_nonneg(prev);
        }
        let d = (c as u32) - ('0' as u32);
        let next = value * 10 + d;
        value = if next < 256 {
            next
        } else {
            256
        };
        i = i + 1;
    }
    assert(s@.subrange(start as int, hi as int) =~= body);
    assert forall|j: int| 0 <= j < body.len() implies is_digit(#[trigger] body[j]) by {
        assert(body[j] == s@[start + j]);
    }
    if value <= 255 {
        Some(value as u8)
    } else {
        None
    }
}

/// Digits spell a number that is not negative.
proof fn lemma_decimal_nonneg(s: Seq<char>)
    requires
        forall|i: int| 0 <= i < s.len() ==> is_digit(#[trigger] s[i]),
    ensures
        decimal_value(s) >= 0,
    decreases s.len(),
{
    if s.len() > 0 {
        let q = s.drop_last();
        assert forall|i: int| 0 <= i < q.len() implies is_digit(#[trigger] q[i]) by {
            assert(q[i] == s[i]);
        }
        lemma_decimal_nonneg(q);
        assert(is_digit(s[s.len() - 1]));
    }
}

/// The one-character text of digit `d`.
fn digit_text(d: u8) -> (r: &'static str)
    requires
        d < 10,
    ensures
        r@ == seq![digit_char(d as nat)],
{
    proof {
        reveal_strlit("0");
        reveal_strlit("1");
        reveal_strlit("2");
        reveal_strlit("3");
        reveal_strlit("4");
        reveal_strlit("5");
        reveal_strlit("6");
        reveal_strlit("7");
        reveal_strlit("8");
        reveal_strlit("9");
    }
    match d {
        0 => "0",
        1 => "1",
        2 => "2",
        3 => "3",
        4 => "4",
        5 => "5",
        6 => "6",
        7 => "7",
        8 => "8",
        _ => "9",
    }
}

/// The decimal digits of `n`.
fn decimal_string(n: u8) -> (r: String)
    ensures
        r@ == decimal_text(n as nat),
{
    if n < 10 {
        String::from_str(digit_text(n))
    } else if n < 100 {
        assert(decimal_text(n as nat / 10) == seq![digit_char(n as nat / 10)]);
        joined(digit_text(n / 10), digit_text(n % 10))
    } else {
        let head = joined(digit_text(n / 100), digit_text((n / 10) % 10));
        assert(decimal_text(n as nat / 100) == seq![digit_char(n as nat / 100)]);
        assert(decimal_text(n as nat / 10) == decimal_text(n as nat / 10 / 10).push(
            digit_char((n as nat / 10) % 10),
        ));
        assert(n as nat / 10 / 10 == n as nat / 100);
        joined(head.as_str(), digit_text(n % 10))
    }
}

impl Version {
    /// The version `a.b.c`.
    pub fn new(a: u8, b: u8, c: u8) -> (r: Version)
        ensures
            r.version == [a, b, c],
    {
        Version { version: [a, b, c] }
    }

    /// The version that `s` spells as three dot-separated numbers from 0 to 255, or
    /// `None` when `s` spells none.
    pub fn from_str(s: &str) -> (r: Option<Version>)
        ensures
            r == (match version_of(s@) {
                Some(v) => Some(Version { version: v }),
                None => None::<Version>,
            }),
    {
        let n = s.unicode_len();
        let mut count: usize = 0;
        let mut first: usize = 0;
        let mut second: usize = 0;
        let mut i: usize = 0;
        while i < n
            invariant
                n == s@.len(),
                i <= n,
                count == dot_positions(s@.subrange(0, i as int)).len(),
                count >= 1 ==> first == dot_positions(s@.subrange(0, i as int))[0],
                count >= 2 ==> second == dot_positions(s@.subrange(0, i as int))[1],
                count <= i,
            decreases n - i,
        {
            let ghost prev = s@.subrange(0, i as int);
            assert(s@.subrange(0, i + 1).drop_last() =~= prev);
            if s.get_char(i) == '.' {
                if count == 0 {
                    first = i;
                } else if count == 1 {
                    second = i;
                }
                count = count + 1;
            }
            i = i + 1;
        }
        assert(s@.subrange(0, n as int) =~= s@);
        proof {
            lemma_dot_positions(s@);
        }
        if count != 2 {
            return None;
        }
        let a = parse_u8_at(s, 0, first);
        let b = parse_u8_at(s, first + 1, second);
        let c = parse_u8_at(s, second + 1, n);
        match (a, b, c) {
            (Some(a), Some(b), Some(c)) => Some(Version::new(a, b, c)),
            _ => None,
        }
    }

    /// The three numbers written one after the other, with nothing between them.
    pub fn to_plain_string(&self) -> (r: String)
        ensures
            r@ == decimal_text(self.version[0] as nat) + decimal_text(self.version[1] as nat)
                + decimal_text(self.version[2] as nat),
    {
        let a = decimal_string(self.version[0]);
        let b = decimal_string(self.version[1]);
        let c = decimal_string(self.version[2]);
        let ab = joined(a.as_str(), b.as_str());
        joined(ab.as_str(), c.as_str())
    }

    /// The version written `a.b.c`.
    pub fn to_string(&self) -> (r: String)
        ensures
            r@ == decimal_text(self.version[0] as nat) + "."@ + decimal_text(
                self.version[1] as nat,
            ) + "."@ + decimal_text(self.version[2] as nat),
    {
        let a = decimal_string(self.version[0]);
        let b = decimal_string(self.version[1]);
        let c = decimal_string(self.version[2]);
        let s = joined(a.as_str(), ".");
        let s = joined(s.as_str(), b.as_str());
        let s = joined(s.as_str(), ".");
        joined(s.as_str(), c.as_str())
    }
}

} // verus!
