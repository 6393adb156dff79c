//! The admissions-catalogue reader's setup: the catalogue address for a
//! campaign year, and reading that year from the command line.

use vstd::prelude::*;
use vstd::string::*;

verus! {

/// The catalogue address up to the year's last two digits.
pub const CATALOGUE_PREFIX: &'static str = "https://abit-poisk.org.ua/rate20";

/// The catalogue path after the year.
pub const CATALOGUE_SUFFIX: &'static str = "/direction/";

/// The decimal digit `d` as a character.
pub open spec fn digit_char(d: int) -> char {
    if d == 0 {
        '0'
    } else if d == 1 {
        '1'
    } else if d == 2 {
        '2'
    } else if d == 3 {
        '3'
    } else if d == 4 {
        '4'
    } else if d == 5 {
        '5'
    } else if d == 6 {
        '6'
    } else if d == 7 {
        '7'
    } else if d == 8 {
        '8'
    } else {
        '9'
    }
}

/// The value of the decimal digit character `c`, if it is one.
pub open spec fn digit_value(c: char) -> Option<int> {
    if '0' <= c && c <= '9' {
        Some(c as int - '0' as int)
    } else {
        None
    }
}

/// `n` written in decimal without leading zeros.
pub open spec fn decimal(n: nat) -> Seq<char>
    decreases n,
{
    if n < 10 {
        seq![digit_char(n as int)]
    } else {
        decimal(n / 10).push(digit_char((n % 10) as int))
    }
}

/// The number that the digits `s` spell, for `s` made of digits.
pub open spec fn digits_value(s: Seq<char>) -> int
    decreases s.len(),
{
    if s.len() == 0 {
        0
    } else {
        digits_value(s.drop_last()) * 10 + (s.last() as int - '0' as int)
    }
}

pub open spec fn all_digits(s: Seq<char>) -> bool {
    forall|i: int| 0 <= i < s.len() ==> digit_value(#[trigger] s[i]) is Some
}

/// `s` without one leading "+".
pub open spec fn unsigned_body(s: Seq<char>) -> Seq<char> {
    if s.len() > 0 && s[0] == '+' {
        s.drop_first()
    } else {
        s
    }
}

/// What `u8`'s `FromStr` reads from `s`: an optional "+", then at least one
/// ASCII digit, with a value of at most 255.
pub open spec fn u8_of(s: Seq<char>) -> Option<u8> {
    let body = unsigned_body(s);
    if body.len() > 0 && all_digits(body) && digits_value(body) <= 255 {
        Some(digits_value(body) as u8)
    } else {
        None
    }
}

fn digit_str(d: u8) -> (r: &'static str)
    requires
        d < 10,
    ensures
        r@ == seq![digit_char(d as int)],
{
    proof {
        reveal_strlit("0");
        reveal_strlit("1");
        reveal_strlit("2");
        reveal_strlit("3");
        reveal_strlit("4");
        reveal_strlit("5");
        reveal_strlit("6");
        reveal_strlit("7");
        reveal_strlit("8");
        reveal_strlit("9");
    }
    let r = match d {
        0 => "0",
        1 => "1",
        2 => "2",
        3 => "3",
        4 => "4",
        5 => "5",
        6 => "6",
        7 => "7",
        8 => "8",
        _ => "9",
    };
    assert(r@ =~= seq![digit_char(d as int)]);
    r
}

/// `n` in decimal.
pub fn decimal_text(n: u8) -> (r: String)
    ensures
        r@ == decimal(n as nat),
{
    if n < 10 {
        String::from_str(digit_str(n))
    } else if n < 100 {
        proof {
            reveal_with_fuel(decimal, 2);
        }
        let s = String::from_str(digit_str(n / 10));
        let r = s.concat(digit_str(n % 10));
        assert(r@ =~= decimal(n as nat));
        r
    } else {
        proof {
            reveal_with_fuel(decimal, 3);
            assert((n as nat) / 10 / 10 == (n / 100) as nat);
            assert(((n as nat) / 10) % 10 == ((n / 10) % 10) as nat);
        }
        let s = String::from_str(digit_str(n / 100));
        let s = s.concat(digit_str((n / 10) % 10));
        let r = s.concat(digit_str(n % 10));
        assert(r@ =~= decimal(n as nat));
        r
    }
}

/// Reads a `u8` the way its `FromStr` does.
pub fn parse_u8(s: &str) -> (r: Option<u8>)
    ensures
        r == u8_of(s@),
{
    let n = s.unicode_len();
    let mut start: usize = 0;
    if n > 0 && s.get_char(0) == '+' {
        start = 1;
    }
    let ghost body = unsigned_body(s@);
    assert(body =~= s@.subrange(start as int, n as int));
    if start == n {
        return None;
    }
    let mut value: u32 = 0;
    let mut i: usize = start;
    while i < n
        invariant
            n == s@.len(),
            start <= i <= n,
            start < n,
            body == s@.subrange(start as int, n as int),
            body == unsigned_body(s@),
            all_digits(s@.subrange(start as int, i as int)),
            value == digits_value(s@.subrange(start as int, i as int)),
            value <= 255,
        decreases n - i,
    {
        let c = s.get_char(i);
        assert(s@.subrange(start as int, i + 1).drop_last() =~= s@.subrange(start as int, i as int));
        assert(body[i - start] == c);
        if !('0' <= c && c <= '9') {
            assert(digit_value(body[i - start]) is None);
            assert(!all_digits(body));
            return None;
        }
        let d = (c as u32) - ('0' as u32);
        let next = value * 10 + d;
        if next > 255 {
            proof {
                assert(digits_value(s@.subrange(start as int, i + 1)) == next);
                assert(body.subrange(0, i - start + 1) =~= s@.subrange(start as int, i + 1));
                if all_digits(body) {
                    lemma_digits_grow(body, (i - start + 1) as int);
                }
            }
            return None;
        }
        value = next;
        i = i + 1;
    }
    Some(value as u8)
}

/// A longer run of digits never spells a smaller number than its prefix.
proof fn lemma_digits_grow(s: Seq<char>, k: int)
    requires
        0 <= k <= s.len(),
        all_digits(s),
    ensures
        digits_value(s) >= digits_value(s.subrange(0, k)),
        digits_value(s.subrange(0, k)) >= 0,
    decreases s.len(),
{
    if s.len() > 0 {
        assert(all_digits(s.drop_last())) by {
            assert forall|i: int| 0 <= i < s.drop_last().len() implies digit_value(
                #[trigger] s.drop_last()[i],
            ) is Some by {
                assert(s.drop_last()[i] == s[i]);
            }
        }
        assert(digit_value(s[s.len() - 1]) is Some);
        if k == s.len() {
            assert(s.subrange(0, k) =~= s);
            lemma_digits_grow(s.drop_last(), k - 1);
        } else {
            assert(s.subrange(0, k) =~= s.drop_last().subrange(0, k));
            lemma_digits_grow(s.drop_last(), k);
        }
    }
}

/// The campaign year "15" to "21", as its last two digits.
pub fn parse_year(s: &str) -> (r: Result<u8, &'static str>)
    ensures
        match u8_of(s@) {
            None => r == Err::<u8, &'static str>("not a number"),
            Some(n) => if 15 <= n <= 21 {
                r == Ok::<u8, &'static str>(n)
            } else {
                r == Err::<u8, &'static str>("no interval from 15 to 21")
            },
        },
{
    match parse_u8(s) {
        None => Err("not a number"),
        Some(number) => if number >= 15 && number <= 21 {
            Ok(number)
        } else {
            Err("no interval from 15 to 21")
        },
    }
}

/// Reader of one campaign year's catalogue.
pub struct Parser {
    pub url: String,
}

impl Parser {
    /// The reader for the campaign year ending in `year`.
    pub fn new(year: u8) -> (r: Parser)
        ensures
            r.url@ == CATALOGUE_PREFIX@ + decimal(year as nat) + CATALOGUE_SUFFIX@,
    {
        let url = String::from_str(CATALOGUE_PREFIX);
        let digits = decimal_text(year);
        let url = url.concat(digits.as_str());
        let url = url.concat(CATALOGUE_SUFFIX);
        Parser { url }
    }
}

} // verus!
