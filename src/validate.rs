//! Validation of the applicant's free-text answers: full name, phone
//! number and a time range.

use crate::calendar::{clock_minutes, parse_time};
use crate::text::{split_words, texts, words};
use vstd::prelude::*;
use vstd::string::*;

verus! {

/// An applicant's name as last name, first name and patronymic.
#[derive(Clone, Debug)]
pub struct FullName {
    pub last_name: String,
    pub name: String,
    pub patronymic: String,
}

/// Reads "last first patronymic": exactly three whitespace-separated words.
pub fn parse_full_name(text: &str) -> (r: Option<FullName>)
    ensures
        r is Some <==> words(text@).len() == 3,
        r matches Some(n) ==> n.last_name@ == words(text@)[0] && n.name@ == words(text@)[1]
            && n.patronymic@ == words(text@)[2],
{
    let parts = split_words(text);
    if parts.len() != 3 {
        return None;
    }
    proof {
        assert(texts(parts@)[0] == parts@[0]@);
        assert(texts(parts@)[1] == parts@[1]@);
        assert(texts(parts@)[2] == parts@[2]@);
    }
    let last_name = parts[0].clone();
    let name = parts[1].clone();
    let patronymic = parts[2].clone();
    Some(FullName { last_name, name, patronymic })
}

/// Whether regex finds `s` a whole match of `^\+?3?8?(0\d{9})$`.
pub uninterp spec fn phone_match(s: Seq<char>) -> bool;

/// Relies on regex's `Regex::new` and `Regex::is_match` for the phone
/// pattern: an optional "+", "3" and "8", then "0" and nine digits.
#[verifier::external_body]
fn phone_pattern_matches(s: &str) -> (r: bool)
    ensures
        r == phone_match(s@),
{
    regex::Regex::new(r"^\+?3?8?(0\d{9})$").map(|re| re.is_match(s)).unwrap_or(false)
}

/// Whether `text` is a phone number in international or local form.
pub fn is_phone(text: &str) -> (r: bool)
    ensures
        r == phone_match(text@),
{
    phone_pattern_matches(text)
}

/// The pieces of `s` between occurrences of `sep`, empty ones included.
pub open spec fn pieces(s: Seq<char>, sep: char) -> Seq<Seq<char>>
    decreases s.len(),
{
    if s.len() == 0 {
        seq![Seq::empty()]
    } else {
        let p = pieces(s.drop_last(), sep);
        if s.last() == sep {
            p.push(Seq::empty())
        } else {
            p.update(p.len() - 1, p.last().push(s.last()))
        }
    }
}

/// The times of day that the pieces of `ps` denote, skipping pieces that
/// are not "HH:MM".
pub open spec fn clock_values(ps: Seq<Seq<char>>) -> Seq<u32>
    decreases ps.len(),
{
    if ps.len() == 0 {
        Seq::empty()
    } else {
        match clock_minutes(ps.last()) {
            Some(m) => clock_values(ps.drop_last()).push(m),
            None => clock_values(ps.drop_last()),
        }
    }
}

/// The range that "HH:MM-HH:MM" text denotes: the first two pieces
/// between '-' that read as times.
pub open spec fn interval_of(s: Seq<char>) -> Option<(u32, u32)> {
    let v = clock_values(pieces(s, '-'));
    if v.len() >= 2 {
        Some((v[0], v[1]))
    } else {
        None
    }
}

/// Splits `s` at every `sep`.
pub fn split_at_char(s: &str, sep: char) -> (r: Vec<String>)
    ensures
        texts(r@) == pieces(s@, sep),
{
    let n = s.unicode_len();
    let mut out: Vec<String> = Vec::new();
    let mut start: usize = 0;
    let mut i: usize = 0;
    assert(s@.subrange(0, 0) =~= Seq::<char>::empty());
    assert(texts(out@) =~= Seq::<Seq<char>>::empty());
    assert(pieces(s@.subrange(0, 0), sep) =~= texts(out@).push(s@.subrange(0, 0)));
    while i < n
        invariant
            n == s@.len(),
            start <= i <= n,
            pieces(s@.subrange(0, i as int), sep) == texts(out@).push(
                s@.subrange(start as int, i as int),
            ),
        decreases n - i,
    {
        let c = s.get_char(i);
        let ghost cur = s@.subrange(0, i + 1);
        assert(cur.drop_last() =~= s@.subrange(0, i as int));
        if c == sep {
            let w = String::from_str(s.substring_char(start, i));
            let ghost before = out@;
            out.push(w);
            assert(texts(out@) =~= texts(before).push(w@));
            assert(s@.subrange(i + 1, i + 1) =~= Seq::<char>::empty());
            i = i + 1;
            start = i;
        } else {
            assert(s@.subrange(start as int, i + 1) =~= s@.subrange(start as int, i as int).push(c));
            let ghost p = pieces(s@.subrange(0, i as int), sep);
            assert(p.update(p.len() - 1, p.last().push(c)) =~= texts(out@).push(
                s@.subrange(start as int, i + 1),
            ));
            i = i + 1;
        }
    }
    assert(s@.subrange(0, n as int) =~= s@);
    let w = String::from_str(s.substring_char(start, n));
    let ghost before = out@;
    out.push(w);
    assert(texts(out@) =~= texts(before).push(w@));
    out
}

/// Reads a time range "HH:MM-HH:MM" as two minutes of the day.
pub fn parse_interval(text: &str) -> (r: Option<(u32, u32)>)
    ensures
        r == interval_of(text@),
{
    let parts = split_at_char(text, '-');
    let mut found: Vec<u32> = Vec::new();
    let mut i: usize = 0;
    while i < parts.len()
        invariant
            i <= parts.len(),
            found@ == clock_values(texts(parts@).subrange(0, i as int)),
        decreases parts.len() - i,
    {
        assert(texts(parts@).subrange(0, i + 1).drop_last() =~= texts(parts@).subrange(
            0,
            i as int,
        ));
        assert(texts(parts@).subrange(0, i + 1).last() == parts@[i as int]@);
        match parse_time(parts[i].as_str()) {
            Some(m) => {
                found.push(m);
            },
            None => {},
        }
        i = i + 1;
    }
    assert(texts(parts@).subrange(0, i as int) =~= texts(parts@));
    if found.len() >= 2 {
        Some((found[0], found[1]))
    } else {
        None
    }
}

} // verus!
