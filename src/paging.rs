//! Where a progress counter points, how an upstream `next` link is repaired,
//! how a throttling reply is recognised, and how a counter is written as text.
use vstd::prelude::*;
use crate::text::{chars_of, contains, occurs, replace, replace_all, string_of};

verus! {

/// The page that holds item `counter`, and its offset inside that page.
pub fn page_position(counter: u64, page_size: u64) -> (r: (u64, u64))
    requires
        page_size > 0,
    ensures
        r.0 == counter / page_size,
        r.1 == counter % page_size,
        r.0 * page_size + r.1 == counter,
{
    let index = counter / page_size;
    let offset = counter % page_size;
    assert(index * page_size + offset == counter) by (nonlinear_arith)
        requires
            page_size > 0,
            index == counter / page_size,
            offset == counter % page_size,
    ;
    (index, offset)
}

/// The malformed filter that upstream `next` links carry.
pub open spec fn blank_max_rank() -> Seq<char> {
    "max-rank=&"@
}

/// The filter that pins the maximum rank to `category`.
pub open spec fn pinned_max_rank(category: Seq<char>) -> Seq<char> {
    "max-rank="@ + category + "&"@
}

/// `next` with each blank maximum-rank filter pinned to `category`; every other
/// character of the link is kept.
pub open spec fn repaired_link(next: Seq<char>, category: Seq<char>) -> Seq<char> {
    replace_all(next, blank_max_rank(), pinned_max_rank(category))
}

/// Repairs an upstream `next` link so that it stays inside `category`'s rank band.
pub fn fixed_next_link(next: &str, category: &str) -> (r: String)
    ensures
        r@ == repaired_link(next@, category@),
{
    let pat = chars_of("max-rank=&");
    let mut rep_text = String::from_str("max-rank=");
    rep_text.append(category);
    rep_text.append("&");
    let rep = chars_of(rep_text.as_str());
    let s = chars_of(next);
    proof {
        reveal_strlit("max-rank=&");
    }
    let out = replace(&s, &pat, &rep);
    string_of(&out)
}

/// The body that upstream sends, with a success status, when it throttles.
pub open spec fn throttle_marker() -> Seq<char> {
    "\"error\":\"Too many requests\""@
}

/// Whether a reply body is a throttling error disguised as success.
pub fn is_throttled(body: &str) -> (r: bool)
    ensures
        r == occurs(body@, throttle_marker()),
{
    let marker = chars_of("\"error\":\"Too many requests\"");
    let s = chars_of(body);
    contains(&s, &marker)
}

/// The value of a decimal digit character.
pub open spec fn digit_value(c: char) -> int {
    (c as int) - ('0' as int)
}

pub open spec fn is_digit(c: char) -> bool {
    '0' <= c && c <= '9'
}

/// The number that a string of decimal digits denotes.
pub open spec fn decimal_value(s: Seq<char>) -> int
    decreases s.len(),
{
    if s.len() == 0 {
        0
    } else {
        10 * decimal_value(s.drop_last()) + digit_value(s.last())
    }
}

/// The decimal digits of `n`, without leading zeros.
pub open spec fn decimal_text(n: nat) -> Seq<char>
    decreases n,
{
    if n < 10 {
        seq![(n + ('0' as nat)) as char]
    } else {
        decimal_text(n / 10) + seq![((n % 10) + ('0' as nat)) as char]
    }
}

/// A counter as stored: one or more decimal digits whose value fits in a `u64`.
pub open spec fn counter_parses(s: Seq<char>) -> bool {
    &&& s.len() > 0
    &&& forall|i: int| 0 <= i < s.len() ==> is_digit(#[trigger] s[i])
    &&& decimal_value(s) <= u64::MAX
}

/// A string of digits denotes a natural number.
pub proof fn lemma_decimal_nonneg(s: Seq<char>)
    requires
        forall|i: int| 0 <= i < s.len() ==> is_digit(#[trigger] s[i]),
    ensures
        decimal_value(s) >= 0,
    decreases s.len(),
{
    if s.len() > 0 {
        assert forall|i: int| 0 <= i < s.drop_last().len() implies is_digit(
            #[trigger] s.drop_last()[i],
        ) by {
            assert(s.drop_last()[i] == s[i]);
        }
        lemma_decimal_nonneg(s.drop_last());
        assert(is_digit(s[s.len() - 1]));
    }
}

proof fn lemma_prefix_bound(s: Seq<char>, j: int)
    requires
        0 <= j <= s.len(),
        forall|i: int| 0 <= i < s.len() ==> is_digit(#[trigger] s[i]),
    ensures
        decimal_value(s.take(j)) <= decimal_value(s),
    decreases s.len(),
{
    if j == s.len() {
        assert(s.take(j) =~= s);
    } else {
        let t = s.drop_last();
        assert forall|i: int| 0 <= i < t.len() implies is_digit(#[trigger] t[i]) by {
            assert(t[i] == s[i]);
        }
        lemma_prefix_bound(t, j);
        assert(t.take(j) =~= s.take(j));
        lemma_decimal_nonneg(t);
        assert(is_digit(s[s.len() - 1]));
    }
}

fn push_decimal(n: u64, out: &mut Vec<char>)
    ensures
        final(out)@ == old(out)@ + decimal_text(n as nat),
    decreases n,
{
    if n >= 10 {
        push_decimal(n / 10, out);
    }
    let d: u32 = (n % 10) as u32 + ('0' as u32);
    let c = char_of_digit(d);
    out.push(c);
    proof {
        if n >= 10 {
            assert(decimal_text(n as nat) == decimal_text((n / 10) as nat) + seq![c]);
        }
    }
}

fn char_of_digit(d: u32) -> (c: char)
    requires
        '0' as u32 <= d <= '9' as u32,
    ensures
        c as u32 == d,
{
    if d == 48 { '0' } else if d == 49 { '1' } else if d == 50 { '2' } else if d == 51 { '3' }
    else if d == 52 { '4' } else if d == 53 { '5' } else if d == 54 { '6' } else if d == 55 { '7' }
    else if d == 56 { '8' } else { '9' }
}

/// Writes a progress counter as stored: its decimal digits.
pub fn counter_text(n: u64) -> (r: String)
    ensures
        r@ == decimal_text(n as nat),
{
    let mut out: Vec<char> = Vec::new();
    push_decimal(n, &mut out);
    assert(out@ =~= decimal_text(n as nat));
    string_of(&out)
}

/// Reads a stored progress counter.
pub fn parse_counter(text: &str) -> (r: Option<u64>)
    ensures
        r is Some <==> counter_parses(text@),
        r is Some ==> r->0 == decimal_value(text@),
{
    let s = chars_of(text);
    if s.len() == 0 {
        return None;
    }
    let mut acc: u64 = 0;
    let mut i: usize = 0;
    while i < s.len()
        invariant
            i <= s.len(),
            s@ == text@,
            forall|k: int| 0 <= k < i ==> is_digit(#[trigger] s@[k]),
            acc == decimal_value(s@.take(i as int)),
        decreases s.len() - i,
    {
        let c = s[i];
        let ghost prefix = s@.take(i as int);
        assert(s@.take(i + 1).drop_last() =~= prefix);
        if !('0' <= c && c <= '9') {
            assert(!is_digit(text@[i as int]));
            assert(!counter_parses(text@));
            return None;
        }
        let d: u64 = (c as u64) - ('0' as u64);
        assert(s@.take(i + 1).last() == c);
        assert(decimal_value(s@.take(i + 1)) == 10 * acc + d);
        if acc > (u64::MAX - d) / 10 {
            assert(10 * acc + d > u64::MAX) by (nonlinear_arith)
                requires
                    acc > (u64::MAX - d) / 10,
                    d <= 9,
            ;
            proof {
                if counter_parses(text@) {
                    lemma_prefix_bound(text@, i + 1);
                    assert(s@.take(i + 1) == text@.take(i + 1));
                }
                assert(!counter_parses(text@));
            }
            return None;
        }
        assert(10 * acc + d <= u64::MAX) by (nonlinear_arith)
            requires
                acc <= (u64::MAX - d) / 10,
                d <= 9,
        ;
        acc = acc * 10 + d;
        i = i + 1;
    }
    assert(s@.take(i as int) =~= s@);
    Some(acc)
}

} // verus!
