//! Character-level helpers on strings: search, decimal rendering, joining.

use vstd::prelude::*;
use vstd::string::*;

verus! {

/// The characters of a string, one by one.
pub fn chars_of(s: &String) -> (r: Vec<char>)
    ensures
        r@ == s@,
{
    let st = s.as_str();
    let n = st.unicode_len();
    let mut out: Vec<char> = Vec::new();
    let mut i: usize = 0;
    while i < n
        invariant
            n == st@.len(),
            st@ == s@,
            i <= n,
            out@ == s@.take(i as int),
        decreases n - i,
    {
        let c = st.get_char(i);
        out.push(c);
        i = i + 1;
        assert(out@ =~= s@.take(i as int));
    }
    assert(out@ =~= s@);
    out
}

/// `p` occurs in `t` starting at position `k`.
pub open spec fn occurs_at(p: Seq<char>, t: Seq<char>, k: int) -> bool {
    0 <= k && k + p.len() <= t.len() && t.subrange(k, k + p.len()) == p
}

pub open spec fn spec_contains(t: Seq<char>, p: Seq<char>) -> bool {
    exists|k: int| occurs_at(p, t, k)
}

pub open spec fn spec_starts_with(t: Seq<char>, p: Seq<char>) -> bool {
    occurs_at(p, t, 0)
}

pub open spec fn spec_ends_with(t: Seq<char>, p: Seq<char>) -> bool {
    occurs_at(p, t, t.len() - p.len())
}

fn occurs_at_exec(p: &Vec<char>, t: &Vec<char>, k: usize) -> (r: bool)
    requires
        k + p@.len() <= t@.len(),
    ensures
        r == occurs_at(p@, t@, k as int),
{
    let tl = t.len();
    let mut j: usize = 0;
    while j < p.len()
        invariant
            tl == t@.len(),
            k + p@.len() <= t@.len(),
            j <= p@.len(),
            forall|m: int| 0 <= m < j ==> t@[k + m] == p@[m],
        decreases p@.len() - j,
    {
        if t[k + j] != p[j] {
            assert(t@.subrange(k as int, k + p@.len())[j as int] != p@[j as int]);
            return false;
        }
        j = j + 1;
    }
    assert(t@.subrange(k as int, k + p@.len()) =~= p@);
    true
}

/// Whether `p` occurs in `t`.
pub fn text_contains(t: &String, p: &String) -> (r: bool)
    ensures
        r == spec_contains(t@, p@),
{
    let tc = chars_of(t);
    let pc = chars_of(p);
    if pc.len() > tc.len() {
        return false;
    }
    if pc.len() == 0 {
        assert(t@.subrange(0, 0) =~= p@);
        assert(occurs_at(p@, t@, 0));
        return true;
    }
    let tl = tc.len();
    let last = tc.len() - pc.len();
    let mut k: usize = 0;
    while k <= last
        invariant
            tl == tc@.len(),
            pc@.len() > 0,
            last == tc@.len() - pc@.len(),
            last < tc@.len(),
            k <= last + 1,
            tc@ == t@,
            pc@ == p@,
            forall|m: int| 0 <= m < k ==> !occurs_at(p@, t@, m),
        decreases last + 1 - k,
    {
        if occurs_at_exec(&pc, &tc, k) {
            return true;
        }
        k = k + 1;
    }
    false
}

/// Whether `t` begins with `p`.
pub fn text_starts_with(t: &String, p: &String) -> (r: bool)
    ensures
        r == spec_starts_with(t@, p@),
{
    let tc = chars_of(t);
    let pc = chars_of(p);
    if pc.len() > tc.len() {
        return false;
    }
    occurs_at_exec(&pc, &tc, 0)
}

/// Whether `t` ends with `p`.
pub fn text_ends_with(t: &String, p: &String) -> (r: bool)
    ensures
        r == spec_ends_with(t@, p@),
{
    let tc = chars_of(t);
    let pc = chars_of(p);
    if pc.len() > tc.len() {
        return false;
    }
    occurs_at_exec(&pc, &tc, tc.len() - pc.len())
}

/// The decimal digits of `n`.
pub open spec fn decimal(n: nat) -> Seq<char>
    decreases n,
{
    if n < 10 {
        seq![digit_char(n)]
    } else {
        decimal(n / 10).push(digit_char(n % 10))
    }
}

pub open spec fn digit_char(d: nat) -> char {
    if d == 0 { '0' } else if d == 1 { '1' } else if d == 2 { '2' } else if d == 3 { '3' }
    else if d == 4 { '4' } else if d == 5 { '5' } else if d == 6 { '6' } else if d == 7 { '7' }
    else if d == 8 { '8' } else { '9' }
}

/// The digit `d` as a one-character string.
pub fn digit_str(d: u128) -> (r: &'static str)
    requires
        d < 10,
    ensures
        r@ == seq![digit_char(d as nat)],
{
    proof {
        reveal_strlit("0");
        reveal_strlit("1");
        reveal_strlit("2");
        reveal_strlit("3");
        reveal_strlit("4");
        reveal_strlit("5");
        reveal_strlit("6");
        reveal_strlit("7");
        reveal_strlit("8");
        reveal_strlit("9");
    }
    if d == 0 { "0" } else if d == 1 { "1" } else if d == 2 { "2" } else if d == 3 { "3" }
    else if d == 4 { "4" } else if d == 5 { "5" } else if d == 6 { "6" } else if d == 7 { "7" }
    else if d == 8 { "8" } else { "9" }
}

/// `n` in decimal, with no separators.
pub fn to_decimal(n: u128) -> (r: String)
    ensures
        r@ == decimal(n as nat),
    decreases n,
{
    if n < 10 {
        let r = String::from_str(digit_str(n));
        r
    } else {
        let mut r = to_decimal(n / 10);
        r.append(digit_str(n % 10));
        r
    }
}

/// The digits of `n` with a comma between each group of three, counted from the right.
pub open spec fn grouped(n: nat) -> Seq<char>
    decreases n,
{
    if n < 1000 {
        decimal(n)
    } else {
        grouped(n / 1000) + seq![','] + three_digits((n % 1000) as nat)
    }
}

/// Exactly three digits, with leading zeros.
pub open spec fn three_digits(n: nat) -> Seq<char> {
    seq![digit_char(n / 100), digit_char((n / 10) % 10), digit_char(n % 10)]
}

/// Formats a count with thousands separators (`1000000` gives `1,000,000`).
pub fn format_number(n: usize) -> (r: String)
    ensures
        r@ == grouped(n as nat),
    decreases n,
{
    if n < 1000 {
        to_decimal(n as u128)
    } else {
        let mut r = format_number(n / 1000);
        let m = (n % 1000) as u128;
        r.append(",");
        r.append(digit_str(m / 100));
        r.append(digit_str((m / 10) % 10));
        r.append(digit_str(m % 10));
        proof {
            reveal_strlit(",");
            assert(r@ =~= grouped(n as nat));
        }
        r
    }
}

/// The strings of `s` with `", "` between each two.
pub open spec fn joined(s: Seq<Seq<char>>) -> Seq<char>
    decreases s.len(),
{
    if s.len() == 0 {
        Seq::empty()
    } else if s.len() == 1 {
        s[0]
    } else {
        joined(s.drop_last()) + seq![',', ' '] + s.last()
    }
}

} // verus!
