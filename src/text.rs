use vstd::prelude::*;

verus! {

/// The characters of `s`, one per element.
pub fn chars_of(s: &str) -> (r: Vec<char>)
    ensures
        r@ == s@,
{
    let mut r: Vec<char> = Vec::new();
    for c in it: s.chars()
        invariant
            r@ == it.seq().subrange(0, it.index() as int),
    {
        r.push(c);
    }
    r
}

/// Whether two strings hold the same characters.
pub fn str_eq(a: &str, b: &str) -> (r: bool)
    ensures
        r == (a@ == b@),
{
    let x = chars_of(a);
    let y = chars_of(b);
    if x.len() != y.len() {
        return false;
    }
    let mut i: usize = 0;
    while i < x.len()
        invariant
            x@ == a@,
            y@ == b@,
            x.len() == y.len(),
            i <= x.len(),
            forall|j: int| 0 <= j < i ==> x@[j] == y@[j],
        decreases x.len() - i,
    {
        if x[i] != y[i] {
            return false;
        }
        i = i + 1;
    }
    assert(x@ =~= y@);
    true
}

} // verus!

verus! {

/// The character of a decimal digit.
pub open spec fn digit_char(d: nat) -> char {
    if d == 0 { '0' }
    else if d == 1 { '1' }
    else if d == 2 { '2' }
    else if d == 3 { '3' }
    else if d == 4 { '4' }
    else if d == 5 { '5' }
    else if d == 6 { '6' }
    else if d == 7 { '7' }
    else if d == 8 { '8' }
    else { '9' }
}

/// The decimal notation of `n`, without sign or leading zeros.
pub open spec fn decimal(n: nat) -> Seq<char>
    decreases n,
{
    if n < 10 {
        seq![digit_char(n)]
    } else {
        decimal(n / 10).push(digit_char(n % 10))
    }
}

fn digit_str(d: u64) -> (r: &'static str)
    requires
        d < 10,
    ensures
        r@ == seq![digit_char(d as nat)],
{
    proof {
        reveal_strlit("0");
        reveal_strlit("1");
        reveal_strlit("2");
        reveal_strlit("3");
        reveal_strlit("4");
        reveal_strlit("5");
        reveal_strlit("6");
        reveal_strlit("7");
        reveal_strlit("8");
        reveal_strlit("9");
    }
    match d {
        0 => "0",
        1 => "1",
        2 => "2",
        3 => "3",
        4 => "4",
        5 => "5",
        6 => "6",
        7 => "7",
        8 => "8",
        _ => "9",
    }
}

/// Writes `n` in decimal.
pub fn to_decimal(n: u64) -> (r: String)
    ensures
        r@ == decimal(n as nat),
    decreases n,
{
    if n < 10 {
        String::from_str(digit_str(n))
    } else {
        let mut s = to_decimal(n / 10);
        s.append(digit_str(n % 10));
        s
    }
}

/// The characters of `s` from `from` up to `to`, as a new string.
pub fn substring(s: &str, from: usize, to: usize) -> (r: String)
    requires
        from <= to <= s@.len(),
    ensures
        r@ == s@.subrange(from as int, to as int),
{
    String::from_str(s.substring_char(from, to))
}

/// The number of times `c` occurs in `s`.
pub open spec fn count_char(s: Seq<char>, c: char) -> nat
    decreases s.len(),
{
    if s.len() == 0 {
        0
    } else {
        count_char(s.drop_last(), c) + if s.last() == c { 1nat } else { 0nat }
    }
}

/// Whether `s` begins with `p`.
pub open spec fn starts_with(s: Seq<char>, p: Seq<char>) -> bool {
    p.len() <= s.len() && s.subrange(0, p.len() as int) == p
}

/// Whether the characters of `s` from `at` on begin with `p`.
pub fn has_at(s: &Vec<char>, at: usize, p: &Vec<char>) -> (r: bool)
    requires
        at <= s@.len(),
    ensures
        r == starts_with(s@.skip(at as int), p@),
{
    if p.len() > s.len() - at {
        return false;
    }
    let mut i: usize = 0;
    while i < p.len()
        invariant
            at + p@.len() <= s.len(),
            i <= p@.len(),
            forall|j: int| 0 <= j < i ==> s@[at + j] == p@[j],
        decreases p@.len() - i,
    {
        if s[at + i] != p[i] {
            assert(s@.skip(at as int).subrange(0, p@.len() as int)[i as int] != p@[i as int]);
            return false;
        }
        i = i + 1;
    }
    assert(s@.skip(at as int).subrange(0, p@.len() as int) =~= p@);
    true
}

/// Relies on `String::from_utf8`: it succeeds exactly on valid UTF-8 and then
/// holds the decoded characters.
#[verifier::external_body]
pub(crate) fn utf8_text(bytes: Vec<u8>) -> (r: Option<String>)
    ensures
        r is Some <==> vstd::utf8::valid_utf8(bytes@),
        r is Some ==> r->0@ == vstd::utf8::decode_utf8(bytes@),
{
    String::from_utf8(bytes).ok()
}

/// A finished line without the `'\r'` of a `"\r\n"` line break.
pub open spec fn strip_cr(line: Seq<char>) -> Seq<char> {
    if line.len() > 0 && line.last() == '\r' {
        line.drop_last()
    } else {
        line
    }
}

/// The lines of the first `k` characters of `s`, split at `'\n'` (or
/// `"\r\n"`); the last one may be unfinished (and is empty right after a
/// line break).
pub open spec fn lines_upto(s: Seq<char>, k: int) -> Seq<Seq<char>>
    decreases k,
{
    if k <= 0 {
        seq![Seq::empty()]
    } else {
        let prev = lines_upto(s, k - 1);
        if s[k - 1] == '\n' {
            prev.update(prev.len() - 1, strip_cr(prev.last())).push(Seq::empty())
        } else {
            prev.update(prev.len() - 1, prev.last().push(s[k - 1]))
        }
    }
}

/// The lines of `s`: split at `'\n'` or `"\r\n"`, with no empty line after a
/// final break.
pub open spec fn lines_of(s: Seq<char>) -> Seq<Seq<char>> {
    let l = lines_upto(s, s.len() as int);
    if l.last().len() == 0 {
        l.drop_last()
    } else {
        l
    }
}

pub proof fn lemma_lines_upto_len(s: Seq<char>, k: int)
    ensures
        lines_upto(s, k).len() >= 1,
    decreases k,
{
    if k > 0 {
        lemma_lines_upto_len(s, k - 1);
    }
}

/// Whether `s` ends with `p`.
pub open spec fn ends_with(s: Seq<char>, p: Seq<char>) -> bool {
    p.len() <= s.len() && s.subrange(s.len() - p.len(), s.len() as int) == p
}

/// `s` with every leading repetition of `p` removed.
pub open spec fn trim_start_all(s: Seq<char>, p: Seq<char>) -> Seq<char>
    decreases s.len(),
{
    if p.len() > 0 && starts_with(s, p) {
        trim_start_all(s.skip(p.len() as int), p)
    } else {
        s
    }
}

/// `s` with every trailing repetition of `p` removed.
pub open spec fn trim_end_all(s: Seq<char>, p: Seq<char>) -> Seq<char>
    decreases s.len(),
{
    if p.len() > 0 && ends_with(s, p) {
        trim_end_all(s.subrange(0, s.len() - p.len()), p)
    } else {
        s
    }
}

/// `s` without the leading repetitions of `prefix`, and then without the
/// trailing repetitions of `suffix`.
pub fn trim_around(s: &str, prefix: &str, suffix: &str) -> (r: String)
    ensures
        r@ == trim_end_all(trim_start_all(s@, prefix@), suffix@),
{
    let cs = chars_of(s);
    let pc = chars_of(prefix);
    let sc = chars_of(suffix);
    let mut start: usize = 0;
    let n = cs.len();
    assert(cs@.skip(0) =~= cs@);
    while pc.len() > 0 && has_at(&cs, start, &pc)
        invariant
            cs@ == s@,
            n == cs@.len(),
            pc@ == prefix@,
            start <= cs@.len(),
            trim_start_all(s@, prefix@) == trim_start_all(cs@.skip(start as int), prefix@),
        decreases cs@.len() - start,
    {
        assert(start + pc@.len() <= cs@.len());
        assert(cs@.skip(start as int).skip(pc@.len() as int) =~= cs@.skip(start + pc@.len()));
        start = start + pc.len();
    }
    let ghost t = cs@.skip(start as int);
    let mut end: usize = cs.len();
    assert(t =~= cs@.subrange(start as int, end as int));
    while sc.len() > 0 && end - start >= sc.len() && has_at(&cs, end - sc.len(), &sc)
        invariant
            cs@ == s@,
            sc@ == suffix@,
            start <= end <= cs@.len(),
            trim_end_all(t, suffix@) == trim_end_all(cs@.subrange(start as int, end as int), suffix@),
        decreases end,
    {
        let ghost u = cs@.subrange(start as int, end as int);
        assert(u.subrange(u.len() - sc@.len(), u.len() as int) =~= cs@.skip(end - sc@.len()).subrange(
            0,
            sc@.len() as int,
        ));
        assert(u.subrange(0, u.len() - sc@.len()) =~= cs@.subrange(start as int, end - sc@.len()));
        end = end - sc.len();
    }
    proof {
        let u = cs@.subrange(start as int, end as int);
        if sc@.len() > 0 && end - start >= sc@.len() {
            assert(u.subrange(u.len() - sc@.len(), u.len() as int) =~= cs@.skip(end - sc@.len()).subrange(
                0,
                sc@.len() as int,
            ));
        }
    }
    substring(s, start, end)
}

} // verus!
