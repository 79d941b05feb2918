//! Character-level helpers over `str`: searching, splitting, trimming and
//! decimal numbers, each stated over `Seq<char>`.
use vstd::prelude::*;
use vstd::string::*;

verus! {

/// The first position at or after `i` where `sep` occurs in `s`, or -1.
pub open spec fn find_from(s: Seq<char>, sep: Seq<char>, i: int) -> int
    decreases s.len() + 1 - i,
{
    if i < 0 || i + sep.len() > s.len() {
        -1
    } else if s.subrange(i, i + sep.len()) == sep {
        i
    } else {
        find_from(s, sep, i + 1)
    }
}

/// `sep` occurs somewhere in `s`.
pub open spec fn contains(s: Seq<char>, sep: Seq<char>) -> bool {
    find_from(s, sep, 0) >= 0
}

/// The pieces of `s` between occurrences of `c`; always at least one piece.
pub open spec fn split_on(s: Seq<char>, c: char) -> Seq<Seq<char>>
    decreases s.len(),
{
    if s.len() == 0 {
        seq![Seq::<char>::empty()]
    } else {
        let p = split_on(s.drop_last(), c);
        if s.last() == c {
            p.push(Seq::<char>::empty())
        } else {
            p.update(p.len() - 1, p.last().push(s.last()))
        }
    }
}

/// `s` without the copies of `c` at its start.
pub open spec fn trim_front(s: Seq<char>, c: char) -> Seq<char>
    decreases s.len(),
{
    if s.len() > 0 && s[0] == c {
        trim_front(s.drop_first(), c)
    } else {
        s
    }
}

/// `s` without the copies of `c` at its end.
pub open spec fn trim_back(s: Seq<char>, c: char) -> Seq<char>
    decreases s.len(),
{
    if s.len() > 0 && s.last() == c {
        trim_back(s.drop_last(), c)
    } else {
        s
    }
}

/// `s` without the copies of `c` at either end.
pub open spec fn trim_both(s: Seq<char>, c: char) -> Seq<char> {
    trim_back(trim_front(s, c), c)
}

/// `a` is `b`, or its upper-case ASCII form.
pub open spec fn char_eq_ignore_ascii_case(a: char, b: char) -> bool {
    a == b || ('A' <= a && a <= 'Z' && a as u32 + 32 == b as u32) || ('A' <= b && b <= 'Z'
        && b as u32 + 32 == a as u32)
}

/// `s` and `t` are equal up to the case of ASCII letters.
pub open spec fn eq_ignore_ascii_case(s: Seq<char>, t: Seq<char>) -> bool {
    s.len() == t.len() && forall|i: int|
        0 <= i < s.len() ==> #[trigger] char_eq_ignore_ascii_case(s[i], t[i])
}

pub open spec fn is_digit(c: char) -> bool {
    '0' <= c && c <= '9'
}

pub open spec fn digit_value(c: char) -> nat {
    (c as u32 - '0' as u32) as nat
}

pub open spec fn digit_char(d: nat) -> char {
    if d == 0 {
        '0'
    } else if d == 1 {
        '1'
    } else if d == 2 {
        '2'
    } else if d == 3 {
        '3'
    } else if d == 4 {
        '4'
    } else if d == 5 {
        '5'
    } else if d == 6 {
        '6'
    } else if d == 7 {
        '7'
    } else if d == 8 {
        '8'
    } else {
        '9'
    }
}

/// The number that a run of decimal digits spells.
pub open spec fn digits_value(s: Seq<char>) -> nat
    decreases s.len(),
{
    if s.len() == 0 {
        0
    } else {
        digits_value(s.drop_last()) * 10 + digit_value(s.last())
    }
}

pub open spec fn all_digits(s: Seq<char>) -> bool {
    forall|i: int| 0 <= i < s.len() ==> #[trigger] is_digit(s[i])
}

/// The digits of `s`, after an optional leading `+`.
pub open spec fn unsigned_digits(s: Seq<char>) -> Seq<char> {
    if s.len() > 0 && s[0] == '+' {
        s.drop_first()
    } else {
        s
    }
}

/// What `s` reads as an unsigned decimal number that fits in a `usize`:
/// an optional `+` and at least one digit, nothing else.
pub open spec fn parse_usize(s: Seq<char>) -> Option<nat> {
    let d = unsigned_digits(s);
    if d.len() > 0 && all_digits(d) && digits_value(d) <= usize::MAX {
        Some(digits_value(d))
    } else {
        None
    }
}

/// The shortest decimal spelling of `n`.
pub open spec fn decimal(n: nat) -> Seq<char>
    decreases n,
{
    if n < 10 {
        seq![digit_char(n)]
    } else {
        decimal(n / 10).push(digit_char(n % 10))
    }
}

/// The characters of `s`, one per element.
pub fn chars_of(s: &str) -> (r: Vec<char>)
    ensures
        r@ == s@,
{
    let n = s.unicode_len();
    let mut v: Vec<char> = Vec::new();
    let mut i: usize = 0;
    while i < n
        invariant
            n == s@.len(),
            i <= n,
            v@ == s@.subrange(0, i as int),
        decreases n - i,
    {
        v.push(s.get_char(i));
        i += 1;
    }
    assert(v@ =~= s@);
    v
}

/// An owned copy of the characters `from..to` of `s`.
pub fn substring(s: &str, from: usize, to: usize) -> (r: String)
    requires
        from <= to <= s@.len(),
    ensures
        r@ == s@.subrange(from as int, to as int),
{
    String::from_str(s.substring_char(from, to))
}

/// Whether `sep` occurs in `s` at position `i`.
pub fn matches_at(s: &Vec<char>, sep: &Vec<char>, i: usize) -> (r: bool)
    ensures
        r == (i + sep@.len() <= s@.len() && s@.subrange(i as int, i + sep@.len()) == sep@),
{
    if i > s.len() || sep.len() > s.len() - i {
        return false;
    }
    let mut j: usize = 0;
    while j < sep.len()
        invariant
            i + sep@.len() <= s@.len(),
            s@.len() <= usize::MAX,
            j <= sep@.len(),
            forall|k: int| 0 <= k < j ==> s@[i + k] == sep@[k],
        decreases sep@.len() - j,
    {
        if s[i + j] != sep[j] {
            assert(s@.subrange(i as int, i + sep@.len())[j as int] != sep@[j as int]);
            return false;
        }
        j += 1;
    }
    assert(s@.subrange(i as int, i + sep@.len()) =~= sep@);
    true
}

/// The first position at or after `from` where `sep` occurs in `s`.
pub fn find(s: &Vec<char>, sep: &Vec<char>, from: usize) -> (r: Option<usize>)
    ensures
        match r {
            Some(k) => find_from(s@, sep@, from as int) == k as int,
            None => find_from(s@, sep@, from as int) == -1,
        },
{
    let mut i: usize = from;
    while i <= s.len() && sep.len() <= s.len() - i
        invariant
            from <= i,
            find_from(s@, sep@, from as int) == find_from(s@, sep@, i as int),
        decreases s@.len() + 1 - i,
    {
        if matches_at(s, sep, i) {
            return Some(i);
        }
        proof {
            if i as int == s@.len() {
                assert(s@.subrange(i as int, i as int) =~= sep@);
            }
        }
        i += 1;
    }
    None
}

/// Whether `sep` occurs anywhere in `s`.
pub fn str_contains(s: &str, sep: &str) -> (r: bool)
    ensures
        r == contains(s@, sep@),
{
    let sc = chars_of(s);
    let pc = chars_of(sep);
    find(&sc, &pc, 0).is_some()
}

/// Whether `a` and `b` hold the same characters.
pub fn str_eq(a: &str, b: &str) -> (r: bool)
    ensures
        r == (a@ == b@),
{
    let ac = chars_of(a);
    let bc = chars_of(b);
    if ac.len() != bc.len() {
        return false;
    }
    proof {
        assert(ac@.subrange(0, ac@.len() as int) =~= ac@);
    }
    matches_at(&ac, &bc, 0)
}

/// The views of a sequence of strings.
pub open spec fn views(v: Seq<String>) -> Seq<Seq<char>> {
    v.map_values(|x: String| x@)
}

/// The pieces of the characters `lo..hi` of `s` between copies of `c`.
pub fn split_range(s: &str, cs: &Vec<char>, lo: usize, hi: usize, c: char) -> (r: Vec<String>)
    requires
        cs@ == s@,
        lo <= hi <= s@.len(),
    ensures
        views(r@) == split_on(s@.subrange(lo as int, hi as int), c),
{
    let mut segs: Vec<String> = Vec::new();
    let mut start: usize = lo;
    let mut i: usize = lo;
    assert(s@.subrange(lo as int, lo as int) =~= Seq::<char>::empty());
    assert(views(segs@).push(s@.subrange(start as int, i as int)) =~= seq![Seq::<char>::empty()]);
    while i < hi
        invariant
            cs@ == s@,
            lo <= start <= i <= hi,
            hi <= s@.len(),
            views(segs@).push(s@.subrange(start as int, i as int)) == split_on(
                s@.subrange(lo as int, i as int),
                c,
            ),
        decreases hi - i,
    {
        let x = cs[i];
        let ghost prev = s@.subrange(lo as int, i as int);
        let ghost t = s@.subrange(lo as int, i + 1);
        assert(t.drop_last() =~= prev);
        assert(t.last() == x);
        if x == c {
            let piece = substring(s, start, i);
            let ghost before = views(segs@);
            segs.push(piece);
            assert(views(segs@) =~= before.push(piece@));
            start = i + 1;
            assert(s@.subrange(start as int, start as int) =~= Seq::<char>::empty());
        } else {
            let ghost p = views(segs@).push(s@.subrange(start as int, i as int));
            assert(s@.subrange(start as int, i as int).push(x) =~= s@.subrange(
                start as int,
                i + 1,
            ));
            assert(views(segs@).push(s@.subrange(start as int, i + 1)) =~= p.update(
                p.len() - 1,
                p.last().push(x),
            ));
        }
        i += 1;
    }
    let last = substring(s, start, hi);
    let ghost before = views(segs@);
    segs.push(last);
    assert(views(segs@) =~= before.push(last@));
    segs
}

/// Where `cs` begins once the copies of `c` at its start are left out.
pub fn front_bound(cs: &Vec<char>, c: char) -> (r: usize)
    ensures
        r <= cs@.len(),
        cs@.subrange(r as int, cs@.len() as int) == trim_front(cs@, c),
{
    let n = cs.len();
    let mut lo: usize = 0;
    assert(cs@.subrange(0, n as int) =~= cs@);
    while lo < n && cs[lo] == c
        invariant
            n == cs@.len(),
            lo <= n,
            trim_front(cs@, c) == trim_front(cs@.subrange(lo as int, n as int), c),
        decreases n - lo,
    {
        assert(cs@.subrange(lo as int, n as int).drop_first() =~= cs@.subrange(lo + 1, n as int));
        lo += 1;
    }
    lo
}

/// The bounds of `cs` once the copies of `c` at either end are left out.
pub fn trim_range(cs: &Vec<char>, c: char) -> (r: (usize, usize))
    ensures
        r.0 <= r.1 <= cs@.len(),
        cs@.subrange(r.0 as int, r.1 as int) == trim_both(cs@, c),
{
    let n = cs.len();
    let lo = front_bound(cs, c);
    let mut hi: usize = n;
    while hi > lo && cs[hi - 1] == c
        invariant
            n == cs@.len(),
            lo <= hi <= n,
            trim_front(cs@, c) == cs@.subrange(lo as int, n as int),
            trim_back(cs@.subrange(lo as int, n as int), c) == trim_back(
                cs@.subrange(lo as int, hi as int),
                c,
            ),
        decreases hi,
    {
        assert(cs@.subrange(lo as int, hi as int).drop_last() =~= cs@.subrange(lo as int, hi - 1));
        hi -= 1;
    }
    (lo, hi)
}

/// Whether `a` and `b` are equal up to the case of ASCII letters.
pub fn str_eq_ignore_ascii_case(a: &str, b: &str) -> (r: bool)
    ensures
        r == eq_ignore_ascii_case(a@, b@),
{
    let ac = chars_of(a);
    let bc = chars_of(b);
    if ac.len() != bc.len() {
        return false;
    }
    let mut i: usize = 0;
    while i < ac.len()
        invariant
            ac@ == a@,
            bc@ == b@,
            ac@.len() == bc@.len(),
            i <= ac@.len(),
            forall|k: int| 0 <= k < i ==> #[trigger] char_eq_ignore_ascii_case(a@[k], b@[k]),
        decreases ac@.len() - i,
    {
        let x = ac[i];
        let y = bc[i];
        let same = x == y || ('A' <= x && x <= 'Z' && (x as u32) + 32 == (y as u32)) || ('A' <= y
            && y <= 'Z' && (y as u32) + 32 == (x as u32));
        if !same {
            assert(!char_eq_ignore_ascii_case(a@[i as int], b@[i as int]));
            return false;
        }
        i += 1;
    }
    true
}

/// A digit's value never exceeds that of a longer run it starts.
pub proof fn lemma_digits_prefix_le(s: Seq<char>, k: int)
    requires
        0 <= k <= s.len(),
    ensures
        digits_value(s.subrange(0, k)) <= digits_value(s),
    decreases s.len(),
{
    if k == s.len() {
        assert(s.subrange(0, k) =~= s);
    } else {
        lemma_digits_prefix_le(s.drop_last(), k);
        assert(s.drop_last().subrange(0, k) =~= s.subrange(0, k));
    }
}

/// The number that `s` spells in decimal, if it is one that fits a `usize`.
pub fn parse_decimal(s: &str) -> (r: Option<usize>)
    ensures
        r.is_some() == parse_usize(s@).is_some(),
        r.is_some() ==> parse_usize(s@) == Some(r.unwrap() as nat),
{
    let cs = chars_of(s);
    let n = cs.len();
    let start: usize = if n > 0 && cs[0] == '+' {
        1
    } else {
        0
    };
    let ghost d = unsigned_digits(s@);
    assert(d =~= cs@.subrange(start as int, n as int));
    if start == n {
        return None;
    }
    let mut acc: usize = 0;
    let mut i: usize = start;
    assert(d.subrange(0, 0) =~= Seq::<char>::empty());
    while i < n
        invariant
            cs@ == s@,
            n == cs@.len(),
            start <= i <= n,
            d == cs@.subrange(start as int, n as int),
            d == unsigned_digits(s@),
            acc as nat == digits_value(d.subrange(0, i - start)),
            all_digits(d.subrange(0, i - start)),
        decreases n - i,
    {
        let x = cs[i];
        if !('0' <= x && x <= '9') {
            assert(!is_digit(d[i - start]));
            assert(!all_digits(d));
            return None;
        }
        let dv = (x as u32 - '0' as u32) as usize;
        let ghost pre = d.subrange(0, i - start);
        let ghost next = d.subrange(0, i + 1 - start);
        assert(next.drop_last() =~= pre);
        assert(next.last() == x);
        assert(digits_value(next) == digits_value(pre) * 10 + digit_value(x));
        assert forall|k: int| 0 <= k < next.len() implies #[trigger] is_digit(next[k]) by {
            if k < pre.len() {
                assert(next[k] == pre[k]);
                assert(is_digit(pre[k]));
            }
        }
        match acc.checked_mul(10) {
            Some(m) => match m.checked_add(dv) {
                Some(v) => {
                    acc = v;
                },
                None => {
                    proof {
                        if all_digits(d) {
                            lemma_digits_prefix_le(d, i + 1 - start);
                            assert(digits_value(next) > usize::MAX);
                            assert(digits_value(d) > usize::MAX);
                        }
                    }
                    return None;
                },
            },
            None => {
                proof {
                    if all_digits(d) {
                        lemma_digits_prefix_le(d, i + 1 - start);
                    }
                }
                return None;
            },
        }
        i += 1;
    }
    assert(d.subrange(0, n - start) =~= d);
    Some(acc)
}

fn digit_str(d: usize) -> (r: &'static str)
    requires
        d < 10,
    ensures
        r@ == seq![digit_char(d as nat)],
{
    proof {
        reveal_strlit("0");
        reveal_strlit("1");
        reveal_strlit("2");
        reveal_strlit("3");
        reveal_strlit("4");
        reveal_strlit("5");
        reveal_strlit("6");
        reveal_strlit("7");
        reveal_strlit("8");
        reveal_strlit("9");
    }
    let r = if d == 0 {
        "0"
    } else if d == 1 {
        "1"
    } else if d == 2 {
        "2"
    } else if d == 3 {
        "3"
    } else if d == 4 {
        "4"
    } else if d == 5 {
        "5"
    } else if d == 6 {
        "6"
    } else if d == 7 {
        "7"
    } else if d == 8 {
        "8"
    } else {
        "9"
    };
    assert(r@ =~= seq![digit_char(d as nat)]);
    r
}

/// The decimal spelling of `n`.
pub fn decimal_string(n: usize) -> (r: String)
    ensures
        r@ == decimal(n as nat),
    decreases n,
{
    if n < 10 {
        String::from_str(digit_str(n))
    } else {
        let mut s = decimal_string(n / 10);
        s.append(digit_str(n % 10));
        assert(s@ =~= decimal(n as nat));
        s
    }
}

} // verus!
