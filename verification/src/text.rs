//! Character-sequence helpers shared by every parser in the crate. Each
//! executable helper is proved against a spec function over `Seq<char>`,
//! the view of `&str` and `String`.

use vstd::prelude::*;

verus! {

/// The Unicode `White_Space` property, the set `char::is_whitespace` tests.
pub open spec fn is_whitespace(c: char) -> bool {
    let u = c as u32;
    ||| 0x9 <= u <= 0xd
    ||| u == 0x20
    ||| u == 0x85
    ||| u == 0xa0
    ||| u == 0x1680
    ||| 0x2000 <= u <= 0x200a
    ||| u == 0x2028
    ||| u == 0x2029
    ||| u == 0x202f
    ||| u == 0x205f
    ||| u == 0x3000
}

/// `s` without its leading whitespace.
pub open spec fn trim_start(s: Seq<char>) -> Seq<char>
    decreases s.len(),
{
    if s.len() > 0 && is_whitespace(s[0]) {
        trim_start(s.drop_first())
    } else {
        s
    }
}

/// `s` without its trailing whitespace.
pub open spec fn trim_end(s: Seq<char>) -> Seq<char>
    decreases s.len(),
{
    if s.len() > 0 && is_whitespace(s.last()) {
        trim_end(s.drop_last())
    } else {
        s
    }
}

/// `s` without leading and trailing whitespace, as `str::trim` returns it.
pub open spec fn trim(s: Seq<char>) -> Seq<char> {
    trim_end(trim_start(s))
}

/// `p` is a prefix of `s`.
pub open spec fn has_prefix(s: Seq<char>, p: Seq<char>) -> bool {
    p.len() <= s.len() && s.subrange(0, p.len() as int) == p
}

/// `p` is a suffix of `s`.
pub open spec fn has_suffix(s: Seq<char>, p: Seq<char>) -> bool {
    p.len() <= s.len() && s.subrange(s.len() - p.len(), s.len() as int) == p
}

/// `s` with the prefix `p` removed, when `s` starts with `p` (`str::strip_prefix`).
pub open spec fn strip_prefix(s: Seq<char>, p: Seq<char>) -> Option<Seq<char>> {
    if has_prefix(s, p) {
        Some(s.skip(p.len() as int))
    } else {
        None
    }
}

/// `p` occurs in `s` at position `i`.
pub open spec fn occurs_at(s: Seq<char>, p: Seq<char>, i: int) -> bool {
    0 <= i && i + p.len() <= s.len() && s.subrange(i, i + p.len()) == p
}

/// `p` occurs somewhere in `s` (`str::contains` with a string pattern).
pub open spec fn contains_seq(s: Seq<char>, p: Seq<char>) -> bool {
    exists|i: int| occurs_at(s, p, i)
}

/// Index of the first `c` in `s`, if any (`str::find` with a `char` pattern).
pub open spec fn find_char(s: Seq<char>, c: char) -> Option<int>
    decreases s.len(),
{
    if s.len() == 0 {
        None
    } else if s[0] == c {
        Some(0)
    } else {
        match find_char(s.drop_first(), c) {
            Some(i) => Some(i + 1),
            None => None,
        }
    }
}

/// The Unicode lowercase mapping of a string, as `str::to_lowercase`
/// computes it (a function of the string alone; it may change the length).
pub uninterp spec fn lowercase(s: Seq<char>) -> Seq<char>;

/// ASCII lowercasing of one character (`char::to_ascii_lowercase`).
pub open spec fn ascii_lower(c: char) -> char {
    if 'A' <= c <= 'Z' {
        ((c as u32) + 32) as char
    } else {
        c
    }
}

/// Every character of `s` is ASCII.
pub open spec fn all_ascii(s: Seq<char>) -> bool {
    forall|i: int| 0 <= i < s.len() ==> (s[i] as u32) < 0x80
}

/// `str::to_lowercase`: the contract names the result `lowercase(s@)`, and
/// states what the documentation gives plainly of ASCII text: there it is
/// the ASCII lowercase, character for character.
#[verifier::external_body]
pub(crate) fn to_lowercase(s: &str) -> (res: String)
    ensures
        res@ == lowercase(s@),
        all_ascii(s@) ==> res@ == s@.map_values(|c: char| ascii_lower(c)),
{
    s.to_lowercase()
}

/// The texts of a sequence of strings.
pub open spec fn views(v: Seq<String>) -> Seq<Seq<char>> {
    v.map_values(|s: String| s@)
}

/// Whether some string in `v` has the text of `s`.
pub fn contains_string(v: &Vec<String>, s: &String) -> (res: bool)
    ensures
        res == exists|k: int| 0 <= k < v@.len() && #[trigger] v@[k]@ == s@,
{
    let mut i: usize = 0;
    while i < v.len()
        invariant
            i <= v@.len(),
            forall|k: int| 0 <= k < i ==> #[trigger] v@[k]@ != s@,
        decreases v.len() - i,
    {
        if v[i] == *s {
            return true;
        }
        i = i + 1;
    }
    false
}

/// A `String` holding the characters of `a` then `b`.
pub fn concat_str(a: &str, b: &str) -> (res: String)
    ensures
        res@ == a@ + b@,
{
    let mut v = str_chars(a);
    let w = str_chars(b);
    let mut i: usize = 0;
    let ghost v0 = v@;
    while i < w.len()
        invariant
            i <= w@.len(),
            v@ == v0 + w@.take(i as int),
        decreases w.len() - i,
    {
        v.push(w[i]);
        assert(w@.take(i + 1) =~= w@.take(i as int).push(w@[i as int]));
        i = i + 1;
    }
    assert(w@.take(w@.len() as int) =~= w@);
    string_from_chars(v.as_slice())
}

/// The digit for `d` in base `base` (at most 16), upper case when `upper`.
pub open spec fn digit_of(d: nat, upper: bool) -> char {
    if d < 10 {
        (('0' as u32) + d) as char
    } else if upper {
        (('A' as u32) + (d - 10)) as char
    } else {
        (('a' as u32) + (d - 10)) as char
    }
}

/// `n` in base `base` without leading zeros.
pub open spec fn radix_digits(n: nat, base: nat, upper: bool) -> Seq<char>
    recommends
        2 <= base <= 16,
    decreases n,
{
    if n < base || base < 2 {
        seq![digit_of(n, upper)]
    } else {
        proof {
            vstd::arithmetic::div_mod::lemma_div_decreases(n as int, base as int);
        }
        radix_digits(n / base, base, upper) + seq![digit_of(n % base, upper)]
    }
}

/// `n` in lowercase hexadecimal without leading zeros (`format!("{:x}")`).
pub open spec fn hex_lower(n: nat) -> Seq<char> {
    radix_digits(n, 16, false)
}

/// `n` in decimal (`format!("{}")`).
pub open spec fn decimal(n: nat) -> Seq<char> {
    radix_digits(n, 10, false)
}

/// Digits written in base 2 to 16 are never empty, and a number at least
/// the base takes two or more.
pub proof fn lemma_radix_len(n: nat, base: nat, upper: bool)
    requires
        2 <= base <= 16,
    ensures
        radix_digits(n, base, upper).len() >= 1,
        n >= base ==> radix_digits(n, base, upper).len() >= 2,
    decreases n,
{
    if n >= base {
        vstd::arithmetic::div_mod::lemma_div_decreases(n as int, base as int);
        lemma_radix_len(n / base, base, upper);
    }
}

proof fn lemma_digit_injective(a: nat, b: nat, upper: bool)
    requires
        a < 16,
        b < 16,
        digit_of(a, upper) == digit_of(b, upper),
    ensures
        a == b,
{
    assert(digit_of(a, upper) as u32 == digit_of(b, upper) as u32);
}

/// Different numbers are written differently in any base from 2 to 16.
pub proof fn lemma_radix_injective(n: nat, m: nat, base: nat, upper: bool)
    requires
        2 <= base <= 16,
        radix_digits(n, base, upper) == radix_digits(m, base, upper),
    ensures
        n == m,
    decreases n,
{
    lemma_radix_len(n, base, upper);
    lemma_radix_len(m, base, upper);
    let s = radix_digits(n, base, upper);
    if n < base && m < base {
        assert(s[0] == digit_of(n, upper));
        lemma_digit_injective(n, m, upper);
    } else if n >= base && m >= base {
        vstd::arithmetic::div_mod::lemma_div_decreases(n as int, base as int);
        let p = radix_digits(n / base, base, upper);
        let q = radix_digits(m / base, base, upper);
        assert(s == p + seq![digit_of(n % base, upper)]);
        assert(s == q + seq![digit_of(m % base, upper)]);
        assert(s.drop_last() =~= p);
        assert(s.drop_last() =~= q);
        assert(s.last() == digit_of(n % base, upper));
        assert(s.last() == digit_of(m % base, upper));
        lemma_digit_injective(n % base, m % base, upper);
        lemma_radix_injective(n / base, m / base, base, upper);
        vstd::arithmetic::div_mod::lemma_fundamental_div_mod(n as int, base as int);
        vstd::arithmetic::div_mod::lemma_fundamental_div_mod(m as int, base as int);
    }
}

/// The digit for `d < 16`, upper case when `upper`.
pub fn hex_digit_char(d: u64, upper: bool) -> (res: char)
    requires
        d < 16,
    ensures
        res == digit_of(d as nat, upper),
{
    digit_char(d, upper)
}

fn digit_char(d: u64, upper: bool) -> (res: char)
    requires
        d < 16,
    ensures
        res == digit_of(d as nat, upper),
{
    if d < 10 {
        char_from_code(0x30 + d as u8)
    } else if upper {
        char_from_code(0x41 + (d - 10) as u8)
    } else {
        char_from_code(0x61 + (d - 10) as u8)
    }
}

/// The character with an ASCII code point.
pub(crate) fn char_from_code(code: u8) -> (res: char)
    requires
        code < 0x80,
    ensures
        res as u32 == code,
{
    code as char
}

/// `n` written in base `base` (2 to 16) without leading zeros.
pub fn format_radix(n: u64, base: u64, upper: bool) -> (res: Vec<char>)
    requires
        2 <= base <= 16,
    ensures
        res@ == radix_digits(n as nat, base as nat, upper),
{
    let mut digits: Vec<char> = Vec::new();
    let mut m: u64 = n;
    loop
        invariant
            2 <= base <= 16,
            radix_digits(n as nat, base as nat, upper) == radix_digits(m as nat, base as nat, upper)
                + digits@,
        decreases m,
    {
        let d = m % base;
        let c = digit_char(d, upper);
        let ghost old_digits = digits@;
        let mut next: Vec<char> = Vec::new();
        next.push(c);
        let mut i: usize = 0;
        while i < digits.len()
            invariant
                i <= digits@.len(),
                next@ == seq![c] + digits@.take(i as int),
            decreases digits.len() - i,
        {
            next.push(digits[i]);
            assert(digits@.take(i + 1) =~= digits@.take(i as int).push(digits@[i as int]));
            i = i + 1;
        }
        assert(digits@.take(digits@.len() as int) =~= digits@);
        digits = next;
        if m < base {
            proof {
                vstd::arithmetic::div_mod::lemma_small_mod(m as nat, base as nat);
            }
            assert(radix_digits(m as nat, base as nat, upper) == seq![c]);
            assert(radix_digits(n as nat, base as nat, upper) =~= digits@);
            return digits;
        }
        assert(radix_digits(m as nat, base as nat, upper) == radix_digits(
            (m / base) as nat,
            base as nat,
            upper,
        ) + seq![c]);
        assert(radix_digits(m as nat, base as nat, upper) + old_digits =~= radix_digits(
            (m / base) as nat,
            base as nat,
            upper,
        ) + digits@);
        m = m / base;
    }
}

/// `n` in lowercase hexadecimal, as `format!("{:x}", n)` writes it.
pub fn format_hex(n: u64) -> (res: Vec<char>)
    ensures
        res@ == hex_lower(n as nat),
{
    format_radix(n, 16, false)
}

/// `n` in decimal, as `format!("{}", n)` writes it.
pub fn format_decimal(n: u64) -> (res: Vec<char>)
    ensures
        res@ == decimal(n as nat),
{
    format_radix(n, 10, false)
}

/// The characters of a string slice, one by one (`str::chars`).
#[verifier::external_body]
pub(crate) fn str_chars(s: &str) -> (res: Vec<char>)
    ensures
        res@ == s@,
{
    s.chars().collect()
}

/// A `String` holding exactly the given characters (`FromIterator<&char>`
/// for `String`).
#[verifier::external_body]
pub(crate) fn string_from_chars(v: &[char]) -> (res: String)
    ensures
        res@ == v@,
{
    v.iter().collect()
}

/// Whether `c` is whitespace, decided from the fixed `White_Space` list.
pub fn char_is_whitespace(c: char) -> (res: bool)
    ensures
        res == is_whitespace(c),
{
    let u: u32 = c as u32;
    (0x9 <= u && u <= 0xd) || u == 0x20 || u == 0x85 || u == 0xa0 || u == 0x1680 || (0x2000 <= u
        && u <= 0x200a) || u == 0x2028 || u == 0x2029 || u == 0x202f || u == 0x205f || u == 0x3000
}

proof fn lemma_trim_start_skip(s: Seq<char>, i: int)
    requires
        0 <= i < s.len(),
        is_whitespace(s[i]),
    ensures
        trim_start(s.skip(i)) == trim_start(s.skip(i + 1)),
{
    assert(s.skip(i).drop_first() =~= s.skip(i + 1));
}

proof fn lemma_trim_end_take(s: Seq<char>, j: int)
    requires
        0 < j <= s.len(),
        is_whitespace(s[j - 1]),
    ensures
        trim_end(s.take(j)) == trim_end(s.take(j - 1)),
{
    assert(s.take(j).drop_last() =~= s.take(j - 1));
}

proof fn lemma_trim_start_first(s: Seq<char>)
    ensures
        trim_start(s).len() == 0 || !is_whitespace(trim_start(s)[0]),
    decreases s.len(),
{
    if s.len() > 0 && is_whitespace(s[0]) {
        lemma_trim_start_first(s.drop_first());
    }
}

proof fn lemma_trim_end_prefix(t: Seq<char>)
    ensures
        trim_end(t) == t.take(trim_end(t).len() as int),
        trim_end(t).len() <= t.len(),
        t.len() > 0 && !is_whitespace(t[0]) ==> trim_end(t).len() > 0,
    decreases t.len(),
{
    if t.len() > 0 && is_whitespace(t.last()) {
        lemma_trim_end_prefix(t.drop_last());
        let k = trim_end(t).len() as int;
        assert(t.drop_last().take(k) =~= t.take(k));
        if !is_whitespace(t[0]) {
            if t.len() == 1 {
                assert(t.last() == t[0]);
            } else {
                assert(t.drop_last()[0] == t[0]);
            }
        }
    } else {
        assert(t.take(t.len() as int) =~= t);
    }
}

proof fn lemma_trim_end_idem(s: Seq<char>)
    ensures
        trim_end(trim_end(s)) == trim_end(s),
    decreases s.len(),
{
    if s.len() > 0 && is_whitespace(s.last()) {
        lemma_trim_end_idem(s.drop_last());
    }
}

/// Trimming twice is trimming once.
pub proof fn lemma_trim_idem(s: Seq<char>)
    ensures
        trim(trim(s)) == trim(s),
{
    let t = trim_start(s);
    lemma_trim_start_first(s);
    lemma_trim_end_prefix(t);
    let u = trim_end(t);
    if t.len() == 0 {
        assert(u.len() == 0);
        assert(trim_start(u) == u);
    } else {
        assert(u[0] == t[0]);
        assert(trim_start(u) == u);
        lemma_trim_end_idem(t);
    }
}

/// The bounds `(a, b)` of `trim(v)` inside `v`.
pub fn trim_bounds(v: &[char]) -> (res: (usize, usize))
    ensures
        res.0 <= res.1 <= v@.len(),
        v@.subrange(res.0 as int, res.1 as int) == trim(v@),
{
    let n = v.len();
    let mut a: usize = 0;
    assert(v@.skip(0) =~= v@);
    while a < n && char_is_whitespace(v[a])
        invariant
            a <= n == v@.len(),
            trim_start(v@) == trim_start(v@.skip(a as int)),
        decreases n - a,
    {
        proof {
            lemma_trim_start_skip(v@, a as int);
        }
        a = a + 1;
    }
    let ghost ts = v@.skip(a as int);
    assert(trim_start(v@) == ts) by {
        if a < n {
            assert(ts[0] == v@[a as int]);
        }
    }
    let mut b: usize = n;
    assert(ts.take(ts.len() as int) =~= ts);
    while b > a && char_is_whitespace(v[b - 1])
        invariant
            a <= b <= n == v@.len(),
            ts == v@.skip(a as int),
            trim_end(ts) == trim_end(ts.take(b - a)),
        decreases b,
    {
        proof {
            assert(ts[b - a - 1] == v@[b - 1]);
            lemma_trim_end_take(ts, b - a);
        }
        b = b - 1;
    }
    assert(trim_end(ts.take(b - a)) == ts.take(b - a)) by {
        if b > a {
            assert(ts.take(b - a).last() == v@[b - 1]);
        }
    }
    assert(ts.take(b - a) =~= v@.subrange(a as int, b as int));
    (a, b)
}

/// `s.trim()` as a new `String`.
pub fn trimmed(s: &str) -> (res: String)
    ensures
        res@ == trim(s@),
{
    let v = str_chars(s);
    let (a, b) = trim_bounds(v.as_slice());
    string_from_chars(&v.as_slice()[a..b])
}

/// Whether `s` starts with `p`.
pub fn chars_start_with(s: &[char], p: &[char]) -> (res: bool)
    ensures
        res == has_prefix(s@, p@),
{
    if p.len() > s.len() {
        return false;
    }
    let mut i: usize = 0;
    while i < p.len()
        invariant
            p@.len() <= s@.len(),
            i <= p@.len(),
            forall|k: int| 0 <= k < i ==> s@[k] == p@[k],
        decreases p.len() - i,
    {
        if s[i] != p[i] {
            assert(s@.subrange(0, p@.len() as int)[i as int] != p@[i as int]);
            return false;
        }
        i = i + 1;
    }
    assert(s@.subrange(0, p@.len() as int) =~= p@);
    true
}

/// Whether `s` ends with `p`.
pub fn chars_end_with(s: &[char], p: &[char]) -> (res: bool)
    ensures
        res == has_suffix(s@, p@),
{
    if p.len() > s.len() {
        return false;
    }
    let n = s.len();
    let off = n - p.len();
    let mut i: usize = 0;
    while i < p.len()
        invariant
            n == s@.len(),
            p@.len() <= s@.len(),
            off + p@.len() == s@.len(),
            i <= p@.len(),
            forall|k: int| 0 <= k < i ==> s@[off + k] == p@[k],
        decreases p.len() - i,
    {
        if s[off + i] != p[i] {
            assert(s@.subrange(off as int, s@.len() as int)[i as int] != p@[i as int]);
            return false;
        }
        i = i + 1;
    }
    assert(s@.subrange(off as int, s@.len() as int) =~= p@);
    true
}

/// Whether two character sequences are equal.
pub fn chars_equal(a: &[char], b: &[char]) -> (res: bool)
    ensures
        res == (a@ == b@),
{
    if a.len() != b.len() {
        return false;
    }
    let r = chars_start_with(a, b);
    assert(a@ =~= a@.subrange(0, b@.len() as int));
    r
}

/// `find_char(s, c) == Some(i)` exactly when `i` is the first position of `c`.
pub proof fn lemma_find_char(s: Seq<char>, c: char)
    ensures
        match find_char(s, c) {
            Some(i) => 0 <= i < s.len() && s[i] == c && forall|k: int| 0 <= k < i ==> s[k] != c,
            None => forall|k: int| 0 <= k < s.len() ==> s[k] != c,
        },
    decreases s.len(),
{
    if s.len() > 0 && s[0] != c {
        lemma_find_char(s.drop_first(), c);
        match find_char(s.drop_first(), c) {
            Some(i) => {
                assert forall|k: int| 0 <= k < i + 1 implies s[k] != c by {
                    if k > 0 {
                        assert(s[k] == s.drop_first()[k - 1]);
                    }
                }
            },
            None => {
                assert forall|k: int| 0 <= k < s.len() implies s[k] != c by {
                    if k > 0 {
                        assert(s[k] == s.drop_first()[k - 1]);
                    }
                }
            },
        }
    }
}

/// Position of the first `c` in `s` at or after `from`, counted from `from`.
pub fn chars_find_from(s: &[char], from: usize, c: char) -> (res: Option<usize>)
    requires
        from <= s@.len(),
    ensures
        match res {
            Some(i) => find_char(s@.skip(from as int), c) == Some(i as int),
            None => find_char(s@.skip(from as int), c) is None,
        },
{
    let ghost t = s@.skip(from as int);
    let mut i: usize = from;
    while i < s.len()
        invariant
            from <= i <= s@.len(),
            t == s@.skip(from as int),
            forall|k: int| from <= k < i ==> s@[k] != c,
        decreases s.len() - i,
    {
        if s[i] == c {
            proof {
                lemma_find_char(t, c);
                let j = i - from;
                assert(t[j] == s@[i as int]);
                match find_char(t, c) {
                    Some(jj) => {
                        if jj < j {
                            assert(t[jj] == s@[from + jj]);
                        }
                    },
                    None => {},
                }
            }
            return Some(i - from);
        }
        i = i + 1;
    }
    proof {
        lemma_find_char(t, c);
        match find_char(t, c) {
            Some(j) => {
                assert(t[j] == s@[from + j]);
            },
            None => {},
        }
    }
    None
}

/// Whether `p` occurs anywhere in `s`.
pub fn chars_contain(s: &[char], p: &[char]) -> (res: bool)
    ensures
        res == contains_seq(s@, p@),
{
    if p.len() > s.len() {
        assert forall|i: int| !occurs_at(s@, p@, i) by {}
        return false;
    }
    let last = s.len() - p.len();
    let mut i: usize = 0;
    loop
        invariant
            p@.len() <= s@.len(),
            last == s@.len() - p@.len(),
            i <= last,
            forall|k: int| 0 <= k < i ==> !occurs_at(s@, p@, k),
        decreases last + 1 - i,
    {
        if chars_start_with(&s[i..s.len()], p) {
            assert(s@.subrange(i as int, s@.len() as int).subrange(0, p@.len() as int) =~= s@.subrange(
                i as int,
                i + p@.len(),
            ));
            assert(occurs_at(s@, p@, i as int));
            return true;
        }
        assert(s@.subrange(i as int, s@.len() as int).subrange(0, p@.len() as int) =~= s@.subrange(
            i as int,
            i + p@.len(),
        ));
        if i == last {
            return false;
        }
        i = i + 1;
    }
}

} // verus!
