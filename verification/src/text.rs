//! Character-level text handling shared by the URL, header and input-file
//! logic: every operation here is stated over the `Seq<char>` view of a
//! string, so callers can state their own contracts in the same terms.

use vstd::prelude::*;

verus! {

// ---------------------------------------------------------------------
// Specifications
// ---------------------------------------------------------------------

/// The character views of a sequence of strings.
pub open spec fn views(v: Seq<String>) -> Seq<Seq<char>> {
    v.map_values(|s: String| s@)
}

/// ASCII `A`..=`Z` mapped to `a`..=`z`; every other character unchanged.
pub open spec fn lower_char(c: char) -> char {
    if 'A' <= c && c <= 'Z' {
        ((c as u32) + 32) as char
    } else {
        c
    }
}

pub open spec fn ascii_lowercase(s: Seq<char>) -> Seq<char> {
    s.map_values(|c: char| lower_char(c))
}

pub open spec fn has_suffix(s: Seq<char>, suffix: Seq<char>) -> bool {
    suffix.len() <= s.len() && s.subrange(s.len() - suffix.len(), s.len() as int) == suffix
}

/// `str::trim_end_matches` with a string pattern: every trailing
/// occurrence of a non-empty `suffix` is removed, not only one.
pub open spec fn trim_suffix_all(s: Seq<char>, suffix: Seq<char>) -> Seq<char>
    decreases s.len(),
{
    if suffix.len() > 0 && has_suffix(s, suffix) {
        trim_suffix_all(s.subrange(0, s.len() - suffix.len()), suffix)
    } else {
        s
    }
}

/// `str::trim_start_matches` with a character pattern.
pub open spec fn trim_start_char(s: Seq<char>, c: char) -> Seq<char>
    decreases s.len(),
{
    if s.len() > 0 && s[0] == c {
        trim_start_char(s.drop_first(), c)
    } else {
        s
    }
}

/// `str::trim_end_matches` with a character pattern.
pub open spec fn trim_end_char(s: Seq<char>, c: char) -> Seq<char>
    decreases s.len(),
{
    if s.len() > 0 && s.last() == c {
        trim_end_char(s.drop_last(), c)
    } else {
        s
    }
}

/// The parts that are not empty, in their order.
pub open spec fn nonempty_parts(parts: Seq<Seq<char>>) -> Seq<Seq<char>>
    decreases parts.len(),
{
    if parts.len() == 0 {
        Seq::empty()
    } else if parts.last().len() > 0 {
        nonempty_parts(parts.drop_last()).push(parts.last())
    } else {
        nonempty_parts(parts.drop_last())
    }
}

/// `[T]::join`: the parts with `sep` between each two neighbours.
pub open spec fn join_parts(parts: Seq<Seq<char>>, sep: Seq<char>) -> Seq<char>
    decreases parts.len(),
{
    if parts.len() == 0 {
        Seq::empty()
    } else if parts.len() == 1 {
        parts[0]
    } else {
        join_parts(parts.drop_last(), sep) + sep + parts.last()
    }
}

/// `str::split` with a character separator: the pieces between
/// separators, always at least one.
pub open spec fn split_on(s: Seq<char>, sep: char) -> Seq<Seq<char>>
    decreases s.len(),
{
    if s.len() == 0 {
        seq![Seq::<char>::empty()]
    } else {
        let prev = split_on(s.drop_last(), sep);
        if s.last() == sep {
            prev.push(Seq::empty())
        } else {
            prev.update(prev.len() - 1, prev.last().push(s.last()))
        }
    }
}

/// `char::is_whitespace`: the characters with Unicode's White_Space property.
pub open spec fn is_whitespace(c: char) -> bool {
    ||| ('\u{9}' <= c && c <= '\u{d}')
    ||| c == ' '
    ||| c == '\u{85}'
    ||| c == '\u{a0}'
    ||| c == '\u{1680}'
    ||| ('\u{2000}' <= c && c <= '\u{200a}')
    ||| c == '\u{2028}'
    ||| c == '\u{2029}'
    ||| c == '\u{202f}'
    ||| c == '\u{205f}'
    ||| c == '\u{3000}'
}

pub open spec fn trim_start_ws(s: Seq<char>) -> Seq<char>
    decreases s.len(),
{
    if s.len() > 0 && is_whitespace(s[0]) {
        trim_start_ws(s.drop_first())
    } else {
        s
    }
}

pub open spec fn trim_end_ws(s: Seq<char>) -> Seq<char>
    decreases s.len(),
{
    if s.len() > 0 && is_whitespace(s.last()) {
        trim_end_ws(s.drop_last())
    } else {
        s
    }
}

/// `str::trim`: leading and trailing whitespace removed.
pub open spec fn trim_ws(s: Seq<char>) -> Seq<char> {
    trim_end_ws(trim_start_ws(s))
}

/// Whether `pat` occurs in `s` as a contiguous run.
pub open spec fn contains_seq(s: Seq<char>, pat: Seq<char>) -> bool {
    exists|i: int| 0 <= i && i + pat.len() <= s.len() && #[trigger] s.subrange(i, i + pat.len()) == pat
}

pub open spec fn is_digit(c: char) -> bool {
    '0' <= c && c <= '9'
}

pub open spec fn all_digits(s: Seq<char>) -> bool {
    forall|i: int| 0 <= i < s.len() ==> is_digit(#[trigger] s[i])
}

/// The value of a run of decimal digits.
pub open spec fn digits_value(s: Seq<char>) -> nat
    decreases s.len(),
{
    if s.len() == 0 {
        0
    } else {
        digits_value(s.drop_last()) * 10 + ((s.last() as u32) - ('0' as u32)) as nat
    }
}

/// Whether `s` starts with a `+` or `-` sign.
pub open spec fn has_sign(s: Seq<char>) -> bool {
    s.len() > 0 && (s[0] == '+' || s[0] == '-')
}

/// `s` without its leading sign, if it has one.
pub open spec fn unsigned_part(s: Seq<char>) -> Seq<char> {
    if has_sign(s) {
        s.drop_first()
    } else {
        s
    }
}

/// The signed value of `s` read as a sign and digits.
pub open spec fn signed_value(s: Seq<char>) -> int {
    if has_sign(s) && s[0] == '-' {
        -digits_value(unsigned_part(s))
    } else {
        digits_value(unsigned_part(s)) as int
    }
}

/// `i64::from_str`: an optional `+` or `-`, then one or more ASCII digits,
/// and the value must fit.
pub open spec fn parse_i64_spec(s: Seq<char>) -> Option<i64> {
    if unsigned_part(s).len() == 0 || !all_digits(unsigned_part(s)) {
        None
    } else if i64::MIN <= signed_value(s) && signed_value(s) <= i64::MAX {
        Some(signed_value(s) as i64)
    } else {
        None
    }
}

/// `s` without its leading `+`, if it has one.
pub open spec fn unsigned_digits(s: Seq<char>) -> Seq<char> {
    if s.len() > 0 && s[0] == '+' {
        s.drop_first()
    } else {
        s
    }
}

/// `u64::from_str`: an optional `+`, then one or more ASCII digits, and the
/// value must fit.
pub open spec fn parse_u64_spec(s: Seq<char>) -> Option<u64> {
    let digits = unsigned_digits(s);
    if digits.len() == 0 || !all_digits(digits) {
        None
    } else if digits_value(digits) <= u64::MAX {
        Some(digits_value(digits) as u64)
    } else {
        None
    }
}

// ---------------------------------------------------------------------
// Lemmas
// ---------------------------------------------------------------------

proof fn lemma_trim_suffix_all_prefix(s: Seq<char>, suffix: Seq<char>)
    ensures
        trim_suffix_all(s, suffix).len() <= s.len(),
        trim_suffix_all(s, suffix) == s.subrange(0, trim_suffix_all(s, suffix).len() as int),
    decreases s.len(),
{
    if suffix.len() > 0 && has_suffix(s, suffix) {
        let t = s.subrange(0, s.len() - suffix.len());
        lemma_trim_suffix_all_prefix(t, suffix);
        assert(t.subrange(0, trim_suffix_all(t, suffix).len() as int) =~= s.subrange(
            0,
            trim_suffix_all(t, suffix).len() as int,
        ));
    } else {
        assert(s.subrange(0, s.len() as int) =~= s);
    }
}

/// Every part that `nonempty_parts` keeps is non-empty.
pub proof fn lemma_nonempty_parts_are_nonempty(parts: Seq<Seq<char>>)
    ensures
        forall|i: int|
            0 <= i < nonempty_parts(parts).len() ==> #[trigger] nonempty_parts(parts)[i].len() > 0,
    decreases parts.len(),
{
    if parts.len() > 0 {
        let prev = nonempty_parts(parts.drop_last());
        lemma_nonempty_parts_are_nonempty(parts.drop_last());
        if parts.last().len() > 0 {
            assert forall|i: int| 0 <= i < nonempty_parts(parts).len() implies #[trigger] nonempty_parts(
                parts,
            )[i].len() > 0 by {
                if i < prev.len() {
                    assert(nonempty_parts(parts)[i] == prev[i]);
                }
            }
        }
    }
}

pub proof fn lemma_join_push(parts: Seq<Seq<char>>, sep: Seq<char>, p: Seq<char>)
    ensures
        join_parts(parts.push(p), sep) == if parts.len() == 0 {
            p
        } else {
            join_parts(parts, sep) + sep + p
        },
{
    assert(parts.push(p).drop_last() =~= parts);
}

proof fn lemma_digits_value_step(s: Seq<char>, i: int)
    requires
        0 <= i < s.len(),
    ensures
        digits_value(s.subrange(0, i + 1)) == digits_value(s.subrange(0, i)) * 10 + ((s[i] as u32)
            - ('0' as u32)) as nat,
{
    assert(s.subrange(0, i + 1).drop_last() =~= s.subrange(0, i));
}

proof fn lemma_digits_value_monotone(s: Seq<char>, i: int, j: int)
    requires
        all_digits(s),
        0 <= i <= j <= s.len(),
    ensures
        digits_value(s.subrange(0, i)) <= digits_value(s.subrange(0, j)),
    decreases j - i,
{
    if i < j {
        lemma_digits_value_monotone(s, i, j - 1);
        lemma_digits_value_step(s, j - 1);
    }
}

// ---------------------------------------------------------------------
// Trusted std calls
// ---------------------------------------------------------------------

/// `String::push`: the documentation says it appends the character to the
/// end of the string; that is all this claims.
#[verifier::external_body]
pub(crate) fn string_push(s: &mut String, c: char)
    ensures
        final(s)@ == old(s)@.push(c),
{
    s.push(c);
}

// ---------------------------------------------------------------------
// Executable helpers
// ---------------------------------------------------------------------

/// The characters of `s`, in order.
pub fn chars_of(s: &str) -> (v: Vec<char>)
    ensures
        v@ == s@,
{
    let n: usize = s.unicode_len();
    let mut v: Vec<char> = Vec::new();
    let mut i: usize = 0;
    while i < n
        invariant
            n == s@.len(),
            i <= n,
            v@ == s@.subrange(0, i as int),
        decreases n - i,
    {
        let c = s.get_char(i);
        v.push(c);
        i = i + 1;
        assert(v@ =~= s@.subrange(0, i as int));
    }
    assert(v@ =~= s@);
    v
}

/// The string made of `chars[lo..hi]`.
pub fn string_of(chars: &Vec<char>, lo: usize, hi: usize) -> (s: String)
    requires
        lo <= hi <= chars@.len(),
    ensures
        s@ == chars@.subrange(lo as int, hi as int),
{
    let mut s = String::new();
    let mut i: usize = lo;
    while i < hi
        invariant
            lo <= i <= hi,
            hi <= chars@.len(),
            s@ == chars@.subrange(lo as int, i as int),
        decreases hi - i,
    {
        string_push(&mut s, chars[i]);
        i = i + 1;
        assert(s@ =~= chars@.subrange(lo as int, i as int));
    }
    s
}

/// A copy of `s`.
pub fn copy_str(s: &str) -> (r: String)
    ensures
        r@ == s@,
{
    String::from_str(s)
}

/// `a` followed by `b`.
pub fn concat2(a: &str, b: &str) -> (r: String)
    ensures
        r@ == a@ + b@,
{
    let mut r = String::from_str(a);
    r.append(b);
    r
}

/// `a`, `b` and `c` one after another.
pub fn concat3(a: &str, b: &str, c: &str) -> (r: String)
    ensures
        r@ == a@ + b@ + c@,
{
    let mut r = String::from_str(a);
    r.append(b);
    r.append(c);
    r
}

/// Whether two character sequences are equal.
pub fn same_chars(a: &Vec<char>, b: &Vec<char>) -> (r: bool)
    ensures
        r == (a@ == b@),
{
    if a.len() != b.len() {
        return false;
    }
    let mut i: usize = 0;
    while i < a.len()
        invariant
            a@.len() == b@.len(),
            i <= a@.len(),
            a@.subrange(0, i as int) == b@.subrange(0, i as int),
        decreases a@.len() - i,
    {
        if a[i] != b[i] {
            assert(a@[i as int] == a@.subrange(0, i as int + 1)[i as int]);
            assert(b@[i as int] == b@.subrange(0, i as int + 1)[i as int]);
            return false;
        }
        i = i + 1;
        assert(a@.subrange(0, i as int) =~= a@.subrange(0, i - 1).push(a@[i - 1]));
        assert(b@.subrange(0, i as int) =~= b@.subrange(0, i - 1).push(b@[i - 1]));
    }
    assert(a@ =~= a@.subrange(0, i as int));
    assert(b@ =~= b@.subrange(0, i as int));
    true
}

/// Whether the string `s` is exactly `lit`.
pub fn str_is(s: &str, lit: &str) -> (r: bool)
    ensures
        r == (s@ == lit@),
{
    let a = chars_of(s);
    let b = chars_of(lit);
    same_chars(&a, &b)
}

/// The ASCII-lowercased copy of `v`.
pub fn lowercase_ascii(v: &Vec<char>) -> (r: Vec<char>)
    ensures
        r@ == ascii_lowercase(v@),
{
    let mut r: Vec<char> = Vec::new();
    let mut i: usize = 0;
    while i < v.len()
        invariant
            i <= v@.len(),
            r@ == ascii_lowercase(v@.subrange(0, i as int)),
        decreases v@.len() - i,
    {
        let c = v[i];
        let l = if 'A' <= c && c <= 'Z' {
            char_from_ascii_lower(c)
        } else {
            c
        };
        r.push(l);
        i = i + 1;
        assert(r@ =~= ascii_lowercase(v@.subrange(0, i as int)));
    }
    assert(v@.subrange(0, v@.len() as int) =~= v@);
    r
}

fn char_from_ascii_lower(c: char) -> (r: char)
    requires
        'A' <= c && c <= 'Z',
    ensures
        r == lower_char(c),
{
    let code: u8 = c as u8;
    assert(code == c as u32);
    let lowered: u8 = code + 32;
    lowered as char
}

/// Whether `v` ends with `suffix`.
pub fn ends_with_chars(v: &Vec<char>, end: usize, suffix: &Vec<char>) -> (r: bool)
    requires
        end <= v@.len(),
    ensures
        r == has_suffix(v@.subrange(0, end as int), suffix@),
{
    let ghost s = v@.subrange(0, end as int);
    if suffix.len() > end {
        return false;
    }
    let start: usize = end - suffix.len();
    let mut i: usize = 0;
    while i < suffix.len()
        invariant
            start + suffix@.len() == end,
            end <= v@.len(),
            s == v@.subrange(0, end as int),
            i <= suffix@.len(),
            forall|k: int| 0 <= k < i ==> v@[start + k] == suffix@[k],
        decreases suffix@.len() - i,
    {
        if v[start + i] != suffix[i] {
            assert(s.subrange(s.len() - suffix@.len(), s.len() as int)[i as int] == v@[start + i]);
            return false;
        }
        i = i + 1;
    }
    assert(s.subrange(s.len() - suffix@.len(), s.len() as int) =~= suffix@);
    true
}

/// The length that `trim_suffix_all` leaves of `v[..end]`.
pub fn trim_suffix_all_len(v: &Vec<char>, end: usize, suffix: &Vec<char>) -> (n: usize)
    requires
        end <= v@.len(),
    ensures
        n <= end,
        v@.subrange(0, n as int) == trim_suffix_all(v@.subrange(0, end as int), suffix@),
{
    let mut n: usize = end;
    if suffix.len() == 0 {
        return n;
    }
    while ends_with_chars(v, n, suffix)
        invariant
            n <= end <= v@.len(),
            suffix@.len() > 0,
            trim_suffix_all(v@.subrange(0, n as int), suffix@) == trim_suffix_all(
                v@.subrange(0, end as int),
                suffix@,
            ),
        decreases n,
    {
        let ghost before = v@.subrange(0, n as int);
        n = n - suffix.len();
        assert(before.subrange(0, before.len() - suffix@.len()) =~= v@.subrange(0, n as int));
    }
    n
}

/// `s` with every trailing occurrence of `suffix` removed.
pub fn trim_suffix_all_str(s: &str, suffix: &str) -> (r: String)
    ensures
        r@ == trim_suffix_all(s@, suffix@),
{
    let v = chars_of(s);
    let suf = chars_of(suffix);
    let n = trim_suffix_all_len(&v, v.len(), &suf);
    assert(v@.subrange(0, v@.len() as int) =~= v@);
    string_of(&v, 0, n)
}

/// Whether `s` ends with `suffix`.
pub fn str_ends_with(s: &str, suffix: &str) -> (r: bool)
    ensures
        r == has_suffix(s@, suffix@),
{
    let v = chars_of(s);
    let suf = chars_of(suffix);
    assert(v@.subrange(0, v@.len() as int) =~= v@);
    ends_with_chars(&v, v.len(), &suf)
}

/// The strings of `parts` that are not empty, in order.
pub fn keep_nonempty(parts: &Vec<String>) -> (r: Vec<String>)
    ensures
        views(r@) == nonempty_parts(views(parts@)),
{
    let mut r: Vec<String> = Vec::new();
    let mut i: usize = 0;
    while i < parts.len()
        invariant
            i <= parts@.len(),
            views(r@) == nonempty_parts(views(parts@.subrange(0, i as int))),
        decreases parts@.len() - i,
    {
        let p = &parts[i];
        let ghost prefix = views(parts@.subrange(0, i as int));
        let ghost next = views(parts@.subrange(0, i as int + 1));
        assert(next.drop_last() =~= prefix);
        assert(next.last() == p@);
        if p.unicode_len() > 0 {
            r.push(p.clone());
            assert(views(r@) =~= nonempty_parts(next));
        }
        i = i + 1;
    }
    assert(parts@.subrange(0, parts@.len() as int) =~= parts@);
    r
}

/// `parts[from..].join(sep)`.
pub fn join_from(parts: &Vec<String>, from: usize, sep: &str) -> (r: String)
    requires
        from <= parts@.len(),
    ensures
        r@ == join_parts(views(parts@).skip(from as int), sep@),
{
    let mut r = String::new();
    let mut i: usize = from;
    while i < parts.len()
        invariant
            from <= i <= parts@.len(),
            r@ == join_parts(views(parts@).subrange(from as int, i as int), sep@),
        decreases parts@.len() - i,
    {
        let ghost done = views(parts@).subrange(from as int, i as int);
        proof {
            lemma_join_push(done, sep@, parts@[i as int]@);
            assert(views(parts@).subrange(from as int, i as int + 1) =~= done.push(
                parts@[i as int]@,
            ));
        }
        if i > from {
            r.append(sep);
        }
        r.append(parts[i].as_str());
        i = i + 1;
    }
    assert(views(parts@).subrange(from as int, parts@.len() as int) =~= views(parts@).skip(
        from as int,
    ));
    r
}

/// The pieces of `v` between occurrences of `sep`.
pub fn split_chars(v: &Vec<char>, sep: char) -> (r: Vec<Vec<char>>)
    ensures
        r@.len() >= 1,
        r@.map_values(|p: Vec<char>| p@) == split_on(v@, sep),
{
    let mut r: Vec<Vec<char>> = Vec::new();
    let mut cur: Vec<char> = Vec::new();
    let mut i: usize = 0;
    proof {
        assert(v@.subrange(0, 0) =~= Seq::<char>::empty());
        assert(r@.map_values(|p: Vec<char>| p@).push(cur@) =~= split_on(Seq::<char>::empty(), sep));
    }
    while i < v.len()
        invariant
            i <= v@.len(),
            r@.map_values(|p: Vec<char>| p@).push(cur@) == split_on(
                v@.subrange(0, i as int),
                sep,
            ),
        decreases v@.len() - i,
    {
        let ghost s = v@.subrange(0, i as int + 1);
        assert(s.drop_last() =~= v@.subrange(0, i as int));
        let c = v[i];
        if c == sep {
            let done = cur;
            cur = Vec::new();
            r.push(done);
            assert(r@.map_values(|p: Vec<char>| p@).push(cur@) =~= split_on(s, sep));
        } else {
            let ghost old_r = r@.map_values(|p: Vec<char>| p@);
            cur.push(c);
            assert(r@.map_values(|p: Vec<char>| p@).push(cur@) =~= split_on(s, sep));
        }
        i = i + 1;
    }
    r.push(cur);
    assert(v@.subrange(0, v@.len() as int) =~= v@);
    r
}

/// Whether the character has Unicode's White_Space property.
pub fn char_is_whitespace(c: char) -> (r: bool)
    ensures
        r == is_whitespace(c),
{
    ('\u{9}' <= c && c <= '\u{d}') || c == ' ' || c == '\u{85}' || c == '\u{a0}' || c
        == '\u{1680}' || ('\u{2000}' <= c && c <= '\u{200a}') || c == '\u{2028}' || c
        == '\u{2029}' || c == '\u{202f}' || c == '\u{205f}' || c == '\u{3000}'
}

/// The bounds `(lo, hi)` of `v[..end]` with surrounding whitespace removed.
pub fn trim_bounds(v: &Vec<char>, end: usize) -> (r: (usize, usize))
    requires
        end <= v@.len(),
    ensures
        r.0 <= r.1 <= end,
        v@.subrange(r.0 as int, r.1 as int) == trim_ws(v@.subrange(0, end as int)),
{
    let mut lo: usize = 0;
    while lo < end && char_is_whitespace(v[lo])
        invariant
            lo <= end <= v@.len(),
            trim_start_ws(v@.subrange(lo as int, end as int)) == trim_start_ws(
                v@.subrange(0, end as int),
            ),
        decreases end - lo,
    {
        assert(v@.subrange(lo as int, end as int).drop_first() =~= v@.subrange(
            lo + 1,
            end as int,
        ));
        lo = lo + 1;
    }
    let mut hi: usize = end;
    while hi > lo && char_is_whitespace(v[hi - 1])
        invariant
            lo <= hi <= end <= v@.len(),
            trim_end_ws(v@.subrange(lo as int, hi as int)) == trim_end_ws(
                v@.subrange(lo as int, end as int),
            ),
        decreases hi,
    {
        assert(v@.subrange(lo as int, hi as int).drop_last() =~= v@.subrange(
            lo as int,
            hi - 1,
        ));
        hi = hi - 1;
    }
    proof {
        let t = v@.subrange(lo as int, end as int);
        if lo < end {
            assert(!is_whitespace(t[0]));
        }
        assert(trim_start_ws(t) == t);
        let u = v@.subrange(lo as int, hi as int);
        if hi > lo {
            assert(!is_whitespace(u.last()));
        }
        assert(trim_end_ws(u) == u);
    }
    (lo, hi)
}

/// Whether `pat` occurs in `v`.
pub fn contains_chars(v: &Vec<char>, pat: &Vec<char>) -> (r: bool)
    ensures
        r == contains_seq(v@, pat@),
{
    if pat.len() > v.len() {
        return false;
    }
    let last: usize = v.len() - pat.len();
    let mut i: usize = 0;
    while i < last
        invariant
            i <= last,
            last + pat@.len() == v@.len(),
            forall|k: int| 0 <= k < i ==> #[trigger] v@.subrange(k, k + pat@.len()) != pat@,
        decreases last - i,
    {
        if occurs_at(v, i, pat) {
            return true;
        }
        i = i + 1;
    }
    occurs_at(v, last, pat)
}

fn occurs_at(v: &Vec<char>, i: usize, pat: &Vec<char>) -> (r: bool)
    requires
        i + pat@.len() <= v@.len(),
    ensures
        r == (v@.subrange(i as int, i + pat@.len()) == pat@),
{
    let total: usize = v.len();
    assert(i + pat@.len() <= total);
    let end: usize = i + pat.len();
    assert(v@.subrange(0, end as int).subrange(i as int, end as int) =~= v@.subrange(
        i as int,
        end as int,
    ));
    ends_with_chars(v, end, pat)
}

/// `s` parsed as an `i64` the way `i64::from_str` does.
pub fn parse_i64(s: &str) -> (r: Option<i64>)
    ensures
        r == parse_i64_spec(s@),
{
    let v = chars_of(s);
    let mut start: usize = 0;
    let mut negative = false;
    if v.len() > 0 && (v[0] == '+' || v[0] == '-') {
        negative = v[0] == '-';
        start = 1;
    }
    let ghost digits = v@.subrange(start as int, v@.len() as int);
    assert(start == 1 ==> digits =~= v@.drop_first());
    assert(start == 0 ==> digits =~= v@);
    assert(digits == unsigned_part(s@));
    if start == v.len() {
        return None;
    }
    // magnitude of the digits read so far, kept at most 2^63
    let mut mag: u64 = 0;
    let mut i: usize = start;
    while i < v.len()
        invariant
            v@ == s@,
            digits == unsigned_part(s@),
            start <= i <= v@.len(),
            digits == v@.subrange(start as int, v@.len() as int),
            all_digits(digits.subrange(0, i - start)),
            mag == digits_value(digits.subrange(0, i - start)),
            mag <= 0x8000_0000_0000_0000u64,
        decreases v@.len() - i,
    {
        let c = v[i];
        if !('0' <= c && c <= '9') {
            assert(digits[i - start] == c);
            assert(!is_digit(digits[i - start]));
            assert(!all_digits(digits));
            return None;
        }
        let d: u64 = (c as u32 - '0' as u32) as u64;
        proof {
            lemma_digits_value_step(digits, i - start);
        }
        if mag > 922_337_203_685_477_580u64 || (mag == 922_337_203_685_477_580u64 && d > 8) {
            // the value exceeds 2^63: no i64 holds it, whatever follows
            proof {
                assert(digits_value(digits.subrange(0, i - start + 1)) > 0x8000_0000_0000_0000);
                let n = (v@.len() - start) as int;
                let rest = digits.subrange(i - start + 1, n);
                if all_digits(digits) {
                    lemma_digits_value_monotone(digits, i - start + 1, n);
                    assert(digits.subrange(0, n) =~= digits);
                }
            }
            return None;
        }
        mag = mag * 10 + d;
        i = i + 1;
    }
    assert(digits.subrange(0, (v@.len() - start) as int) =~= digits);
    if negative {
        if mag == 0x8000_0000_0000_0000u64 {
            Some(i64::MIN)
        } else if mag > 0x7fff_ffff_ffff_ffffu64 {
            None
        } else {
            Some(-(mag as i64))
        }
    } else {
        if mag > 0x7fff_ffff_ffff_ffffu64 {
            None
        } else {
            Some(mag as i64)
        }
    }
}

/// `s` parsed as a `u64` the way `u64::from_str` does.
pub fn parse_u64(s: &str) -> (r: Option<u64>)
    ensures
        r == parse_u64_spec(s@),
{
    let v = chars_of(s);
    let mut start: usize = 0;
    if v.len() > 0 && v[0] == '+' {
        start = 1;
    }
    let ghost digits = v@.subrange(start as int, v@.len() as int);
    assert(start == 1 ==> digits =~= v@.drop_first());
    assert(start == 0 ==> digits =~= v@);
    assert(digits == unsigned_digits(s@));
    if start == v.len() {
        return None;
    }
    let mut mag: u64 = 0;
    let mut i: usize = start;
    while i < v.len()
        invariant
            v@ == s@,
            digits == unsigned_digits(s@),
            start <= i <= v@.len(),
            digits == v@.subrange(start as int, v@.len() as int),
            all_digits(digits.subrange(0, i - start)),
            mag == digits_value(digits.subrange(0, i - start)),
        decreases v@.len() - i,
    {
        let c = v[i];
        if !('0' <= c && c <= '9') {
            assert(digits[i - start] == c);
            assert(!is_digit(digits[i - start]));
            assert(!all_digits(digits));
            return None;
        }
        let d: u64 = (c as u32 - '0' as u32) as u64;
        proof {
            lemma_digits_value_step(digits, i - start);
        }
        if mag > 1_844_674_407_370_955_161u64 || (mag == 1_844_674_407_370_955_161u64 && d > 5) {
            proof {
                assert(digits_value(digits.subrange(0, i - start + 1)) > u64::MAX);
                let n = (v@.len() - start) as int;
                if all_digits(digits) {
                    lemma_digits_value_monotone(digits, i - start + 1, n);
                    assert(digits.subrange(0, n) =~= digits);
                }
            }
            return None;
        }
        mag = mag * 10 + d;
        i = i + 1;
    }
    assert(digits.subrange(0, (v@.len() - start) as int) =~= digits);
    Some(mag)
}

/// The start of `v[lo..hi]` once every leading `c` is removed.
pub fn trim_start_char_from(v: &Vec<char>, lo: usize, hi: usize, c: char) -> (r: usize)
    requires
        lo <= hi <= v@.len(),
    ensures
        lo <= r <= hi,
        v@.subrange(r as int, hi as int) == trim_start_char(v@.subrange(lo as int, hi as int), c),
{
    let mut i: usize = lo;
    while i < hi && v[i] == c
        invariant
            lo <= i <= hi <= v@.len(),
            trim_start_char(v@.subrange(i as int, hi as int), c) == trim_start_char(
                v@.subrange(lo as int, hi as int),
                c,
            ),
        decreases hi - i,
    {
        assert(v@.subrange(i as int, hi as int).drop_first() =~= v@.subrange(i + 1, hi as int));
        i = i + 1;
    }
    proof {
        let t = v@.subrange(i as int, hi as int);
        if i < hi {
            assert(t[0] == v@[i as int]);
        }
        assert(trim_start_char(t, c) == t);
    }
    i
}

/// The end of `v[lo..hi]` once every trailing `c` is removed.
pub fn trim_end_char_to(v: &Vec<char>, lo: usize, hi: usize, c: char) -> (r: usize)
    requires
        lo <= hi <= v@.len(),
    ensures
        lo <= r <= hi,
        v@.subrange(lo as int, r as int) == trim_end_char(v@.subrange(lo as int, hi as int), c),
{
    let mut j: usize = hi;
    while j > lo && v[j - 1] == c
        invariant
            lo <= j <= hi <= v@.len(),
            trim_end_char(v@.subrange(lo as int, j as int), c) == trim_end_char(
                v@.subrange(lo as int, hi as int),
                c,
            ),
        decreases j,
    {
        assert(v@.subrange(lo as int, j as int).drop_last() =~= v@.subrange(lo as int, j - 1));
        j = j - 1;
    }
    proof {
        let t = v@.subrange(lo as int, j as int);
        if j > lo {
            assert(t.last() == v@[j - 1]);
        }
        assert(trim_end_char(t, c) == t);
    }
    j
}

} // verus!
