//! Verified text utilities: character predicates, decimal parsing,
//! splitting, joining, trimming and pattern removal over `&str` values,
//! specified over their `Seq<char>` views.

use vstd::prelude::*;
use vstd::string::*;

verus! {

/// A decimal digit.
pub open spec fn is_digit(c: char) -> bool {
    '0' <= c && c <= '9'
}

/// The numeric value of a decimal digit.
pub open spec fn digit_val(c: char) -> nat {
    ((c as int) - ('0' as int)) as nat
}

/// The value of a sequence of decimal digits, most significant first.
pub open spec fn dec_val(s: Seq<char>) -> nat
    decreases s.len(),
{
    if s.len() == 0 {
        0
    } else {
        dec_val(s.drop_last()) * 10 + digit_val(s.last())
    }
}

/// Every character of `s` is a decimal digit.
pub open spec fn all_digits(s: Seq<char>) -> bool {
    forall|i: int| 0 <= i < s.len() ==> is_digit(s[i])
}

/// The digits of a decimal number as `str::parse` reads them for an
/// unsigned type: everything after an optional leading `+` sign.
pub open spec fn dec_digits(s: Seq<char>) -> Seq<char> {
    if s.len() > 0 && s[0] == '+' {
        s.drop_first()
    } else {
        s
    }
}

/// `str::parse` accepts `s` for an unsigned type with maximum `max`:
/// an optional `+` sign, then at least one digit, and a value in range.
pub open spec fn is_dec_string(s: Seq<char>, max: nat) -> bool {
    let d = dec_digits(s);
    d.len() > 0 && all_digits(d) && dec_val(d) <= max
}

/// The parsed value of `s`.
pub open spec fn dec_string_val(s: Seq<char>) -> nat {
    dec_val(dec_digits(s))
}

/// A prefix of a digit string never has a larger value than the whole.
proof fn lemma_dec_val_prefix_le(s: Seq<char>, i: int)
    requires
        0 <= i <= s.len(),
    ensures
        dec_val(s.subrange(0, i)) <= dec_val(s),
    decreases s.len() - i,
{
    if i < s.len() {
        lemma_dec_val_prefix_le(s, i + 1);
        assert(s.subrange(0, i + 1).drop_last() =~= s.subrange(0, i));
        assert(dec_val(s.subrange(0, i + 1)) == dec_val(s.subrange(0, i)) * 10 + digit_val(
            s.subrange(0, i + 1).last(),
        ));
    } else {
        assert(s.subrange(0, i) =~= s);
    }
}

/// Parses the digits of `s` starting at index `from`, with values capped
/// at `max`; returns the value or `None` when a non-digit appears, no
/// digit appears, or the value exceeds `max`.
fn parse_digits(s: &str, from: usize, max: u64) -> (r: Option<u64>)
    requires
        from <= s@.len(),
        max < 0xFFFF_FFFF_FFFF_FFFFu64 / 16,
    ensures
        ({
            let d = s@.subrange(from as int, s@.len() as int);
            match r {
                Some(v) => d.len() > 0 && all_digits(d) && dec_val(d) <= max && v == dec_val(d),
                None => !(d.len() > 0 && all_digits(d) && dec_val(d) <= max),
            }
        }),
{
    let ghost d = s@.subrange(from as int, s@.len() as int);
    let n = s.unicode_len();
    if from == n {
        return None;
    }
    let mut i = from;
    let mut acc: u64 = 0;
    while i < n
        invariant
            from <= i <= n,
            n == s@.len(),
            d == s@.subrange(from as int, n as int),
            max < 0xFFFF_FFFF_FFFF_FFFFu64 / 16,
            all_digits(d.subrange(0, i - from)),
            acc == dec_val(d.subrange(0, i - from)),
            acc <= max,
        decreases n - i,
    {
        let c = s.get_char(i);
        if c < '0' || c > '9' {
            proof {
                assert(d[i - from] == s@[i as int]);
                assert(!is_digit(d[i - from]));
            }
            return None;
        }
        let v: u32 = c as u32;
        let dig: u64 = (v - 48) as u64;
        proof {
            assert(d[i - from] == s@[i as int]);
            assert(is_digit(s@[i as int]));
            assert(dig == digit_val(d[i - from]));
            assert(d.subrange(0, i - from + 1).drop_last() =~= d.subrange(0, i - from));
            assert(dec_val(d.subrange(0, i - from + 1)) == acc * 10 + dig);
        }
        if acc > max / 10 || acc * 10 + dig > max {
            proof {
                assert(dec_val(d.subrange(0, i - from + 1)) > max);
                lemma_dec_val_prefix_le(d, i - from + 1);
            }
            return None;
        }
        acc = acc * 10 + dig;
        i = i + 1;
        proof {
            assert(acc == dec_val(d.subrange(0, i - from)));
        }
    }
    proof {
        assert(d.subrange(0, n - from) =~= d);
    }
    Some(acc)
}

/// Parses `s` as `str::parse::<u16>` does: an optional `+` sign, then
/// decimal digits.  Returns `Some` exactly on the strings that
/// `str::parse::<u16>` accepts, with the parsed value.
pub fn parse_u16(s: &str) -> (r: Option<u16>)
    ensures
        r is Some <==> is_dec_string(s@, u16::MAX as nat),
        r matches Some(v) ==> v == dec_string_val(s@),
{
    let n = s.unicode_len();
    let from: usize = if n > 0 && s.get_char(0) == '+' {
        1
    } else {
        0
    };
    proof {
        assert(dec_digits(s@) =~= s@.subrange(from as int, s@.len() as int));
    }
    match parse_digits(s, from, 65535) {
        Some(v) => Some(v as u16),
        None => None,
    }
}

/// Parses `s` as `str::parse::<u32>` does.
pub fn parse_u32(s: &str) -> (r: Option<u32>)
    ensures
        r is Some <==> is_dec_string(s@, u32::MAX as nat),
        r matches Some(v) ==> v == dec_string_val(s@),
{
    let n = s.unicode_len();
    let from: usize = if n > 0 && s.get_char(0) == '+' {
        1
    } else {
        0
    };
    proof {
        assert(dec_digits(s@) =~= s@.subrange(from as int, s@.len() as int));
    }
    match parse_digits(s, from, 4294967295) {
        Some(v) => Some(v as u32),
        None => None,
    }
}

/// `pat` occurs in `s` at position `at`.
pub open spec fn matches_at(s: Seq<char>, pat: Seq<char>, at: int) -> bool {
    0 <= at && at + pat.len() <= s.len() && s.subrange(at, at + pat.len()) == pat
}

/// `s` ends with `pat`.
pub open spec fn ends_with_spec(s: Seq<char>, pat: Seq<char>) -> bool {
    matches_at(s, pat, s.len() - pat.len())
}

/// `s` starts with `pat`.
pub open spec fn starts_with_spec(s: Seq<char>, pat: Seq<char>) -> bool {
    matches_at(s, pat, 0)
}

/// Compares two string slices character by character.
pub fn str_eq(a: &str, b: &str) -> (r: bool)
    ensures
        r == (a@ == b@),
{
    let n = a.unicode_len();
    if n != b.unicode_len() {
        return false;
    }
    let mut i: usize = 0;
    while i < n
        invariant
            0 <= i <= n,
            n == a@.len(),
            n == b@.len(),
            forall|k: int| 0 <= k < i ==> a@[k] == b@[k],
        decreases n - i,
    {
        if a.get_char(i) != b.get_char(i) {
            return false;
        }
        i = i + 1;
    }
    proof {
        assert(a@ =~= b@);
    }
    true
}

/// Whether `pat`'s view occurs in `s`'s view at position `at`.
fn matches_at_exec(s: &str, pat: &str, at: usize) -> (r: bool)
    requires
        at + pat@.len() <= s@.len(),
    ensures
        r == matches_at(s@, pat@, at as int),
{
    let n = s.unicode_len();
    let plen = pat.unicode_len();
    let mut j: usize = 0;
    while j < plen
        invariant
            0 <= j <= plen,
            plen == pat@.len(),
            n == s@.len(),
            at + plen <= n,
            forall|k: int| 0 <= k < j ==> s@[at + k] == pat@[k],
        decreases plen - j,
    {
        if s.get_char(at + j) != pat.get_char(j) {
            proof {
                assert(s@.subrange(at as int, at + plen)[j as int] != pat@[j as int]);
            }
            return false;
        }
        j = j + 1;
    }
    proof {
        assert(s@.subrange(at as int, at + plen) =~= pat@);
    }
    true
}

/// Whether `s` ends with `pat`.
pub fn str_ends_with(s: &str, pat: &str) -> (r: bool)
    ensures
        r == ends_with_spec(s@, pat@),
{
    let n = s.unicode_len();
    let plen = pat.unicode_len();
    if plen > n {
        return false;
    }
    matches_at_exec(s, pat, n - plen)
}

/// Whether `s` starts with `pat`.
pub fn str_starts_with(s: &str, pat: &str) -> (r: bool)
    ensures
        r == starts_with_spec(s@, pat@),
{
    let n = s.unicode_len();
    let plen = pat.unicode_len();
    if plen > n {
        return false;
    }
    matches_at_exec(s, pat, 0)
}

/// The position of the first occurrence of `c` in `s`, or `s.len()` when
/// `c` does not occur.
pub open spec fn first_index(s: Seq<char>, c: char) -> int
    decreases s.len(),
{
    if s.len() == 0 {
        0
    } else if s[0] == c {
        0
    } else {
        1 + first_index(s.drop_first(), c)
    }
}

/// What `first_index` returns: a position in `0 ..= s.len()`, holding `c`
/// when it is short of the end, with no `c` before it.
pub proof fn lemma_first_index(s: Seq<char>, c: char)
    ensures
        0 <= first_index(s, c) <= s.len(),
        first_index(s, c) < s.len() ==> s[first_index(s, c)] == c,
        forall|k: int| 0 <= k < first_index(s, c) ==> s[k] != c,
    decreases s.len(),
{
    if s.len() > 0 && s[0] != c {
        lemma_first_index(s.drop_first(), c);
        assert forall|k: int| 0 <= k < first_index(s, c) implies s[k] != c by {
            if k > 0 {
                assert(s.drop_first()[k - 1] != c);
            }
        }
    }
}

/// `first_index` is the position `i` whenever no `c` stands before `i`
/// and either `i` holds `c` or `i` is the length.
pub proof fn lemma_first_index_at(s: Seq<char>, c: char, i: int)
    requires
        0 <= i <= s.len(),
        forall|k: int| 0 <= k < i ==> s[k] != c,
        i < s.len() ==> s[i] == c,
    ensures
        first_index(s, c) == i,
{
    lemma_first_index(s, c);
    let f = first_index(s, c);
    if f < i {
        assert(s[f] == c);
        assert(false);
    }
    if f > i {
        assert(i < s.len());
        assert(s[i] != c);
        assert(false);
    }
}

/// What `str::split` yields for a one-character separator: the runs
/// between occurrences of `sep`, kept even when empty.
pub open spec fn split_spec(s: Seq<char>, sep: char) -> Seq<Seq<char>>
    decreases s.len(),
{
    let i = first_index(s, sep);
    if 0 <= i < s.len() {
        seq![s.subrange(0, i)] + split_spec(s.subrange(i + 1, s.len() as int), sep)
    } else {
        seq![s]
    }
}

/// Splits `s` at every occurrence of `sep`, as `str::split(sep)` does.
pub fn split_char(s: &str, sep: char) -> (r: Vec<String>)
    ensures
        r.deep_view() == split_spec(s@, sep),
{
    let n = s.unicode_len();
    let mut r: Vec<String> = Vec::new();
    let mut start: usize = 0;
    let mut i: usize = 0;
    proof {
        assert(s@.subrange(0, n as int) =~= s@);
        assert(r.deep_view() =~~= Seq::<Seq<char>>::empty());
        assert(r.deep_view() + split_spec(s@, sep) =~~= split_spec(s@, sep));
    }
    while i < n
        invariant
            0 <= start <= i <= n,
            n == s@.len(),
            forall|k: int| start <= k < i ==> s@[k] != sep,
            split_spec(s@, sep) == r.deep_view() + split_spec(
                s@.subrange(start as int, n as int),
                sep,
            ),
        decreases n - i,
    {
        if s.get_char(i) == sep {
            let piece = String::from_str(s.substring_char(start, i));
            proof {
                let rem = s@.subrange(start as int, n as int);
                assert forall|k: int| 0 <= k < i - start implies rem[k] != sep by {
                    assert(rem[k] == s@[start + k]);
                }
                assert(rem[i - start] == sep);
                lemma_first_index_at(rem, sep, i - start);
                assert(rem.subrange(0, i - start) =~= s@.subrange(start as int, i as int));
                assert(rem.subrange(i - start + 1, rem.len() as int) =~= s@.subrange(
                    i + 1,
                    n as int,
                ));
                assert(split_spec(rem, sep) == seq![s@.subrange(start as int, i as int)]
                    + split_spec(s@.subrange(i + 1, n as int), sep));
            }
            let ghost old_r = r.deep_view();
            r.push(piece);
            proof {
                assert(r.deep_view() =~~= old_r.push(s@.subrange(start as int, i as int)));
                assert(r.deep_view() + split_spec(s@.subrange(i + 1, n as int), sep) =~~= old_r + (
                seq![s@.subrange(start as int, i as int)] + split_spec(
                    s@.subrange(i + 1, n as int),
                    sep,
                )));
            }
            start = i + 1;
        }
        i = i + 1;
    }
    let piece = String::from_str(s.substring_char(start, n));
    proof {
        let rem = s@.subrange(start as int, n as int);
        assert forall|k: int| 0 <= k < rem.len() implies rem[k] != sep by {
            assert(rem[k] == s@[start + k]);
        }
        lemma_first_index_at(rem, sep, rem.len() as int);
        assert(split_spec(rem, sep) == seq![rem]);
    }
    let ghost old_r = r.deep_view();
    r.push(piece);
    proof {
        assert(r.deep_view() =~~= old_r.push(s@.subrange(start as int, n as int)));
        assert(r.deep_view() =~~= split_spec(s@, sep));
    }
    r
}

/// The parts joined with `sep` between them.
pub open spec fn join_spec(parts: Seq<Seq<char>>, sep: Seq<char>) -> Seq<char>
    decreases parts.len(),
{
    if parts.len() == 0 {
        Seq::empty()
    } else if parts.len() == 1 {
        parts[0]
    } else {
        parts[0] + sep + join_spec(parts.drop_first(), sep)
    }
}

/// Joining after adding a part appends a separator and the part.
pub proof fn lemma_join_push(parts: Seq<Seq<char>>, sep: Seq<char>, x: Seq<char>)
    ensures
        parts.len() == 0 ==> join_spec(parts.push(x), sep) == x,
        parts.len() > 0 ==> join_spec(parts.push(x), sep) == join_spec(parts, sep) + sep + x,
    decreases parts.len(),
{
    let p = parts.push(x);
    if parts.len() == 0 {
        assert(p.len() == 1);
        assert(p[0] == x);
    } else if parts.len() == 1 {
        assert(p.drop_first() =~~= seq![x]);
        assert(join_spec(seq![x], sep) == x);
        assert(p[0] == parts[0]);
        assert(join_spec(p, sep) == p[0] + sep + join_spec(p.drop_first(), sep));
        assert(join_spec(p, sep) == parts[0] + sep + x);
    } else {
        lemma_join_push(parts.drop_first(), sep, x);
        assert(p.drop_first() =~~= parts.drop_first().push(x));
        assert(join_spec(p, sep) == p[0] + sep + join_spec(parts.drop_first().push(x), sep));
        assert(join_spec(p, sep) == parts[0] + sep + (join_spec(parts.drop_first(), sep) + sep
            + x));
        assert(parts[0] + sep + (join_spec(parts.drop_first(), sep) + sep + x) =~= (parts[0] + sep
            + join_spec(parts.drop_first(), sep)) + sep + x);
    }
}

/// Joins the strings of `v` with `sep` between them.
pub fn join_with(v: &Vec<String>, sep: &str) -> (r: String)
    ensures
        r@ == join_spec(v.deep_view(), sep@),
{
    let mut out = String::new();
    let mut i: usize = 0;
    while i < v.len()
        invariant
            0 <= i <= v.deep_view().len(),
            v.deep_view().len() == v@.len(),
            out@ == join_spec(v.deep_view().take(i as int), sep@),
        decreases v@.len() - i,
    {
        if i > 0 {
            out.append(sep);
        }
        out.append(v[i].as_str());
        proof {
            let dv = v.deep_view();
            assert(dv.take(i as int).push(dv[i as int]) =~~= dv.take(i + 1));
            lemma_join_push(dv.take(i as int), sep@, dv[i as int]);
            assert(dv[i as int] == v@[i as int]@);
        }
        i = i + 1;
    }
    proof {
        assert(v.deep_view().take(v.deep_view().len() as int) =~~= v.deep_view());
    }
    out
}

/// The characters with the Unicode `White_Space` property, which
/// `char::is_whitespace` recognises.
pub open spec fn is_space(c: char) -> bool {
    let v = c as u32;
    (0x09 <= v && v <= 0x0D) || v == 0x20 || v == 0x85 || v == 0xA0 || v == 0x1680 || (0x2000 <= v
        && v <= 0x200A) || v == 0x2028 || v == 0x2029 || v == 0x202F || v == 0x205F || v == 0x3000
}

/// Whether `c` is whitespace, as `char::is_whitespace` decides it.
pub fn is_space_char(c: char) -> (r: bool)
    ensures
        r == is_space(c),
{
    let v = c as u32;
    (0x09 <= v && v <= 0x0D) || v == 0x20 || v == 0x85 || v == 0xA0 || v == 0x1680 || (0x2000 <= v
        && v <= 0x200A) || v == 0x2028 || v == 0x2029 || v == 0x202F || v == 0x205F || v == 0x3000
}

/// `s` without its leading whitespace.
pub open spec fn trim_start_spec(s: Seq<char>) -> Seq<char>
    decreases s.len(),
{
    if s.len() > 0 && is_space(s[0]) {
        trim_start_spec(s.drop_first())
    } else {
        s
    }
}

/// `s` without its trailing whitespace.
pub open spec fn trim_end_spec(s: Seq<char>) -> Seq<char>
    decreases s.len(),
{
    if s.len() > 0 && is_space(s.last()) {
        trim_end_spec(s.drop_last())
    } else {
        s
    }
}

/// What `str::trim` returns: `s` without leading and trailing whitespace.
pub open spec fn trim_spec(s: Seq<char>) -> Seq<char> {
    trim_end_spec(trim_start_spec(s))
}

/// `trim_start_spec` drops exactly the leading run of whitespace.
proof fn lemma_trim_start_at(s: Seq<char>, a: int)
    requires
        0 <= a <= s.len(),
        forall|k: int| 0 <= k < a ==> is_space(s[k]),
        a < s.len() ==> !is_space(s[a]),
    ensures
        trim_start_spec(s) == s.subrange(a, s.len() as int),
    decreases s.len(),
{
    if a == 0 {
        assert(s.subrange(0, s.len() as int) =~= s);
    } else {
        let t = s.drop_first();
        assert forall|k: int| 0 <= k < a - 1 implies is_space(t[k]) by {
            assert(t[k] == s[k + 1]);
        }
        lemma_trim_start_at(t, a - 1);
        assert(t.subrange(a - 1, t.len() as int) =~= s.subrange(a, s.len() as int));
    }
}

/// `trim_end_spec` drops exactly the trailing run of whitespace.
proof fn lemma_trim_end_at(s: Seq<char>, b: int)
    requires
        0 <= b <= s.len(),
        forall|k: int| b <= k < s.len() ==> is_space(s[k]),
        b > 0 ==> !is_space(s[b - 1]),
    ensures
        trim_end_spec(s) == s.subrange(0, b),
    decreases s.len(),
{
    if b == s.len() {
        if s.len() > 0 {
            assert(!is_space(s.last()));
        }
        assert(s.subrange(0, b) =~= s);
    } else {
        let t = s.drop_last();
        assert(is_space(s.last()));
        lemma_trim_end_at(t, b);
        assert(t.subrange(0, b) =~= s.subrange(0, b));
    }
}

/// Removes leading and trailing whitespace, as `str::trim` does.
pub fn trim(s: &str) -> (r: String)
    ensures
        r@ == trim_spec(s@),
{
    let n = s.unicode_len();
    let mut a: usize = 0;
    while a < n && is_space_char(s.get_char(a))
        invariant
            0 <= a <= n,
            n == s@.len(),
            forall|k: int| 0 <= k < a ==> is_space(s@[k]),
        decreases n - a,
    {
        a = a + 1;
    }
    proof {
        lemma_trim_start_at(s@, a as int);
    }
    if a == n {
        proof {
            assert(s@.subrange(a as int, n as int) =~= Seq::<char>::empty());
        }
        return String::new();
    }
    let mut b: usize = n;
    while b > a && is_space_char(s.get_char(b - 1))
        invariant
            a <= b <= n,
            n == s@.len(),
            forall|k: int| b <= k < n ==> is_space(s@[k]),
        decreases b,
    {
        b = b - 1;
    }
    let r = String::from_str(s.substring_char(a, b));
    proof {
        let t = s@.subrange(a as int, n as int);
        assert forall|k: int| b - a <= k < t.len() implies is_space(t[k]) by {
            assert(t[k] == s@[a + k]);
        }
        if b > a {
            assert(t[b - a - 1] == s@[b - 1]);
        } else {
            assert(!is_space(t[0]));
        }
        lemma_trim_end_at(t, b - a);
        assert(t.subrange(0, b - a) =~= s@.subrange(a as int, b as int));
    }
    r
}

/// What `str::replace(pat, "")` returns: `s` with every occurrence of
/// `pat` removed, scanning left to right without overlap.
pub open spec fn remove_all_spec(s: Seq<char>, pat: Seq<char>) -> Seq<char>
    decreases s.len(),
{
    if pat.len() == 0 || s.len() < pat.len() {
        s
    } else if s.subrange(0, pat.len() as int) == pat {
        remove_all_spec(s.skip(pat.len() as int), pat)
    } else {
        seq![s[0]] + remove_all_spec(s.drop_first(), pat)
    }
}

/// Removes every occurrence of `pat` from `s`, as `str::replace(pat, "")`
/// does.
pub fn remove_all(s: &str, pat: &str) -> (r: String)
    requires
        pat@.len() > 0,
    ensures
        r@ == remove_all_spec(s@, pat@),
{
    let n = s.unicode_len();
    let plen = pat.unicode_len();
    let mut out = String::new();
    let mut i: usize = 0;
    proof {
        assert(s@.subrange(0, n as int) =~= s@);
        assert(out@ + remove_all_spec(s@, pat@) =~= remove_all_spec(s@, pat@));
    }
    while i < n
        invariant
            0 <= i <= n,
            n == s@.len(),
            plen == pat@.len(),
            plen > 0,
            remove_all_spec(s@, pat@) == out@ + remove_all_spec(
                s@.subrange(i as int, n as int),
                pat@,
            ),
        decreases n - i,
    {
        let ghost rem = s@.subrange(i as int, n as int);
        if plen <= n - i && matches_at_exec(s, pat, i) {
            proof {
                assert(rem.subrange(0, plen as int) =~= s@.subrange(i as int, i + plen));
                assert(rem.skip(plen as int) =~= s@.subrange(i + plen, n as int));
                assert(remove_all_spec(rem, pat@) == remove_all_spec(
                    s@.subrange(i + plen, n as int),
                    pat@,
                ));
            }
            i = i + plen;
        } else {
            let piece = s.substring_char(i, i + 1);
            let ghost old_out = out@;
            out.append(piece);
            proof {
                assert(piece@ =~= seq![s@[i as int]]);
                if rem.len() < plen {
                    assert(remove_all_spec(rem, pat@) == rem);
                    let tail = s@.subrange(i + 1, n as int);
                    assert(tail.len() < plen);
                    assert(remove_all_spec(tail, pat@) == tail);
                    assert(rem =~= seq![s@[i as int]] + tail);
                } else {
                    assert(rem.subrange(0, plen as int) =~= s@.subrange(i as int, i + plen));
                    assert(rem.subrange(0, plen as int) != pat@);
                    assert(rem.drop_first() =~= s@.subrange(i + 1, n as int));
                    assert(rem[0] == s@[i as int]);
                }
                assert(out@ + remove_all_spec(s@.subrange(i + 1, n as int), pat@) =~= old_out + (
                seq![s@[i as int]] + remove_all_spec(s@.subrange(i + 1, n as int), pat@)));
            }
            i = i + 1;
        }
    }
    proof {
        assert(s@.subrange(n as int, n as int) =~= Seq::<char>::empty());
        assert(out@ + Seq::<char>::empty() =~= out@);
    }
    out
}

/// The whitespace characters that `u8::is_ascii_whitespace` recognises,
/// which `str::split_ascii_whitespace` splits on.
pub open spec fn is_ascii_space(c: char) -> bool {
    c == ' ' || c == '\t' || c == '\n' || (c as u32) == 0x0C || c == '\r'
}

/// The position of the first ASCII whitespace character in `s`, or
/// `s.len()` when there is none.
pub open spec fn first_space(s: Seq<char>) -> int
    decreases s.len(),
{
    if s.len() == 0 {
        0
    } else if is_ascii_space(s[0]) {
        0
    } else {
        1 + first_space(s.drop_first())
    }
}

/// What `first_space` returns, in the manner of `lemma_first_index`.
proof fn lemma_first_space(s: Seq<char>)
    ensures
        0 <= first_space(s) <= s.len(),
        first_space(s) < s.len() ==> is_ascii_space(s[first_space(s)]),
        forall|k: int| 0 <= k < first_space(s) ==> !is_ascii_space(s[k]),
    decreases s.len(),
{
    if s.len() > 0 && !is_ascii_space(s[0]) {
        lemma_first_space(s.drop_first());
        assert forall|k: int| 0 <= k < first_space(s) implies !is_ascii_space(s[k]) by {
            if k > 0 {
                assert(!is_ascii_space(s.drop_first()[k - 1]));
            }
        }
    }
}

/// `first_space` is the position `i` whenever no whitespace stands before
/// it and either `i` holds whitespace or `i` is the length.
proof fn lemma_first_space_at(s: Seq<char>, i: int)
    requires
        0 <= i <= s.len(),
        forall|k: int| 0 <= k < i ==> !is_ascii_space(s[k]),
        i < s.len() ==> is_ascii_space(s[i]),
    ensures
        first_space(s) == i,
{
    lemma_first_space(s);
    let f = first_space(s);
    if f < i {
        assert(is_ascii_space(s[f]));
        assert(false);
    }
    if f > i {
        assert(!is_ascii_space(s[i]));
        assert(false);
    }
}

/// What `str::split_ascii_whitespace` yields: the maximal runs of
/// non-whitespace characters, in order.
pub open spec fn split_spaces_spec(s: Seq<char>) -> Seq<Seq<char>>
    decreases s.len(),
{
    if s.len() == 0 {
        Seq::empty()
    } else if is_ascii_space(s[0]) {
        split_spaces_spec(s.drop_first())
    } else {
        let i = first_space(s);
        if 0 < i < s.len() {
            seq![s.subrange(0, i)] + split_spaces_spec(s.subrange(i, s.len() as int))
        } else {
            seq![s]
        }
    }
}

/// Splits `s` on runs of ASCII whitespace, as
/// `str::split_ascii_whitespace` does.
pub fn split_spaces(s: &str) -> (r: Vec<String>)
    ensures
        r.deep_view() == split_spaces_spec(s@),
{
    let n = s.unicode_len();
    let mut r: Vec<String> = Vec::new();
    let mut i: usize = 0;
    proof {
        assert(s@.subrange(0, n as int) =~= s@);
        assert(r.deep_view() =~~= Seq::<Seq<char>>::empty());
        assert(r.deep_view() + split_spaces_spec(s@) =~~= split_spaces_spec(s@));
    }
    while i < n
        invariant
            0 <= i <= n,
            n == s@.len(),
            split_spaces_spec(s@) == r.deep_view() + split_spaces_spec(
                s@.subrange(i as int, n as int),
            ),
        decreases n - i,
    {
        let ghost rem = s@.subrange(i as int, n as int);
        if is_space_char_ascii(s, i) {
            proof {
                assert(rem[0] == s@[i as int]);
                assert(rem.drop_first() =~= s@.subrange(i + 1, n as int));
            }
            i = i + 1;
        } else {
            let mut j: usize = i + 1;
            while j < n && !is_space_char_ascii(s, j)
                invariant
                    i < j <= n,
                    n == s@.len(),
                    forall|k: int| i <= k < j ==> !is_ascii_space(s@[k]),
                decreases n - j,
            {
                j = j + 1;
            }
            let piece = String::from_str(s.substring_char(i, j));
            proof {
                assert forall|k: int| 0 <= k < j - i implies !is_ascii_space(rem[k]) by {
                    assert(rem[k] == s@[i + k]);
                }
                if j < n {
                    assert(rem[j - i] == s@[j as int]);
                }
                lemma_first_space_at(rem, j - i);
                assert(rem.subrange(0, j - i) =~= s@.subrange(i as int, j as int));
                if j < n {
                    assert(rem.subrange(j - i, rem.len() as int) =~= s@.subrange(
                        j as int,
                        n as int,
                    ));
                    assert(split_spaces_spec(rem) == seq![s@.subrange(i as int, j as int)]
                        + split_spaces_spec(s@.subrange(j as int, n as int)));
                } else {
                    assert(rem =~= s@.subrange(i as int, j as int));
                    assert(split_spaces_spec(rem) == seq![s@.subrange(i as int, j as int)]);
                }
            }
            let ghost old_r = r.deep_view();
            r.push(piece);
            proof {
                assert(r.deep_view() =~~= old_r.push(s@.subrange(i as int, j as int)));
                if j < n {
                    assert(r.deep_view() + split_spaces_spec(s@.subrange(j as int, n as int))
                        =~~= old_r + (seq![s@.subrange(i as int, j as int)] + split_spaces_spec(
                        s@.subrange(j as int, n as int),
                    )));
                } else {
                    assert(s@.subrange(j as int, n as int) =~= Seq::<char>::empty());
                    assert(r.deep_view() + split_spaces_spec(s@.subrange(j as int, n as int))
                        =~~= old_r + split_spaces_spec(rem));
                }
            }
            i = j;
        }
    }
    proof {
        assert(s@.subrange(n as int, n as int) =~= Seq::<char>::empty());
        assert(r.deep_view() + Seq::<Seq<char>>::empty() =~~= r.deep_view());
    }
    r
}

/// No character of `s` is ASCII whitespace.
pub open spec fn no_spaces(s: Seq<char>) -> bool {
    forall|k: int| 0 <= k < s.len() ==> !is_ascii_space(s[k])
}

/// Concatenation preserves freedom from whitespace.
pub proof fn lemma_no_spaces_concat(a: Seq<char>, b: Seq<char>)
    requires
        no_spaces(a),
        no_spaces(b),
    ensures
        no_spaces(a + b),
{
    assert forall|k: int| 0 <= k < (a + b).len() implies !is_ascii_space((a + b)[k]) by {
        if k < a.len() {
            assert((a + b)[k] == a[k]);
        } else {
            assert((a + b)[k] == b[k - a.len()]);
        }
    }
}

/// Splitting on whitespace undoes joining with a single space, provided
/// every part is non-empty and free of ASCII whitespace.  This is what
/// lets `recreate` read back the exact argument list that `create`
/// saved, as long as no argument carries a space.
pub proof fn lemma_join_split_spaces(parts: Seq<Seq<char>>)
    requires
        forall|i: int|
            0 <= i < parts.len() ==> (#[trigger] parts[i]).len() > 0 && no_spaces(parts[i]),
    ensures
        split_spaces_spec(join_spec(parts, " "@)) == parts,
    decreases parts.len(),
{
    reveal_strlit(" ");
    let s = join_spec(parts, " "@);
    if parts.len() == 0 {
        assert(split_spaces_spec(s) =~~= parts);
    } else if parts.len() == 1 {
        assert(s == parts[0]);
        assert(forall|k: int| 0 <= k < s.len() ==> !is_ascii_space(s[k]));
        assert(!is_ascii_space(s[0]));
        lemma_first_space_at(s, s.len() as int);
        assert(s.subrange(0, s.len() as int) =~= s);
        assert(split_spaces_spec(s) =~~= parts);
    } else {
        let head = parts[0];
        let rest = parts.drop_first();
        let tail = join_spec(rest, " "@);
        assert(s == head + " "@ + tail);
        let n0 = head.len() as int;
        assert forall|k: int| 0 <= k < n0 implies !is_ascii_space(s[k]) by {
            assert(s[k] == head[k]);
        }
        assert(s[n0] == ' ');
        lemma_first_space_at(s, n0);
        assert(!is_ascii_space(s[0]));
        assert(split_spaces_spec(s) == seq![s.subrange(0, n0)] + split_spaces_spec(
            s.subrange(n0, s.len() as int),
        ));
        assert(s.subrange(0, n0) =~= head);
        let after = s.subrange(n0, s.len() as int);
        assert(after[0] == ' ');
        assert(after.drop_first() =~= tail);
        assert(split_spaces_spec(after) == split_spaces_spec(tail));
        assert forall|i: int| 0 <= i < rest.len() implies (#[trigger] rest[i]).len() > 0
            && no_spaces(rest[i]) by {
            assert(rest[i] == parts[i + 1]);
        }
        lemma_join_split_spaces(rest);
        assert(split_spaces_spec(s) =~~= seq![head] + rest);
        assert(seq![head] + rest =~~= parts);
    }
}

/// Whether the character of `s` at `i` is ASCII whitespace.
fn is_space_char_ascii(s: &str, i: usize) -> (r: bool)
    requires
        i < s@.len(),
    ensures
        r == is_ascii_space(s@[i as int]),
{
    let c = s.get_char(i);
    c == ' ' || c == '\t' || c == '\n' || (c as u32) == 0x0C || c == '\r'
}

/// Whether some string of `v` equals `s`.
pub fn contains_string(v: &Vec<String>, s: &str) -> (r: bool)
    ensures
        r == v.deep_view().contains(s@),
{
    let mut i: usize = 0;
    while i < v.len()
        invariant
            0 <= i <= v@.len(),
            v.deep_view().len() == v@.len(),
            forall|k: int| 0 <= k < i ==> v.deep_view()[k] != s@,
        decreases v@.len() - i,
    {
        if str_eq(v[i].as_str(), s) {
            proof {
                assert(v.deep_view()[i as int] == s@);
            }
            return true;
        }
        i = i + 1;
    }
    false
}

} // verus!
