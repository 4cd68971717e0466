//! Character and string primitives shared by the parsers and the record
//! builders: Unicode character classes (taken from `std`), trimming, and
//! ASCII case-insensitive comparison.
use vstd::prelude::*;

verus! {

broadcast use vstd::string::group_string_axioms;

/// Whether `c` has the Unicode `White_Space` property, which is what
/// `char::is_whitespace` tests: tab, line feed, vertical tab, form feed,
/// carriage return, space, next line, no-break space, ogham space mark, the
/// spaces U+2000 to U+200A, line and paragraph separator, narrow no-break
/// space, medium mathematical space and ideographic space.
pub open spec fn unicode_whitespace(c: char) -> bool {
    ||| ('\u{9}' <= c && c <= '\u{D}')
    ||| c == ' '
    ||| c == '\u{85}'
    ||| c == '\u{A0}'
    ||| c == '\u{1680}'
    ||| ('\u{2000}' <= c && c <= '\u{200A}')
    ||| c == '\u{2028}'
    ||| c == '\u{2029}'
    ||| c == '\u{202F}'
    ||| c == '\u{205F}'
    ||| c == '\u{3000}'
}

/// Whether `char::is_alphabetic` holds of `c` (the Unicode `Alphabetic`
/// property).
pub uninterp spec fn unicode_alphabetic(c: char) -> bool;

/// Whether `char::is_alphanumeric` holds of `c` (`Alphabetic` or `Numeric`).
pub uninterp spec fn unicode_alphanumeric(c: char) -> bool;

/// Whether `c` is whitespace, as `char::is_whitespace` answers (see
/// `unicode_whitespace`).
pub fn is_whitespace(c: char) -> (b: bool)
    ensures
        b == unicode_whitespace(c),
{
    ('\u{9}' <= c && c <= '\u{D}') || c == ' ' || c == '\u{85}' || c == '\u{A0}' || c
        == '\u{1680}' || ('\u{2000}' <= c && c <= '\u{200A}') || c == '\u{2028}' || c
        == '\u{2029}' || c == '\u{202F}' || c == '\u{205F}' || c == '\u{3000}'
}

/// Calls `char::is_alphabetic`; its result is named `unicode_alphabetic`.
/// Among ASCII chars the `Alphabetic` ones are exactly the letters.
#[verifier::external_body]
pub(crate) fn is_alphabetic(c: char) -> (b: bool)
    ensures
        b == unicode_alphabetic(c),
        c <= '\u{7F}' ==> (b <==> (('a' <= c && c <= 'z') || ('A' <= c && c <= 'Z'))),
{
    c.is_alphabetic()
}

/// Calls `char::is_alphanumeric`; its result is named `unicode_alphanumeric`.
/// Among ASCII chars the `Alphabetic` or `Numeric` ones are exactly the
/// letters and the digits.
#[verifier::external_body]
pub(crate) fn is_alphanumeric(c: char) -> (b: bool)
    ensures
        b == unicode_alphanumeric(c),
        c <= '\u{7F}' ==> (b <==> (('a' <= c && c <= 'z') || ('A' <= c && c <= 'Z') || ('0' <= c
            && c <= '9'))),
{
    c.is_alphanumeric()
}

/// Calls `String::push`, which appends one char to the string.
#[verifier::external_body]
pub(crate) fn push_char(s: &mut String, c: char)
    ensures
        final(s)@ == old(s)@.push(c),
{
    s.push(c)
}

/// The characters of `s`, in order.
pub fn chars_of(s: &str) -> (res: Vec<char>)
    ensures
        res@ == s@,
{
    let mut out: Vec<char> = Vec::new();
    for c in it: s.chars()
        invariant
            out@ == it.seq().take(it.index() as int),
            it.seq() == s@,
    {
        out.push(c);
    }
    out
}

/// A `String` holding `cs[from..to]`.
pub fn string_from_range(cs: &Vec<char>, from: usize, to: usize) -> (res: String)
    requires
        from <= to <= cs@.len(),
    ensures
        res@ == cs@.subrange(from as int, to as int),
{
    let mut out = String::new();
    let mut k = from;
    while k < to
        invariant
            from <= k <= to <= cs@.len(),
            out@ == cs@.subrange(from as int, k as int),
        decreases to - k,
    {
        push_char(&mut out, cs[k]);
        assert(cs@.subrange(from as int, k + 1) == cs@.subrange(from as int, k as int).push(cs@[k as int]));
        k = k + 1;
    }
    out
}

/// Whether `a` and `b` hold the same characters.
pub fn text_equals(a: &String, b: &str) -> (res: bool)
    ensures
        res == (a@ == b@),
{
    let other = b.to_owned();
    *a == other
}

// ---------------------------------------------------------------------------
// Trimming
// ---------------------------------------------------------------------------

/// The first position at or after `k` whose char is not whitespace (or the
/// end of `s`).
pub open spec fn first_non_whitespace(s: Seq<char>, k: int) -> int
    decreases s.len() - k,
{
    if k < 0 || k >= s.len() {
        if k < 0 { 0 } else { s.len() as int }
    } else if unicode_whitespace(s[k]) {
        first_non_whitespace(s, k + 1)
    } else {
        k
    }
}

/// The end `e` of `s[lo..hi]` once the whitespace at its end is removed.
pub open spec fn end_without_whitespace(s: Seq<char>, lo: int, hi: int) -> int
    decreases hi - lo,
{
    if hi <= lo {
        lo
    } else if unicode_whitespace(s[hi - 1]) {
        end_without_whitespace(s, lo, hi - 1)
    } else {
        hi
    }
}

/// `s` without its leading and trailing whitespace, as `str::trim` gives it.
pub open spec fn trim_whitespace(s: Seq<char>) -> Seq<char> {
    let a = first_non_whitespace(s, 0);
    s.subrange(a, end_without_whitespace(s, a, s.len() as int))
}

pub proof fn lemma_first_non_whitespace(s: Seq<char>, k: int)
    requires
        0 <= k <= s.len(),
    ensures
        k <= first_non_whitespace(s, k) <= s.len(),
    decreases s.len() - k,
{
    if k < s.len() && unicode_whitespace(s[k]) {
        lemma_first_non_whitespace(s, k + 1);
    }
}

pub proof fn lemma_end_without_whitespace(s: Seq<char>, lo: int, hi: int)
    requires
        0 <= lo <= hi <= s.len(),
    ensures
        lo <= end_without_whitespace(s, lo, hi) <= hi,
    decreases hi - lo,
{
    if hi > lo && unicode_whitespace(s[hi - 1]) {
        lemma_end_without_whitespace(s, lo, hi - 1);
    }
}

/// The first and last chars of a non-empty trimmed text are not
/// whitespace.
pub proof fn lemma_trim_ends(s: Seq<char>)
    ensures
        trim_whitespace(s).len() > 0 ==> !unicode_whitespace(trim_whitespace(s)[0])
            && !unicode_whitespace(trim_whitespace(s).last()),
{
    lemma_first_non_whitespace_stops(s, 0);
    lemma_first_non_whitespace(s, 0);
    let a = first_non_whitespace(s, 0);
    lemma_end_without_whitespace(s, a, s.len() as int);
    lemma_end_without_whitespace_stops(s, a, s.len() as int);
}

proof fn lemma_first_non_whitespace_stops(s: Seq<char>, k: int)
    requires
        0 <= k <= s.len(),
    ensures
        first_non_whitespace(s, k) < s.len() ==> !unicode_whitespace(s[first_non_whitespace(s, k)]),
    decreases s.len() - k,
{
    if k < s.len() && unicode_whitespace(s[k]) {
        lemma_first_non_whitespace_stops(s, k + 1);
    }
}

proof fn lemma_end_without_whitespace_stops(s: Seq<char>, lo: int, hi: int)
    requires
        0 <= lo <= hi <= s.len(),
    ensures
        end_without_whitespace(s, lo, hi) > lo ==> !unicode_whitespace(
            s[end_without_whitespace(s, lo, hi) - 1],
        ),
    decreases hi - lo,
{
    if hi > lo && unicode_whitespace(s[hi - 1]) {
        lemma_end_without_whitespace_stops(s, lo, hi - 1);
    }
}

/// A text that neither starts nor ends with whitespace is its own trim.
pub proof fn lemma_trim_unpadded(s: Seq<char>)
    requires
        s.len() > 0 ==> !unicode_whitespace(s[0]) && !unicode_whitespace(s.last()),
    ensures
        trim_whitespace(s) == s,
{
    if s.len() > 0 {
        assert(first_non_whitespace(s, 0) == 0);
        assert(end_without_whitespace(s, 0, s.len() as int) == s.len());
    }
    assert(s.subrange(0, s.len() as int) == s);
}

/// Trimming twice is trimming once.
pub proof fn law_trim_idempotent(s: Seq<char>)
    ensures
        trim_whitespace(trim_whitespace(s)) == trim_whitespace(s),
{
    lemma_trim_ends(s);
    lemma_trim_unpadded(trim_whitespace(s));
}

proof fn lemma_first_non_whitespace_skips(s: Seq<char>, k: int)
    requires
        0 <= k <= s.len(),
    ensures
        forall|j: int| k <= j < first_non_whitespace(s, k) ==> unicode_whitespace(#[trigger] s[j]),
    decreases s.len() - k,
{
    if k < s.len() && unicode_whitespace(s[k]) {
        lemma_first_non_whitespace_skips(s, k + 1);
    }
}

proof fn lemma_end_without_whitespace_skips(s: Seq<char>, lo: int, hi: int)
    requires
        0 <= lo <= hi <= s.len(),
    ensures
        forall|j: int| end_without_whitespace(s, lo, hi) <= j < hi ==> unicode_whitespace(#[trigger] s[j]),
    decreases hi - lo,
{
    if hi > lo && unicode_whitespace(s[hi - 1]) {
        lemma_end_without_whitespace_skips(s, lo, hi - 1);
    }
}

/// Trimming cuts a text down to one contiguous part of it: only whitespace
/// is removed, at the front and at the back, and what is kept neither
/// starts nor ends with whitespace.
pub proof fn law_trim_removes_only_whitespace(s: Seq<char>)
    ensures
        exists|a: int, b: int|
            0 <= a <= b <= s.len() && trim_whitespace(s) == s.subrange(a, b) && (forall|j: int|
                0 <= j < a ==> unicode_whitespace(#[trigger] s[j])) && (forall|j: int|
                b <= j < s.len() ==> unicode_whitespace(#[trigger] s[j])),
        trim_whitespace(s).len() > 0 ==> !unicode_whitespace(trim_whitespace(s)[0])
            && !unicode_whitespace(trim_whitespace(s).last()),
{
    lemma_first_non_whitespace(s, 0);
    let a = first_non_whitespace(s, 0);
    lemma_end_without_whitespace(s, a, s.len() as int);
    let b = end_without_whitespace(s, a, s.len() as int);
    lemma_first_non_whitespace_skips(s, 0);
    lemma_end_without_whitespace_skips(s, a, s.len() as int);
    lemma_trim_ends(s);
    assert(0 <= a <= b <= s.len() && trim_whitespace(s) == s.subrange(a, b));
}

/// The positions `[a, b)` of `cs` that `trim_whitespace` keeps.
pub fn trim_bounds(cs: &Vec<char>) -> (r: (usize, usize))
    ensures
        r.0 as int == first_non_whitespace(cs@, 0),
        r.1 as int == end_without_whitespace(cs@, r.0 as int, cs@.len() as int),
        r.0 <= r.1 <= cs@.len(),
{
    proof {
        lemma_first_non_whitespace(cs@, 0);
    }
    let n = cs.len();
    let mut a: usize = 0;
    while a < n && is_whitespace(cs[a])
        invariant
            n == cs@.len(),
            a <= n,
            first_non_whitespace(cs@, a as int) == first_non_whitespace(cs@, 0),
        decreases n - a,
    {
        a = a + 1;
    }
    proof {
        lemma_end_without_whitespace(cs@, a as int, n as int);
    }
    let mut b: usize = n;
    while b > a && is_whitespace(cs[b - 1])
        invariant
            n == cs@.len(),
            a <= b <= n,
            end_without_whitespace(cs@, a as int, b as int) == end_without_whitespace(
                cs@,
                a as int,
                n as int,
            ),
        decreases b - a,
    {
        b = b - 1;
    }
    (a, b)
}

/// `s` without its leading and trailing whitespace (`str::trim`).
pub fn trim(s: &str) -> (res: String)
    ensures
        res@ == trim_whitespace(s@),
{
    let cs = chars_of(s);
    let (a, b) = trim_bounds(&cs);
    string_from_range(&cs, a, b)
}

// ---------------------------------------------------------------------------
// ASCII case
// ---------------------------------------------------------------------------

/// The code of `c` with ASCII upper case letters mapped to lower case.
pub open spec fn ascii_fold(c: char) -> u32 {
    if 'A' <= c && c <= 'Z' {
        (c as u32 + 32) as u32
    } else {
        c as u32
    }
}

/// Whether `a` and `b` are equal up to ASCII case (`eq_ignore_ascii_case`).
pub open spec fn eq_ignore_ascii_case(a: Seq<char>, b: Seq<char>) -> bool {
    a.len() == b.len() && forall|i: int| 0 <= i < a.len() ==> ascii_fold(#[trigger] a[i]) == ascii_fold(b[i])
}

pub fn fold_char(c: char) -> (r: u32)
    ensures
        r == ascii_fold(c),
{
    if 'A' <= c && c <= 'Z' {
        (c as u32) + 32
    } else {
        c as u32
    }
}

/// Whether `a` and `b` are equal up to ASCII case.
pub fn chars_eq_ignore_ascii_case(a: &Vec<char>, b: &Vec<char>) -> (res: bool)
    ensures
        res == eq_ignore_ascii_case(a@, b@),
{
    if a.len() != b.len() {
        return false;
    }
    let mut i: usize = 0;
    while i < a.len()
        invariant
            a@.len() == b@.len(),
            i <= a@.len(),
            forall|k: int| 0 <= k < i ==> ascii_fold(#[trigger] a@[k]) == ascii_fold(b@[k]),
        decreases a@.len() - i,
    {
        if fold_char(a[i]) != fold_char(b[i]) {
            return false;
        }
        i = i + 1;
    }
    true
}

/// Whether the strings `a` and `b` are equal up to ASCII case
/// (`str::eq_ignore_ascii_case`).
pub fn str_eq_ignore_ascii_case(a: &str, b: &str) -> (res: bool)
    ensures
        res == eq_ignore_ascii_case(a@, b@),
{
    let ca = chars_of(a);
    let cb = chars_of(b);
    chars_eq_ignore_ascii_case(&ca, &cb)
}

// ---------------------------------------------------------------------------
// Joining
// ---------------------------------------------------------------------------

/// The views of a sequence of strings.
pub open spec fn strings_view(v: Seq<String>) -> Seq<Seq<char>> {
    v.map_values(|s: String| s@)
}

/// `parts` joined by `sep` (as `[T]::join` does).
pub open spec fn join_with(parts: Seq<Seq<char>>, sep: Seq<char>) -> Seq<char>
    decreases parts.len(),
{
    if parts.len() == 0 {
        Seq::empty()
    } else if parts.len() == 1 {
        parts[0]
    } else {
        join_with(parts.drop_last(), sep) + sep + parts.last()
    }
}

/// The strings of `parts` joined by `sep`.
pub fn join_strings(parts: &Vec<String>, sep: &str) -> (res: String)
    ensures
        res@ == join_with(strings_view(parts@), sep@),
{
    let mut out = String::new();
    let ghost pv = strings_view(parts@);
    let mut i: usize = 0;
    while i < parts.len()
        invariant
            pv == strings_view(parts@),
            i <= parts@.len(),
            out@ == join_with(pv.take(i as int), sep@),
        decreases parts@.len() - i,
    {
        assert(pv.take(i + 1).drop_last() == pv.take(i as int));
        if i != 0 {
            out.append(sep);
        }
        out.append(parts[i].as_str());
        i = i + 1;
    }
    assert(pv.take(parts@.len() as int) == pv);
    out
}

// ---------------------------------------------------------------------------
// Lower case and splitting
// ---------------------------------------------------------------------------

/// What `str::to_lowercase` gives for `s` (Unicode lower case mapping).
pub uninterp spec fn unicode_lowercase(s: Seq<char>) -> Seq<char>;

/// Calls `str::to_lowercase`; its result is named `unicode_lowercase`. The
/// Unicode case tables are not restated.
#[verifier::external_body]
pub(crate) fn to_lowercase(s: &str) -> (res: String)
    ensures
        res@ == unicode_lowercase(s@),
{
    s.to_lowercase()
}

/// The first position at or after `k` where `s` holds `c`, or `s.len()`.
pub open spec fn index_of_from(s: Seq<char>, c: char, k: int) -> int
    decreases s.len() - k,
{
    if k < 0 || k >= s.len() {
        s.len() as int
    } else if s[k] == c {
        k
    } else {
        index_of_from(s, c, k + 1)
    }
}

pub proof fn lemma_index_of_from(s: Seq<char>, c: char, k: int)
    requires
        0 <= k <= s.len(),
    ensures
        k <= index_of_from(s, c, k) <= s.len(),
        index_of_from(s, c, k) < s.len() ==> s[index_of_from(s, c, k)] == c,
        forall|j: int| k <= j < index_of_from(s, c, k) ==> s[j] != c,
    decreases s.len() - k,
{
    if k < s.len() && s[k] != c {
        lemma_index_of_from(s, c, k + 1);
    }
}

/// `s` split at its first `c`: the part before it and, when there is a
/// `c`, the part after it (`s.splitn(2, c)`).
pub open spec fn split_once(s: Seq<char>, c: char) -> (Seq<char>, Option<Seq<char>>) {
    let p = index_of_from(s, c, 0);
    if p < s.len() {
        (s.take(p), Some(s.skip(p + 1)))
    } else {
        (s, None)
    }
}

/// Splits `s` at its first `c` (see `split_once`).
pub fn split_once_at(s: &str, c: char) -> (res: (String, Option<String>))
    ensures
        res.0@ == split_once(s@, c).0,
        res.1 is Some <==> split_once(s@, c).1 is Some,
        res.1 matches Some(r) ==> r@ == split_once(s@, c).1->Some_0,
{
    let cs = chars_of(s);
    proof {
        lemma_index_of_from(cs@, c, 0);
    }
    let mut p: usize = 0;
    while p < cs.len() && cs[p] != c
        invariant
            p <= cs@.len(),
            index_of_from(cs@, c, p as int) == index_of_from(cs@, c, 0),
        decreases cs@.len() - p,
    {
        p = p + 1;
    }
    if p < cs.len() {
        (string_from_range(&cs, 0, p), Some(string_from_range(&cs, p + 1, cs.len())))
    } else {
        (string_from_range(&cs, 0, p), None)
    }
}

/// `prefix` followed by `rest`.
pub fn joined(prefix: &str, rest: &str) -> (res: String)
    ensures
        res@ == prefix@ + rest@,
{
    let mut out = prefix.to_owned();
    out.append(rest);
    out
}

/// The text of an optional string.
pub open spec fn opt_text(o: Option<String>) -> Option<Seq<char>> {
    match o {
        Some(s) => Some(s@),
        None => None,
    }
}

// ---------------------------------------------------------------------------
// Decimal numbers
// ---------------------------------------------------------------------------

/// The ASCII digit of `d` (for `d < 10`).
pub open spec fn digit_char(d: nat) -> char {
    if d == 0 {
        '0'
    } else if d == 1 {
        '1'
    } else if d == 2 {
        '2'
    } else if d == 3 {
        '3'
    } else if d == 4 {
        '4'
    } else if d == 5 {
        '5'
    } else if d == 6 {
        '6'
    } else if d == 7 {
        '7'
    } else if d == 8 {
        '8'
    } else {
        '9'
    }
}

/// The decimal text of `n`, without sign or leading zeros (as `Display`
/// writes an unsigned integer).
pub open spec fn decimal_text(n: nat) -> Seq<char>
    decreases n,
{
    if n < 10 {
        seq![digit_char(n)]
    } else {
        decimal_text(n / 10).push(digit_char(n % 10))
    }
}

fn digit_of(d: u64) -> (c: char)
    requires
        d < 10,
    ensures
        c == digit_char(d as nat),
{
    if d == 0 {
        '0'
    } else if d == 1 {
        '1'
    } else if d == 2 {
        '2'
    } else if d == 3 {
        '3'
    } else if d == 4 {
        '4'
    } else if d == 5 {
        '5'
    } else if d == 6 {
        '6'
    } else if d == 7 {
        '7'
    } else if d == 8 {
        '8'
    } else {
        '9'
    }
}

/// The decimal text of `n`.
pub fn u64_to_text(n: u64) -> (res: String)
    ensures
        res@ == decimal_text(n as nat),
    decreases n,
{
    if n < 10 {
        let mut out = String::new();
        push_char(&mut out, digit_of(n));
        assert(out@ == seq![digit_char(n as nat)]);
        out
    } else {
        let mut out = u64_to_text(n / 10);
        push_char(&mut out, digit_of(n % 10));
        out
    }
}

/// Whether every char of `d` is an ASCII digit.
pub open spec fn all_ascii_digits(d: Seq<char>) -> bool {
    forall|i: int| 0 <= i < d.len() ==> '0' <= #[trigger] d[i] && d[i] <= '9'
}

/// The value of a string of ASCII digits.
pub open spec fn digits_value(d: Seq<char>) -> nat
    decreases d.len(),
{
    if d.len() == 0 {
        0
    } else {
        digits_value(d.drop_last()) * 10 + ((d.last() as u32 - '0' as u32) as nat)
    }
}

/// What `str::parse::<u64>` gives: an optional `+`, then one or more ASCII
/// digits whose value fits in a `u64`; anything else is an error (`None`).
pub open spec fn parsed_u64(s: Seq<char>) -> Option<u64> {
    let d = if s.len() > 0 && s[0] == '+' {
        s.drop_first()
    } else {
        s
    };
    if d.len() == 0 || !all_ascii_digits(d) || digits_value(d) > u64::MAX {
        None
    } else {
        Some(digits_value(d) as u64)
    }
}

proof fn lemma_digits_value_grows(d: Seq<char>, k: int, j: int)
    requires
        0 <= k <= j <= d.len(),
        all_ascii_digits(d),
    ensures
        digits_value(d.take(k)) <= digits_value(d.take(j)),
    decreases j - k,
{
    if k < j {
        lemma_digits_value_grows(d, k, j - 1);
        assert(d.take(j).drop_last() == d.take(j - 1));
        assert(digits_value(d.take(j)) >= digits_value(d.take(j - 1)) * 10);
    }
}

/// Parses a `u64` as `str::parse::<u64>` does (see `parsed_u64`).
pub fn parse_u64(s: &str) -> (res: Option<u64>)
    ensures
        res == parsed_u64(s@),
{
    let cs = chars_of(s);
    let start: usize = if cs.len() > 0 && cs[0] == '+' {
        1
    } else {
        0
    };
    let ghost d = if cs@.len() > 0 && cs@[0] == '+' {
        cs@.drop_first()
    } else {
        cs@
    };
    assert(d == cs@.skip(start as int));
    if start >= cs.len() {
        return None;
    }
    let mut value: u64 = 0;
    let mut k: usize = start;
    while k < cs.len()
        invariant
            cs@ == s@,
            start <= k <= cs@.len(),
            d == cs@.skip(start as int),
            d == if cs@.len() > 0 && cs@[0] == '+' {
                cs@.drop_first()
            } else {
                cs@
            },
            all_ascii_digits(d.take(k - start)),
            value as nat == digits_value(d.take(k - start)),
        decreases cs@.len() - k,
    {
        let c = cs[k];
        if c < '0' || c > '9' {
            proof {
                assert(d[k - start] == c);
            }
            return None;
        }
        let digit = (c as u32 - '0' as u32) as u64;
        assert(d.take(k + 1 - start).drop_last() == d.take(k - start));
        assert(d.take(k + 1 - start).last() == c);
        assert(all_ascii_digits(d.take(k + 1 - start))) by {
            assert forall|i: int| 0 <= i < d.take(k + 1 - start).len() implies '0' <= #[trigger] d.take(
                k + 1 - start,
            )[i] && d.take(k + 1 - start)[i] <= '9' by {
                if i < k - start {
                    assert(d.take(k + 1 - start)[i] == d.take(k - start)[i]);
                }
            }
        }
        if value > (u64::MAX - digit) / 10 {
            proof {
                assert(digits_value(d.take(k + 1 - start)) == value * 10 + digit);
                assert(value * 10 + digit > u64::MAX) by (nonlinear_arith)
                    requires
                        value > (u64::MAX - digit) / 10,
                        digit <= 9,
                ;
                let rest_ok = all_ascii_digits(d);
                if rest_ok {
                    lemma_digits_value_grows(d, k + 1 - start, d.len() as int);
                    assert(d.take(d.len() as int) == d);
                }
            }
            return None;
        }
        assert(value * 10 + digit <= u64::MAX) by (nonlinear_arith)
            requires
                value <= (u64::MAX - digit) / 10,
                digit <= 9,
        ;
        value = value * 10 + digit;
        k = k + 1;
    }
    assert(d.take(cs@.len() - start) == d);
    Some(value)
}

} // verus!
