//! Text primitives on which the configuration grammar is built: Unicode
//! whitespace, trimming, splitting on commas and signed decimal numbers.
//!
//! Every function here is specified over `Seq<char>`, the view of a string.

use vstd::prelude::*;

verus! {

/// The code points that carry the Unicode property `White_Space`.
pub open spec fn is_space(c: char) -> bool {
    let n = c as u32;
    ||| 0x09 <= n <= 0x0D
    ||| n == 0x20
    ||| n == 0x85
    ||| n == 0xA0
    ||| n == 0x1680
    ||| 0x2000 <= n <= 0x200A
    ||| n == 0x2028
    ||| n == 0x2029
    ||| n == 0x202F
    ||| n == 0x205F
    ||| n == 0x3000
}

/// Number of whitespace characters at the front of `s`.
pub open spec fn leading_spaces(s: Seq<char>) -> nat
    decreases s.len(),
{
    if s.len() > 0 && is_space(s[0]) {
        1 + leading_spaces(s.drop_first())
    } else {
        0
    }
}

/// Number of whitespace characters at the back of `s`.
pub open spec fn trailing_spaces(s: Seq<char>) -> nat
    decreases s.len(),
{
    if s.len() > 0 && is_space(s.last()) {
        1 + trailing_spaces(s.drop_last())
    } else {
        0
    }
}

/// `s` without its leading and trailing whitespace.
pub open spec fn trimmed(s: Seq<char>) -> Seq<char> {
    let rest = s.skip(leading_spaces(s) as int);
    rest.take(rest.len() - trailing_spaces(rest))
}

/// Whether `c` is whitespace in the sense of Unicode.
pub fn is_whitespace(c: char) -> (b: bool)
    ensures
        b == is_space(c),
{
    let n: u32 = c as u32;
    (0x09 <= n && n <= 0x0D) || n == 0x20 || n == 0x85 || n == 0xA0 || n == 0x1680 || (0x2000 <= n
        && n <= 0x200A) || n == 0x2028 || n == 0x2029 || n == 0x202F || n == 0x205F || n == 0x3000
}

/// The characters of `s`, in order.
pub fn chars_of(s: &str) -> (v: Vec<char>)
    ensures
        v@ == s@,
{
    let mut v: Vec<char> = Vec::new();
    for c in it: s.chars()
        invariant
            v@ == it.seq().take(it.index() as int),
            it.seq() == s@,
    {
        v.push(c);
    }
    v
}

/// Whether two strings hold the same characters.
pub fn same_text(a: &str, b: &str) -> (r: bool)
    ensures
        r == (a@ == b@),
{
    let x = a.to_owned();
    let y = b.to_owned();
    x.eq(&y)
}

/// A prefix of whitespace that ends at a non-whitespace character, or at the
/// end of the sequence, is the whole leading whitespace.
pub proof fn lemma_leading_spaces(s: Seq<char>, k: int)
    requires
        0 <= k <= s.len(),
        forall|j: int| 0 <= j < k ==> is_space(#[trigger] s[j]),
        k < s.len() ==> !is_space(s[k]),
    ensures
        leading_spaces(s) == k,
    decreases k,
{
    if k > 0 {
        let t = s.drop_first();
        assert(is_space(s[0]));
        assert forall|j: int| 0 <= j < k - 1 implies is_space(#[trigger] t[j]) by {
            assert(t[j] == s[j + 1]);
        }
        lemma_leading_spaces(t, k - 1);
    }
}

/// The mirror image of [`lemma_leading_spaces`] for the back of the sequence.
pub proof fn lemma_trailing_spaces(s: Seq<char>, k: int)
    requires
        0 <= k <= s.len(),
        forall|j: int| s.len() - k <= j < s.len() ==> is_space(#[trigger] s[j]),
        k < s.len() ==> !is_space(s[s.len() - k - 1]),
    ensures
        trailing_spaces(s) == k,
    decreases k,
{
    if k > 0 {
        let t = s.drop_last();
        assert(is_space(s[s.len() - 1]));
        assert forall|j: int| t.len() - (k - 1) <= j < t.len() implies is_space(
            #[trigger] t[j],
        ) by {
            assert(t[j] == s[j]);
        }
        lemma_trailing_spaces(t, k - 1);
    }
}

/// The bounds `(a, b)` of the trimmed part of `chars[from..to]`.
pub fn trim_bounds(chars: &Vec<char>, from: usize, to: usize) -> (r: (usize, usize))
    requires
        from <= to <= chars.len(),
    ensures
        from <= r.0 <= r.1 <= to,
        chars@.subrange(r.0 as int, r.1 as int) == trimmed(chars@.subrange(from as int, to as int)),
{
    let ghost s = chars@.subrange(from as int, to as int);
    let mut a: usize = from;
    while a < to && is_whitespace(chars[a])
        invariant
            from <= a <= to <= chars.len(),
            forall|j: int| from <= j < a ==> is_space(#[trigger] chars@[j]),
        decreases to - a,
    {
        a = a + 1;
    }
    let mut b: usize = to;
    while b > a && is_whitespace(chars[b - 1])
        invariant
            a <= b <= to <= chars.len(),
            forall|j: int| b <= j < to ==> is_space(#[trigger] chars@[j]),
        decreases b - a,
    {
        b = b - 1;
    }
    proof {
        assert forall|j: int| 0 <= j < a - from implies is_space(#[trigger] s[j]) by {
            assert(s[j] == chars@[from + j]);
        }
        lemma_leading_spaces(s, a - from);
        let rest = s.skip(a - from);
        assert(rest == chars@.subrange(a as int, to as int));
        assert forall|j: int| rest.len() - (to - b) <= j < rest.len() implies is_space(
            #[trigger] rest[j],
        ) by {
            assert(rest[j] == chars@[a + j]);
        }
        lemma_trailing_spaces(rest, to - b);
        assert(rest.take(rest.len() - (to - b)) == chars@.subrange(a as int, b as int));
    }
    (a, b)
}

/// Number of characters in front of the first comma of `s`; its length where
/// it holds none.
pub open spec fn first_field_len(s: Seq<char>) -> nat
    decreases s.len(),
{
    if s.len() == 0 || s[0] == ',' {
        0
    } else {
        1 + first_field_len(s.drop_first())
    }
}

/// The fields of `s` between its commas, in order. A sequence without a comma
/// is one field, and so is the empty sequence.
pub open spec fn split_commas(s: Seq<char>) -> Seq<Seq<char>>
    decreases s.len(),
{
    let n = first_field_len(s) as int;
    if n >= s.len() {
        seq![s]
    } else {
        seq![s.take(n)] + split_commas(s.skip(n + 1))
    }
}

/// The fields of a comma-separated list, each trimmed.
pub open spec fn list_entries(s: Seq<char>) -> Seq<Seq<char>> {
    split_commas(s).map_values(|f: Seq<char>| trimmed(f))
}

/// The views of a sequence of strings.
pub open spec fn texts(v: Seq<String>) -> Seq<Seq<char>> {
    v.map_values(|s: String| s@)
}

/// The view of an optional string.
pub open spec fn text_of(o: Option<String>) -> Option<Seq<char>> {
    match o {
        Some(s) => Some(s@),
        None => None,
    }
}

/// The view of an optional string slice.
pub open spec fn optional_text(o: Option<&str>) -> Option<Seq<char>> {
    match o {
        Some(s) => Some(s@),
        None => None,
    }
}

/// A comma-free prefix that ends at a comma, or at the end of the sequence, is
/// the first field.
pub proof fn lemma_first_field_len(s: Seq<char>, k: int)
    requires
        0 <= k <= s.len(),
        forall|j: int| 0 <= j < k ==> #[trigger] s[j] != ',',
        k < s.len() ==> s[k] == ',',
    ensures
        first_field_len(s) == k,
    decreases k,
{
    if k > 0 {
        let t = s.drop_first();
        assert(s[0] != ',');
        assert forall|j: int| 0 <= j < k - 1 implies #[trigger] t[j] != ',' by {
            assert(t[j] == s[j + 1]);
        }
        lemma_first_field_len(t, k - 1);
    }
}

/// Splits a comma-separated list and trims every entry.
pub fn split_list(raw: &str) -> (out: Vec<String>)
    ensures
        texts(out@) == list_entries(raw@),
        out@.len() >= 1,
{
    let chars = chars_of(raw);
    let n = chars.len();
    let mut out: Vec<String> = Vec::new();
    let mut start: usize = 0;
    let mut i: usize = 0;
    proof {
        assert(raw@.skip(0) == raw@);
        assert(texts(out@) + list_entries(raw@) =~= list_entries(raw@));
    }
    while i < n
        invariant
            chars@ == raw@,
            n == chars.len(),
            start <= i <= n,
            forall|j: int| start <= j < i ==> #[trigger] chars@[j] != ',',
            list_entries(raw@) == texts(out@) + list_entries(raw@.skip(start as int)),
        decreases n - i,
    {
        if chars[i] == ',' {
            let (a, b) = trim_bounds(&chars, start, i);
            let entry = raw.substring_char(a, b).to_owned();
            proof {
                let rest = raw@.skip(start as int);
                assert forall|j: int| 0 <= j < i - start implies #[trigger] rest[j] != ',' by {
                    assert(rest[j] == chars@[start + j]);
                }
                lemma_first_field_len(rest, i - start);
                assert(rest.take(i - start) == raw@.subrange(start as int, i as int));
                assert(rest.skip(i - start + 1) == raw@.skip(i + 1));
                let tail = split_commas(raw@.skip(i + 1));
                let f = |f: Seq<char>| trimmed(f);
                assert(split_commas(rest) == seq![rest.take(i - start)] + tail);
                assert(list_entries(rest) == seq![entry@] + list_entries(raw@.skip(i + 1))) by {
                    assert((seq![rest.take(i - start)] + tail).map_values(f) =~= seq![entry@]
                        + tail.map_values(f));
                }
                assert(texts(out@.push(entry)) =~= texts(out@) + seq![entry@]);
            }
            out.push(entry);
            start = i + 1;
        }
        i = i + 1;
    }
    let (a, b) = trim_bounds(&chars, start, n);
    let entry = raw.substring_char(a, b).to_owned();
    proof {
        let rest = raw@.skip(start as int);
        assert forall|j: int| 0 <= j < n - start implies #[trigger] rest[j] != ',' by {
            assert(rest[j] == chars@[start + j]);
        }
        lemma_first_field_len(rest, n - start);
        assert(rest == raw@.subrange(start as int, n as int));
        assert(split_commas(rest) == seq![rest]);
        assert(list_entries(rest) =~= seq![entry@]);
        assert(texts(out@.push(entry)) =~= texts(out@) + seq![entry@]);
    }
    out.push(entry);
    out
}

/// An ASCII decimal digit.
pub open spec fn is_digit(c: char) -> bool {
    '0' <= c <= '9'
}

/// The number that a decimal digit stands for.
pub open spec fn digit_value(c: char) -> int {
    (c as u32) - ('0' as u32)
}

/// Whether every character of `s` is a decimal digit.
pub open spec fn all_digits(s: Seq<char>) -> bool {
    forall|i: int| 0 <= i < s.len() ==> is_digit(#[trigger] s[i])
}

/// The number written by a sequence of decimal digits, most significant first.
pub open spec fn decimal_value(s: Seq<char>) -> int
    decreases s.len(),
{
    if s.len() == 0 {
        0
    } else {
        10 * decimal_value(s.drop_last()) + digit_value(s.last())
    }
}

/// The integer written by `s`: an optional sign, `+` or `-`, and then one or
/// more decimal digits and nothing else.
pub open spec fn signed_decimal(s: Seq<char>) -> Option<int> {
    let signed = s.len() > 0 && (s[0] == '-' || s[0] == '+');
    let digits = if signed {
        s.drop_first()
    } else {
        s
    };
    if digits.len() > 0 && all_digits(digits) {
        if s[0] == '-' {
            Some(-decimal_value(digits))
        } else {
            Some(decimal_value(digits))
        }
    } else {
        None
    }
}

/// The `i64` written by `s`, if it writes an integer and that integer fits.
pub open spec fn parse_i64_spec(s: Seq<char>) -> Option<i64> {
    match signed_decimal(s) {
        Some(v) => if i64::MIN <= v <= i64::MAX {
            Some(v as i64)
        } else {
            None
        },
        None => None,
    }
}

/// Digits appended to a number never make it smaller.
pub proof fn lemma_decimal_value_grows(s: Seq<char>, k: int)
    requires
        0 <= k <= s.len(),
        all_digits(s),
    ensures
        0 <= decimal_value(s.take(k)) <= decimal_value(s),
    decreases s.len() - k,
{
    if k == s.len() {
        assert(s.take(k) == s);
        lemma_decimal_value_nonnegative(s);
    } else {
        let t = s.drop_last();
        assert(t.take(k) == s.take(k));
        assert forall|i: int| 0 <= i < t.len() implies is_digit(#[trigger] t[i]) by {
            assert(t[i] == s[i]);
        }
        lemma_decimal_value_grows(t, k);
        assert(is_digit(s.last()));
    }
}

/// A sequence of digits writes a number that is not negative.
pub proof fn lemma_decimal_value_nonnegative(s: Seq<char>)
    requires
        all_digits(s),
    ensures
        0 <= decimal_value(s),
    decreases s.len(),
{
    if s.len() > 0 {
        let t = s.drop_last();
        assert forall|i: int| 0 <= i < t.len() implies is_digit(#[trigger] t[i]) by {
            assert(t[i] == s[i]);
        }
        lemma_decimal_value_nonnegative(t);
        assert(is_digit(s.last()));
    }
}

/// Reads a signed decimal integer of 64 bits.
#[verifier::loop_isolation(false)]
pub fn parse_i64(s: &str) -> (r: Option<i64>)
    ensures
        r == parse_i64_spec(s@),
{
    let chars = chars_of(s);
    let n = chars.len();
    if n == 0 {
        return None;
    }
    let negative = chars[0] == '-';
    let start: usize = if chars[0] == '-' || chars[0] == '+' {
        1
    } else {
        0
    };
    let ghost digits = if start == 1 {
        s@.drop_first()
    } else {
        s@
    };
    assert(digits == s@.subrange(start as int, n as int));
    if start == n {
        return None;
    }
    let limit: i128 = 0x8000_0000_0000_0000;
    let mut acc: i128 = 0;
    let mut i: usize = start;
    while i < n
        invariant
            chars@ == s@,
            n == chars.len(),
            start <= i <= n,
            digits == s@.subrange(start as int, n as int),
            limit == 0x8000_0000_0000_0000,
            0 <= acc <= limit,
            all_digits(digits.take(i - start)),
            acc == decimal_value(digits.take(i - start)),
        decreases n - i,
    {
        let c = chars[i];
        if !(c >= '0' && c <= '9') {
            assert(!is_digit(digits[i - start]));
            return None;
        }
        let d: i128 = ((c as u32) - ('0' as u32)) as i128;
        let next: i128 = acc * 10 + d;
        proof {
            let cur = digits.take(i - start + 1);
            assert(cur.drop_last() == digits.take(i - start));
            assert(cur.last() == c);
            assert forall|j: int| 0 <= j < cur.len() implies is_digit(#[trigger] cur[j]) by {
                if j < i - start {
                    assert(cur[j] == digits.take(i - start)[j]);
                }
            }
            assert(next == decimal_value(cur));
        }
        if next > limit {
            proof {
                if all_digits(digits) {
                    lemma_decimal_value_grows(digits, i - start + 1);
                }
            }
            return None;
        }
        acc = next;
        i = i + 1;
    }
    assert(digits.take(n - start) == digits);
    if negative {
        Some((-acc) as i64)
    } else if acc == limit {
        None
    } else {
        Some(acc as i64)
    }
}

/// Whether `part` occurs in `whole` as one contiguous run of characters.
pub open spec fn is_infix(part: Seq<char>, whole: Seq<char>) -> bool {
    exists|at: int| occurs_at(part, whole, at)
}

/// Whether `part` occurs in `whole` at the offset `at`.
pub open spec fn occurs_at(part: Seq<char>, whole: Seq<char>, at: int) -> bool {
    &&& 0 <= at
    &&& at + part.len() <= whole.len()
    &&& whole.subrange(at, at + part.len()) == part
}

/// The middle of a concatenation of three occurs in it.
pub proof fn lemma_middle_is_infix(before: Seq<char>, part: Seq<char>, after: Seq<char>)
    ensures
        is_infix(part, before + part + after),
{
    let whole = before + part + after;
    assert(whole.subrange(before.len() as int, (before.len() + part.len()) as int) =~= part);
    assert(occurs_at(part, whole, before.len() as int));
}

/// What occurs in a part occurs in the whole.
pub proof fn lemma_infix_of_part(inner: Seq<char>, before: Seq<char>, part: Seq<char>, after: Seq<char>)
    requires
        is_infix(inner, part),
    ensures
        is_infix(inner, before + part + after),
{
    let at = choose|at: int| occurs_at(inner, part, at);
    let whole = before + part + after;
    assert(whole.subrange(before.len() + at, before.len() + at + inner.len()) =~= part.subrange(
        at,
        at + inner.len(),
    ));
    assert(occurs_at(inner, whole, before.len() + at));
}

/// What occurs in a part of a whole occurs in the whole.
pub proof fn lemma_infix_transitive(inner: Seq<char>, part: Seq<char>, whole: Seq<char>)
    requires
        is_infix(inner, part),
        is_infix(part, whole),
    ensures
        is_infix(inner, whole),
{
    let i = choose|at: int| occurs_at(inner, part, at);
    let j = choose|at: int| occurs_at(part, whole, at);
    assert(whole.subrange(j + i, j + i + inner.len()) =~= part.subrange(i, i + inner.len()));
    assert(occurs_at(inner, whole, j + i));
}

} // verus!
