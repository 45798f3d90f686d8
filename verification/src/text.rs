//! Character-level text helpers: case folding, substring search and the
//! decimal integer grammar that `str::parse` accepts.

use vstd::prelude::*;

verus! {

/// The characters of `s`, in order.
pub fn chars_of(s: &str) -> (v: Vec<char>)
    ensures
        v@ == s@,
{
    broadcast use vstd::string::group_string_axioms;

    let mut v: Vec<char> = Vec::new();
    for c in it: s.chars()
        invariant
            v@ == it.seq().take(it.index() as int),
            it.seq() == s@,
    {
        v.push(c);
    }
    v
}

/// ASCII case folding of one character (`char::to_ascii_lowercase`).
pub open spec fn ascii_fold(c: char) -> char {
    if 65 <= (c as u32) <= 90 {
        ((c as u32) + 32) as char
    } else {
        c
    }
}

/// Lowercasing of one character, as far as it can yield an ASCII character:
/// `A`..`Z` become `a`..`z`, and the KELVIN SIGN (U+212A) becomes `k`. These
/// are the only characters whose Unicode lowercase form is a single ASCII
/// character other than themselves.
pub open spec fn lower_fold(c: char) -> char {
    if 65 <= (c as u32) <= 90 {
        ((c as u32) + 32) as char
    } else if (c as u32) == 0x212A {
        'k'
    } else {
        c
    }
}

/// ASCII case folding of a string (`str::to_ascii_lowercase`).
pub open spec fn fold_seq(s: Seq<char>) -> Seq<char> {
    s.map_values(|c: char| ascii_fold(c))
}

/// `lower_fold` applied to every character. For a target `t` made of ASCII
/// lowercase characters, `s.to_lowercase() == t` holds exactly when
/// `lower_seq(s@) == t@`.
pub open spec fn lower_seq(s: Seq<char>) -> Seq<char> {
    s.map_values(|c: char| lower_fold(c))
}

pub fn fold_char(c: char) -> (r: char)
    ensures
        r == ascii_fold(c),
{
    if 'A' <= c && c <= 'Z' {
        (((c as u32) as u8) + 32) as char
    } else {
        c
    }
}

pub fn lower_char(c: char) -> (r: char)
    ensures
        r == lower_fold(c),
{
    if 'A' <= c && c <= 'Z' {
        (((c as u32) as u8) + 32) as char
    } else if c == '\u{212A}' {
        'k'
    } else {
        c
    }
}

/// Whether `s` and `t` are equal up to ASCII case (`str::eq_ignore_ascii_case`).
pub fn folded_equals(s: &Vec<char>, t: &str) -> (r: bool)
    ensures
        r == (fold_seq(s@) == fold_seq(t@)),
{
    let tv = chars_of(t);
    if s.len() != tv.len() {
        assert(fold_seq(s@).len() != fold_seq(t@).len());
        return false;
    }
    let mut i: usize = 0;
    while i < s.len()
        invariant
            s.len() == tv.len(),
            tv@ == t@,
            i <= s.len(),
            forall|j: int| 0 <= j < i ==> ascii_fold(#[trigger] s@[j]) == ascii_fold(tv@[j]),
        decreases s.len() - i,
    {
        if fold_char(s[i]) != fold_char(tv[i]) {
            assert(fold_seq(s@)[i as int] != fold_seq(t@)[i as int]);
            return false;
        }
        i = i + 1;
    }
    assert(fold_seq(s@) =~= fold_seq(t@));
    true
}

/// Whether the lowercase form of `s` equals the lowercase form of `t`.
pub fn lowered_equals(s: &Vec<char>, t: &str) -> (r: bool)
    ensures
        r == (lower_seq(s@) == lower_seq(t@)),
{
    let tv = chars_of(t);
    if s.len() != tv.len() {
        assert(lower_seq(s@).len() != lower_seq(t@).len());
        return false;
    }
    let mut i: usize = 0;
    while i < s.len()
        invariant
            s.len() == tv.len(),
            tv@ == t@,
            i <= s.len(),
            forall|j: int| 0 <= j < i ==> lower_fold(#[trigger] s@[j]) == lower_fold(tv@[j]),
        decreases s.len() - i,
    {
        if lower_char(s[i]) != lower_char(tv[i]) {
            assert(lower_seq(s@)[i as int] != lower_seq(t@)[i as int]);
            return false;
        }
        i = i + 1;
    }
    assert(lower_seq(s@) =~= lower_seq(t@));
    true
}

/// `t` occurs in `s` at position `i`.
pub open spec fn occurs_at(s: Seq<char>, t: Seq<char>, i: int) -> bool {
    0 <= i && i + t.len() <= s.len() && s.subrange(i, i + t.len()) == t
}

/// `t` occurs somewhere in `s` (`str::contains`).
pub open spec fn seq_contains(s: Seq<char>, t: Seq<char>) -> bool {
    exists|i: int| occurs_at(s, t, i)
}

/// Whether `t` occurs in `s` at position `i`.
pub fn matches_at(s: &Vec<char>, t: &Vec<char>, i: usize) -> (r: bool)
    ensures
        r == occurs_at(s@, t@, i as int),
{
    if i > s.len() || t.len() > s.len() - i {
        return false;
    }
    let mut j: usize = 0;
    while j < t.len()
        invariant
            i + t.len() <= s.len(),
            j <= t.len(),
            forall|k: int| 0 <= k < j ==> s@[i + k] == #[trigger] t@[k],
        decreases t.len() - j,
    {
        if s[i + j] != t[j] {
            assert(s@.subrange(i as int, i + t.len())[j as int] != t@[j as int]);
            return false;
        }
        j = j + 1;
    }
    assert(s@.subrange(i as int, i + t.len()) =~= t@);
    true
}

/// Whether `t` occurs somewhere in `s`.
pub fn contains_chars(s: &Vec<char>, t: &Vec<char>) -> (r: bool)
    ensures
        r == seq_contains(s@, t@),
{
    if t.len() > s.len() {
        return false;
    }
    let last = s.len() - t.len();
    let mut i: usize = 0;
    loop
        invariant
            last == s.len() - t.len(),
            i <= last,
            forall|k: int| 0 <= k < i ==> !occurs_at(s@, t@, k),
        ensures
            forall|k: int| 0 <= k <= last ==> !occurs_at(s@, t@, k),
        decreases last - i,
    {
        if matches_at(s, t, i) {
            return true;
        }
        if i == last {
            break;
        }
        i = i + 1;
    }
    false
}

/// Whether `s` contains the text `t`.
pub fn str_contains(s: &Vec<char>, t: &str) -> (r: bool)
    ensures
        r == seq_contains(s@, t@),
{
    let tv = chars_of(t);
    contains_chars(s, &tv)
}

pub open spec fn is_digit(c: char) -> bool {
    48 <= (c as u32) <= 57
}

pub open spec fn all_digits(s: Seq<char>) -> bool {
    forall|i: int| 0 <= i < s.len() ==> is_digit(#[trigger] s[i])
}

/// The value of a string of decimal digits.
pub open spec fn digits_value(s: Seq<char>) -> int
    decreases s.len(),
{
    if s.len() == 0 {
        0
    } else {
        digits_value(s.drop_last()) * 10 + ((s.last() as u32) - 48)
    }
}

/// What `str::parse` gives for an integer type whose values are `min..=max`
/// (`min < 0` for a signed type): an optional sign (`-` only for a signed
/// type) followed by at least one decimal digit, whose value lies in range.
pub open spec fn parse_integer(s: Seq<char>, min: int, max: int) -> Option<int> {
    let neg = s.len() > 0 && s[0] == '-' && min < 0;
    let digits = if s.len() > 0 && (s[0] == '+' || neg) {
        s.drop_first()
    } else {
        s
    };
    if digits.len() == 0 || !all_digits(digits) {
        None
    } else {
        let v = if neg {
            -digits_value(digits)
        } else {
            digits_value(digits)
        };
        if min <= v <= max {
            Some(v)
        } else {
            None
        }
    }
}

/// Integer parsing: a run of decimal digits reads as its value when that is
/// in range, a leading `+` changes nothing, a leading `-` negates the value
/// for a signed type and is refused for an unsigned one, and the empty text
/// or a lone sign is refused.
pub proof fn lemma_parse_integer_forms(s: Seq<char>, min: int, max: int)
    requires
        min <= 0 <= max,
    ensures
        parse_integer(Seq::empty(), min, max) is None,
        parse_integer(seq!['+'], min, max) is None,
        parse_integer(seq!['-'], min, max) is None,
        s.len() > 0 && all_digits(s) && digits_value(s) <= max ==> parse_integer(s, min, max)
            == Some(digits_value(s)),
        s.len() > 0 && all_digits(s) ==> parse_integer(seq!['+'] + s, min, max) == parse_integer(
            s,
            min,
            max,
        ),
        s.len() > 0 && all_digits(s) && min < 0 && min <= -digits_value(s) ==> parse_integer(
            seq!['-'] + s,
            min,
            max,
        ) == Some(-digits_value(s)),
        min == 0 ==> parse_integer(seq!['-'] + s, min, max) is None,
{
    if s.len() > 0 && all_digits(s) {
        lemma_digits_value_nonneg(s);
        assert((seq!['+'] + s).drop_first() =~= s);
        assert((seq!['-'] + s).drop_first() =~= s);
        assert(!is_digit('+') && !is_digit('-'));
    }
    assert((seq!['-'] + s)[0] == '-');
    if min == 0 {
        assert(!is_digit((seq!['-'] + s)[0]));
    }
}

proof fn lemma_digits_value_nonneg(s: Seq<char>)
    requires
        all_digits(s),
    ensures
        digits_value(s) >= 0,
    decreases s.len(),
{
    if s.len() > 0 {
        assert(all_digits(s.drop_last()));
        lemma_digits_value_nonneg(s.drop_last());
        assert(is_digit(s[s.len() - 1]));
    }
}

/// Extending a run of digits by one more digit.
proof fn lemma_digits_step(s: Seq<char>, a: int, i: int)
    requires
        0 <= a <= i < s.len(),
        all_digits(s.subrange(a, i)),
        is_digit(s[i]),
    ensures
        all_digits(s.subrange(a, i + 1)),
        digits_value(s.subrange(a, i + 1)) == digits_value(s.subrange(a, i)) * 10 + ((
        s[i] as u32) - 48),
        digits_value(s.subrange(a, i)) >= 0,
{
    let next = s.subrange(a, i + 1);
    assert(next.drop_last() =~= s.subrange(a, i));
    assert forall|k: int| 0 <= k < next.len() implies is_digit(#[trigger] next[k]) by {
        if k < i - a {
            assert(next[k] == s.subrange(a, i)[k]);
        }
    }
    lemma_digits_value_nonneg(s.subrange(a, i));
}

/// Parses `s` as an integer in `min..=max`, following `parse_integer`.
fn parse_integer_chars(s: &Vec<char>, min: i64, max: i64) -> (r: Option<i64>)
    requires
        -0x1_0000_0000 <= min <= 0 <= max <= 0x1_0000_0000,
    ensures
        r matches Some(v) ==> parse_integer(s@, min as int, max as int) == Some(v as int),
        r is None ==> parse_integer(s@, min as int, max as int) is None,
{
    let neg = s.len() > 0 && s[0] == '-' && min < 0;
    let start: usize = if s.len() > 0 && (s[0] == '+' || neg) {
        1
    } else {
        0
    };
    let ghost digits = s@.subrange(start as int, s@.len() as int);
    assert(digits =~= (if s@.len() > 0 && (s@[0] == '+' || neg) {
        s@.drop_first()
    } else {
        s@
    }));
    if start >= s.len() {
        return None;
    }
    let bound: i64 = if neg {
        -min
    } else {
        max
    };
    let mut acc: i64 = 0;
    let mut i: usize = start;
    assert(s@.subrange(start as int, start as int) =~= Seq::<char>::empty());
    while i < s.len()
        invariant
            start <= i <= s.len(),
            -0x1_0000_0000 <= min <= 0 <= max <= 0x1_0000_0000,
            neg == (s@.len() > 0 && s@[0] == '-' && min < 0),
            bound == (if neg {
                -min
            } else {
                max as int
            }),
            digits == s@.subrange(start as int, s@.len() as int),
            digits == (if s@.len() > 0 && (s@[0] == '+' || neg) {
                s@.drop_first()
            } else {
                s@
            }),
            0 <= bound <= 0x1_0000_0000,
            all_digits(s@.subrange(start as int, i as int)),
            digits_value(s@.subrange(start as int, i as int)) <= bound ==> acc == digits_value(
                s@.subrange(start as int, i as int),
            ),
            digits_value(s@.subrange(start as int, i as int)) > bound ==> acc == bound + 1,
            0 <= acc <= bound + 1,
        decreases s.len() - i,
    {
        let c = s[i];
        let cv = c as u32;
        if cv < 48 || cv > 57 {
            assert(digits[i - start] == c);
            assert(!is_digit(digits[i - start]));
            return None;
        }
        let ghost prev = digits_value(s@.subrange(start as int, i as int));
        proof {
            lemma_digits_step(s@, start as int, i as int);
        }
        let d: i64 = (cv - 48) as i64;
        if acc > bound {
            acc = bound + 1;
            assert(prev * 10 + d > bound) by (nonlinear_arith)
                requires
                    prev > bound,
                    bound >= 0,
                    d >= 0,
            ;
        } else {
            let v = acc * 10 + d;
            if v > bound {
                acc = bound + 1;
            } else {
                acc = v;
            }
        }
        i = i + 1;
    }
    assert(s@.subrange(start as int, s@.len() as int) =~= digits);
    proof {
        lemma_digits_value_nonneg(digits);
    }
    if acc > bound {
        None
    } else if neg {
        Some(-acc)
    } else {
        Some(acc)
    }
}

/// `s.parse::<i32>().ok()`, for the characters of `s`.
pub fn parse_i32_chars(s: &Vec<char>) -> (r: Option<i32>)
    ensures
        r matches Some(v) ==> parse_integer(s@, i32::MIN as int, i32::MAX as int) == Some(
            v as int,
        ),
        r is None ==> parse_integer(s@, i32::MIN as int, i32::MAX as int) is None,
{
    match parse_integer_chars(s, i32::MIN as i64, i32::MAX as i64) {
        Some(x) => Some(x as i32),
        None => None,
    }
}

/// `s.parse::<i32>().ok()`.
pub fn parse_i32(s: &str) -> (r: Option<i32>)
    ensures
        r matches Some(v) ==> parse_integer(s@, i32::MIN as int, i32::MAX as int) == Some(
            v as int,
        ),
        r is None ==> parse_integer(s@, i32::MIN as int, i32::MAX as int) is None,
{
    let v = chars_of(s);
    parse_i32_chars(&v)
}

/// `s.parse::<u8>().ok()`.
pub fn parse_u8(s: &str) -> (r: Option<u8>)
    ensures
        r matches Some(v) ==> parse_integer(s@, 0, 255) == Some(v as int),
        r is None ==> parse_integer(s@, 0, 255) is None,
{
    let v = chars_of(s);
    match parse_integer_chars(&v, 0, 255) {
        Some(x) => Some(x as u8),
        None => None,
    }
}

/// Whether `s` and `t` are the same text.
pub fn same_text(s: &str, t: &str) -> (r: bool)
    ensures
        r == (s@ == t@),
{
    let a = chars_of(s);
    let b = chars_of(t);
    if a.len() != b.len() {
        return false;
    }
    let mut i: usize = 0;
    while i < a.len()
        invariant
            a.len() == b.len(),
            a@ == s@,
            b@ == t@,
            i <= a.len(),
            forall|j: int| 0 <= j < i ==> a@[j] == b@[j],
        decreases a.len() - i,
    {
        if a[i] != b[i] {
            assert(s@[i as int] != t@[i as int]);
            return false;
        }
        i = i + 1;
    }
    assert(a@ =~= b@);
    true
}

/// A character with the Unicode White_Space property (`char::is_whitespace`):
/// U+0009 to U+000D, U+0020, U+0085, U+00A0, U+1680, U+2000 to U+200A,
/// U+2028, U+2029, U+202F, U+205F and U+3000.
pub open spec fn is_whitespace(c: char) -> bool {
    let v = c as u32;
    (9 <= v <= 13) || v == 0x20 || v == 0x85 || v == 0xA0 || v == 0x1680 || (0x2000 <= v
        <= 0x200A) || v == 0x2028 || v == 0x2029 || v == 0x202F || v == 0x205F || v == 0x3000
}

pub open spec fn trim_start_seq(s: Seq<char>) -> Seq<char>
    decreases s.len(),
{
    if s.len() > 0 && is_whitespace(s[0]) {
        trim_start_seq(s.drop_first())
    } else {
        s
    }
}

pub open spec fn trim_end_seq(s: Seq<char>) -> Seq<char>
    decreases s.len(),
{
    if s.len() > 0 && is_whitespace(s.last()) {
        trim_end_seq(s.drop_last())
    } else {
        s
    }
}

/// `s` without leading and trailing whitespace (`str::trim`).
pub open spec fn trim_seq(s: Seq<char>) -> Seq<char> {
    trim_end_seq(trim_start_seq(s))
}

proof fn lemma_trim_start_at(s: Seq<char>) -> (a: int)
    ensures
        0 <= a <= s.len(),
        trim_start_seq(s) == s.subrange(a, s.len() as int),
        forall|i: int| 0 <= i < a ==> is_whitespace(#[trigger] s[i]),
        a < s.len() ==> !is_whitespace(s[a]),
    decreases s.len(),
{
    if s.len() > 0 && is_whitespace(s[0]) {
        let t = s.drop_first();
        let a1 = lemma_trim_start_at(t);
        assert(t.subrange(a1, t.len() as int) =~= s.subrange(a1 + 1, s.len() as int));
        assert forall|i: int| 0 <= i < a1 + 1 implies is_whitespace(#[trigger] s[i]) by {
            if i > 0 {
                assert(s[i] == t[i - 1]);
            }
        }
        a1 + 1
    } else {
        assert(s.subrange(0, s.len() as int) =~= s);
        0
    }
}

proof fn lemma_trim_end_at(s: Seq<char>) -> (b: int)
    ensures
        0 <= b <= s.len(),
        trim_end_seq(s) == s.subrange(0, b),
        forall|i: int| b <= i < s.len() ==> is_whitespace(#[trigger] s[i]),
        b > 0 ==> !is_whitespace(s[b - 1]),
    decreases s.len(),
{
    if s.len() > 0 && is_whitespace(s.last()) {
        let t = s.drop_last();
        let b1 = lemma_trim_end_at(t);
        assert(t.subrange(0, b1) =~= s.subrange(0, b1));
        assert forall|i: int| b1 <= i < s.len() implies is_whitespace(#[trigger] s[i]) by {
            if i < s.len() - 1 {
                assert(s[i] == t[i]);
            }
        }
        b1
    } else {
        assert(s.subrange(0, s.len() as int) =~= s);
        s.len() as int
    }
}

/// Trimming keeps one stretch of the text, `s[a..b]`: everything cut off
/// before `a` and from `b` on is whitespace, and what is kept neither starts
/// nor ends with whitespace.
pub proof fn lemma_trim_keeps_middle(s: Seq<char>) -> (ab: (int, int))
    ensures
        0 <= ab.0 <= ab.1 <= s.len(),
        trim_seq(s) == s.subrange(ab.0, ab.1),
        forall|i: int| 0 <= i < ab.0 ==> is_whitespace(#[trigger] s[i]),
        forall|i: int| ab.1 <= i < s.len() ==> is_whitespace(#[trigger] s[i]),
        ab.0 < ab.1 ==> !is_whitespace(s[ab.0]) && !is_whitespace(s[ab.1 - 1]),
{
    let a = lemma_trim_start_at(s);
    let t = s.subrange(a, s.len() as int);
    let b = lemma_trim_end_at(t);
    assert(t.subrange(0, b) =~= s.subrange(a, a + b));
    assert forall|i: int| a + b <= i < s.len() implies is_whitespace(#[trigger] s[i]) by {
        assert(s[i] == t[i - a]);
    }
    if b > 0 {
        assert(s[a] == t[0]);
        assert(s[a + b - 1] == t[b - 1]);
    }
    (a, a + b)
}

fn is_whitespace_char(c: char) -> (r: bool)
    ensures
        r == is_whitespace(c),
{
    let v = c as u32;
    (9 <= v && v <= 13) || v == 0x20 || v == 0x85 || v == 0xA0 || v == 0x1680 || (0x2000 <= v
        && v <= 0x200A) || v == 0x2028 || v == 0x2029 || v == 0x202F || v == 0x205F || v == 0x3000
}

/// The characters of `s` without leading and trailing whitespace.
pub fn trimmed(s: &Vec<char>) -> (r: Vec<char>)
    ensures
        r@ == trim_seq(s@),
{
    let mut a: usize = 0;
    assert(s@.subrange(0, s@.len() as int) =~= s@);
    while a < s.len() && is_whitespace_char(s[a])
        invariant
            a <= s.len(),
            trim_start_seq(s@) == trim_start_seq(s@.subrange(a as int, s@.len() as int)),
        decreases s.len() - a,
    {
        assert(s@.subrange(a as int, s@.len() as int).drop_first() =~= s@.subrange(
            a + 1,
            s@.len() as int,
        ));
        a = a + 1;
    }
    assert(trim_start_seq(s@) == s@.subrange(a as int, s@.len() as int));
    let mut b: usize = s.len();
    assert(s@.subrange(a as int, b as int) =~= s@.subrange(a as int, s@.len() as int));
    while b > a && is_whitespace_char(s[b - 1])
        invariant
            a <= b <= s.len(),
            trim_seq(s@) == trim_end_seq(s@.subrange(a as int, b as int)),
        decreases b,
    {
        assert(s@.subrange(a as int, b as int).drop_last() =~= s@.subrange(a as int, b - 1));
        b = b - 1;
    }
    let mut r: Vec<char> = Vec::new();
    let mut k: usize = a;
    while k < b
        invariant
            a <= k <= b <= s.len(),
            r@ == s@.subrange(a as int, k as int),
        decreases b - k,
    {
        r.push(s[k]);
        k = k + 1;
        assert(r@ =~= s@.subrange(a as int, k as int));
    }
    r
}

/// Whether the characters `s` are the text `t`.
pub fn chars_equal(s: &Vec<char>, t: &str) -> (r: bool)
    ensures
        r == (s@ == t@),
{
    let b = chars_of(t);
    if s.len() != b.len() {
        return false;
    }
    let mut i: usize = 0;
    while i < s.len()
        invariant
            s.len() == b.len(),
            b@ == t@,
            i <= s.len(),
            forall|j: int| 0 <= j < i ==> s@[j] == b@[j],
        decreases s.len() - i,
    {
        if s[i] != b[i] {
            assert(s@[i as int] != t@[i as int]);
            return false;
        }
        i = i + 1;
    }
    assert(s@ =~= b@);
    true
}

} // verus!
