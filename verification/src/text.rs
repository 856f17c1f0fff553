//! Character-level helpers: digit classification, digit-string values, and
//! comparison and splitting of text fields.

use vstd::prelude::*;

verus! {

/// An ASCII decimal digit.
pub open spec fn is_digit(c: char) -> bool {
    48 <= c as u32 <= 57
}

/// The numeric value of one digit character.
pub open spec fn digit_val(c: char) -> int {
    c as u32 - 48
}

/// Every character of `s` is an ASCII decimal digit.
pub open spec fn all_digits(s: Seq<char>) -> bool {
    forall|i: int| 0 <= i < s.len() ==> is_digit(#[trigger] s[i])
}

/// The value of a digit string read in base ten, most significant first.
pub open spec fn digits_val(s: Seq<char>) -> int
    decreases s.len(),
{
    if s.len() == 0 {
        0
    } else {
        digits_val(s.drop_last()) * 10 + digit_val(s.last())
    }
}

/// A digit string's value is non-negative.
pub proof fn lemma_digits_val_nonneg(s: Seq<char>)
    requires
        all_digits(s),
    ensures
        digits_val(s) >= 0,
    decreases s.len(),
{
    if s.len() > 0 {
        assert(all_digits(s.drop_last()));
        lemma_digits_val_nonneg(s.drop_last());
    }
}

/// Extending a digit string never lowers its value.
pub proof fn lemma_digits_val_prefix(s: Seq<char>, i: int)
    requires
        all_digits(s),
        0 <= i <= s.len(),
    ensures
        digits_val(s.take(i)) <= digits_val(s),
    decreases s.len() - i,
{
    if i == s.len() {
        assert(s.take(i) =~= s);
    } else {
        lemma_digits_val_prefix(s, i + 1);
        assert(s.take(i + 1).drop_last() =~= s.take(i));
        assert(all_digits(s.take(i)));
        lemma_digits_val_nonneg(s.take(i));
        assert(digits_val(s.take(i + 1)) == digits_val(s.take(i)) * 10 + digit_val(s[i]));
    }
}

/// Reads a non-empty all-digit string as a `u64`.
///
/// Returns the base-ten value exactly when the text is one or more digits and
/// the value fits in a `u64`; anything else yields `None`.
pub fn parse_digits(s: &str) -> (r: Option<u64>)
    ensures
        r is Some <==> (s@.len() > 0 && all_digits(s@) && digits_val(s@) <= u64::MAX),
        r matches Some(v) ==> v == digits_val(s@),
{
    let n = s.unicode_len();
    if n == 0 {
        return None;
    }
    let mut i: usize = 0;
    let mut acc: u64 = 0;
    while i < n
        invariant
            0 <= i <= n,
            n == s@.len(),
            all_digits(s@.take(i as int)),
            acc == digits_val(s@.take(i as int)),
        decreases n - i,
    {
        let c = s.get_char(i);
        let u = c as u32;
        if u < 48 || u > 57 {
            assert(!is_digit(s@[i as int]));
            return None;
        }
        let d = (u - 48) as u64;
        proof {
            assert(s@.take(i + 1).drop_last() =~= s@.take(i as int));
            assert(s@.take(i + 1).last() == s@[i as int]);
            assert(forall|j: int| 0 <= j < i + 1 ==> is_digit(#[trigger] s@.take(i + 1)[j]));
        }
        if acc > (u64::MAX - d) / 10 {
            proof {
                let m = u64::MAX as int;
                let dd = d as int;
                let q = (m - dd) / 10;
                vstd::arithmetic::div_mod::lemma_fundamental_div_mod(m - dd, 10);
                assert(acc >= q + 1);
                vstd::arithmetic::mul::lemma_mul_inequality(q + 1, acc as int, 10);
                assert(acc * 10 + dd > m);
                assert(digits_val(s@.take(i + 1)) > u64::MAX);
                if all_digits(s@) {
                    lemma_digits_val_prefix(s@, i + 1);
                }
            }
            return None;
        }
        proof {
            let m = u64::MAX as int;
            let dd = d as int;
            vstd::arithmetic::div_mod::lemma_fundamental_div_mod(m - dd, 10);
            vstd::arithmetic::mul::lemma_mul_inequality(acc as int, (m - dd) / 10, 10);
        }
        acc = acc * 10 + d;
        i += 1;
    }
    proof {
        assert(s@.take(n as int) =~= s@);
    }
    Some(acc)
}

/// Whether two text slices hold the same characters.
pub fn str_eq(a: &str, b: &str) -> (r: bool)
    ensures
        r == (a@ == b@),
{
    let na = a.unicode_len();
    let nb = b.unicode_len();
    if na != nb {
        return false;
    }
    let mut i: usize = 0;
    while i < na
        invariant
            0 <= i <= na,
            na == a@.len(),
            na == b@.len(),
            forall|j: int| 0 <= j < i ==> a@[j] == b@[j],
        decreases na - i,
    {
        if a.get_char(i) != b.get_char(i) {
            assert(a@[i as int] != b@[i as int]);
            return false;
        }
        i += 1;
    }
    proof {
        assert(a@ =~= b@);
    }
    true
}

/// Relies on `String::push`: appends one character at the end.
#[verifier::external_body]
fn push_char(s: &mut String, c: char)
    ensures
        final(s)@ == old(s)@.push(c),
{
    s.push(c);
}

/// The comma-separated fields of `s`: splitting the empty text gives one
/// empty field, and every comma begins a further field.
pub open spec fn spec_split(s: Seq<char>) -> Seq<Seq<char>>
    decreases s.len(),
{
    if s.len() == 0 {
        seq![Seq::<char>::empty()]
    } else if s.last() == ',' {
        spec_split(s.drop_last()).push(Seq::<char>::empty())
    } else {
        let rest = spec_split(s.drop_last());
        rest.update(rest.len() - 1, rest.last().push(s.last()))
    }
}

/// Splitting always yields at least one field.
pub proof fn lemma_split_nonempty(s: Seq<char>)
    ensures
        spec_split(s).len() >= 1,
    decreases s.len(),
{
    if s.len() > 0 {
        lemma_split_nonempty(s.drop_last());
    }
}

/// Splits `s` at every comma, as [`spec_split`] describes.
pub fn split_commas(s: &str) -> (parts: Vec<String>)
    ensures
        parts@.map_values(|p: String| p@) == spec_split(s@),
{
    let n = s.unicode_len();
    let mut parts: Vec<String> = Vec::new();
    parts.push(String::new());
    proof {
        assert(s@.take(0) =~= Seq::<char>::empty());
        assert(parts@.map_values(|p: String| p@) =~= spec_split(s@.take(0)));
    }
    let mut i: usize = 0;
    while i < n
        invariant
            0 <= i <= n,
            n == s@.len(),
            parts@.len() >= 1,
            parts@.map_values(|p: String| p@) == spec_split(s@.take(i as int)),
        decreases n - i,
    {
        let c = s.get_char(i);
        proof {
            assert(s@.take(i + 1).drop_last() =~= s@.take(i as int));
            assert(s@.take(i + 1).last() == s@[i as int]);
            lemma_split_nonempty(s@.take(i as int));
        }
        if c == ',' {
            parts.push(String::new());
            proof {
                assert(parts@.map_values(|p: String| p@) =~= spec_split(s@.take(i + 1)));
            }
        } else {
            let last = parts.len() - 1;
            let mut field = parts.remove(last);
            push_char(&mut field, c);
            parts.push(field);
            proof {
                let prev = spec_split(s@.take(i as int));
                assert(parts@.map_values(|p: String| p@) =~= prev.update(
                    prev.len() - 1,
                    prev.last().push(s@[i as int]),
                ));
            }
        }
        i += 1;
    }
    proof {
        assert(s@.take(n as int) =~= s@);
    }
    parts
}

/// Whether every character of `s` is an ASCII decimal digit.
pub fn all_digits_exec(s: &str) -> (r: bool)
    ensures
        r == all_digits(s@),
{
    let n = s.unicode_len();
    let mut i: usize = 0;
    while i < n
        invariant
            0 <= i <= n,
            n == s@.len(),
            forall|j: int| 0 <= j < i ==> is_digit(#[trigger] s@[j]),
        decreases n - i,
    {
        let u = s.get_char(i) as u32;
        if u < 48 || u > 57 {
            assert(!is_digit(s@[i as int]));
            return false;
        }
        i += 1;
    }
    true
}

/// The index of the first `'.'` in `s`, or `s.len()` if there is none.
pub open spec fn first_dot(s: Seq<char>) -> int
    decreases s.len(),
{
    if s.len() == 0 {
        0
    } else if s[0] == '.' {
        0
    } else {
        1 + first_dot(s.drop_first())
    }
}

/// The characters of `s` before its first dot.
pub open spec fn int_part(s: Seq<char>) -> Seq<char> {
    s.take(first_dot(s))
}

/// The characters of `s` after its first dot, empty if there is no dot.
pub open spec fn frac_part(s: Seq<char>) -> Seq<char> {
    if first_dot(s) == s.len() {
        Seq::<char>::empty()
    } else {
        s.skip(first_dot(s) + 1)
    }
}

/// `first_dot` points at the first dot: nothing before it is a dot, and it
/// is a dot unless it is the end.
pub proof fn lemma_first_dot(s: Seq<char>)
    ensures
        0 <= first_dot(s) <= s.len(),
        forall|j: int| 0 <= j < first_dot(s) ==> s[j] != '.',
        first_dot(s) < s.len() ==> s[first_dot(s)] == '.',
    decreases s.len(),
{
    if s.len() > 0 && s[0] != '.' {
        lemma_first_dot(s.drop_first());
        assert(forall|j: int| 0 <= j < first_dot(s.drop_first()) ==> s.drop_first()[j] != '.');
        assert(forall|j: int| 1 <= j < first_dot(s) ==> s[j] == s.drop_first()[j - 1]);
    }
}

/// A plain unsigned decimal numeral: digits with at most one dot, and at
/// least one digit on one side of it.
pub open spec fn is_dec_string(s: Seq<char>) -> bool {
    &&& all_digits(int_part(s))
    &&& all_digits(frac_part(s))
    &&& int_part(s).len() + frac_part(s).len() > 0
}

/// The digit of `f` at position `i`, or zero past the end.
pub open spec fn digit_or0(f: Seq<char>, i: int) -> int {
    if 0 <= i < f.len() {
        digit_val(f[i])
    } else {
        0
    }
}

/// The fractional digits of `f` scaled to four places (truncating beyond).
pub open spec fn frac_e4(f: Seq<char>) -> int {
    digit_or0(f, 0) * 1000 + digit_or0(f, 1) * 100 + digit_or0(f, 2) * 10 + digit_or0(f, 3)
}

/// The fractional digits of `f` scaled to three places (truncating beyond).
pub open spec fn frac_e3(f: Seq<char>) -> int {
    digit_or0(f, 0) * 100 + digit_or0(f, 1) * 10 + digit_or0(f, 2)
}

/// The value of the decimal numeral `s` times ten thousand, truncated to an
/// integer.
pub open spec fn dec_e4(s: Seq<char>) -> int {
    digits_val(int_part(s)) * 10000 + frac_e4(frac_part(s))
}

/// The value of the decimal numeral `s` times one thousand, truncated to an
/// integer.
pub open spec fn dec_e3(s: Seq<char>) -> int {
    digits_val(int_part(s)) * 1000 + frac_e3(frac_part(s))
}

/// A well-formed decimal numeral scales to a non-negative value.
pub proof fn lemma_dec_e4_nonneg(s: Seq<char>)
    requires
        is_dec_string(s),
    ensures
        dec_e4(s) >= 0,
{
    lemma_digits_val_nonneg(int_part(s));
    vstd::arithmetic::mul::lemma_mul_inequality(0, digits_val(int_part(s)), 10000);
}

/// A well-formed decimal numeral scales to a non-negative value.
pub proof fn lemma_dec_e3_nonneg(s: Seq<char>)
    requires
        is_dec_string(s),
    ensures
        dec_e3(s) >= 0,
{
    lemma_digits_val_nonneg(int_part(s));
    vstd::arithmetic::mul::lemma_mul_inequality(0, digits_val(int_part(s)), 1000);
}

/// Splits `s` at its first dot, returning the integer and fractional texts.
fn split_at_dot<'a>(s: &'a str) -> (r: (&'a str, &'a str))
    ensures
        r.0@ == int_part(s@),
        r.1@ == frac_part(s@),
{
    proof {
        lemma_first_dot(s@);
    }
    let n = s.unicode_len();
    let mut i: usize = 0;
    while i < n && s.get_char(i) != '.'
        invariant
            0 <= i <= n,
            n == s@.len(),
            forall|j: int| 0 <= j < i ==> s@[j] != '.',
        decreases n - i,
    {
        i += 1;
    }
    proof {
        if i < n {
            assert(s@[i as int] == '.');
        }
        // both i and first_dot satisfy the characterization, so they agree
        if i < first_dot(s@) {
            assert(s@[i as int] != '.');
        }
        if first_dot(s@) < i {
            assert(s@[first_dot(s@)] == '.');
        }
        assert(i == first_dot(s@));
    }
    let head = s.substring_char(0, i);
    let tail = if i < n {
        s.substring_char(i + 1, n)
    } else {
        proof {
            assert(frac_part(s@) =~= Seq::<char>::empty());
        }
        ""
    };
    proof {
        assert(head@ =~= int_part(s@));
        if i < n {
            assert(tail@ =~= frac_part(s@));
        } else {
            reveal_strlit("");
            assert(tail@ =~= frac_part(s@));
        }
    }
    (head, tail)
}

/// Reads up to the first four characters of an all-digit text as four
/// zero-padded fractional places.
fn frac_e4_exec(f: &str) -> (r: u64)
    requires
        all_digits(f@),
    ensures
        r == frac_e4(f@),
{
    let n = f.unicode_len();
    let d0: u64 = if n > 0 { (f.get_char(0) as u32 - 48) as u64 } else { 0 };
    let d1: u64 = if n > 1 { (f.get_char(1) as u32 - 48) as u64 } else { 0 };
    let d2: u64 = if n > 2 { (f.get_char(2) as u32 - 48) as u64 } else { 0 };
    let d3: u64 = if n > 3 { (f.get_char(3) as u32 - 48) as u64 } else { 0 };
    d0 * 1000 + d1 * 100 + d2 * 10 + d3
}

/// Reads up to the first three characters of an all-digit text as three
/// zero-padded fractional places.
fn frac_e3_exec(f: &str) -> (r: u64)
    requires
        all_digits(f@),
    ensures
        r == frac_e3(f@),
{
    let n = f.unicode_len();
    let d0: u64 = if n > 0 { (f.get_char(0) as u32 - 48) as u64 } else { 0 };
    let d1: u64 = if n > 1 { (f.get_char(1) as u32 - 48) as u64 } else { 0 };
    let d2: u64 = if n > 2 { (f.get_char(2) as u32 - 48) as u64 } else { 0 };
    d0 * 100 + d1 * 10 + d2
}

/// Reads a decimal numeral scaled by ten thousand, refusing values whose
/// scaled form exceeds `cap`.
pub fn parse_dec_e4(s: &str, cap: u64) -> (r: Option<u64>)
    requires
        cap <= 0x4000_0000_0000_0000,
    ensures
        r is Some <==> (is_dec_string(s@) && dec_e4(s@) <= cap),
        r matches Some(v) ==> v == dec_e4(s@),
{
    let (head, tail) = split_at_dot(s);
    if !all_digits_exec(head) || !all_digits_exec(tail) {
        return None;
    }
    if head.unicode_len() == 0 && tail.unicode_len() == 0 {
        return None;
    }
    proof {
        lemma_digits_val_nonneg(int_part(s@));
    }
    let intval: u64 = if head.unicode_len() == 0 {
        0
    } else {
        match parse_digits(head) {
            Some(v) => v,
            None => {
                // the integer part alone already exceeds any admitted cap
                return None;
            },
        }
    };
    if intval > cap / 10000 {
        proof {
            vstd::arithmetic::div_mod::lemma_fundamental_div_mod(cap as int, 10000);
            vstd::arithmetic::mul::lemma_mul_inequality(
                cap as int / 10000 + 1,
                intval as int,
                10000,
            );
        }
        return None;
    }
    proof {
        vstd::arithmetic::div_mod::lemma_fundamental_div_mod(cap as int, 10000);
        vstd::arithmetic::mul::lemma_mul_inequality(intval as int, cap as int / 10000, 10000);
    }
    let v = intval * 10000 + frac_e4_exec(tail);
    if v > cap {
        return None;
    }
    Some(v)
}

/// Reads a decimal numeral scaled by one thousand, refusing values whose
/// scaled form exceeds `cap`.
pub fn parse_dec_e3(s: &str, cap: u64) -> (r: Option<u64>)
    requires
        cap <= 0x4000_0000_0000_0000,
    ensures
        r is Some <==> (is_dec_string(s@) && dec_e3(s@) <= cap),
        r matches Some(v) ==> v == dec_e3(s@),
{
    let (head, tail) = split_at_dot(s);
    if !all_digits_exec(head) || !all_digits_exec(tail) {
        return None;
    }
    if head.unicode_len() == 0 && tail.unicode_len() == 0 {
        return None;
    }
    proof {
        lemma_digits_val_nonneg(int_part(s@));
    }
    let intval: u64 = if head.unicode_len() == 0 {
        0
    } else {
        match parse_digits(head) {
            Some(v) => v,
            None => {
                // the integer part alone already exceeds any admitted cap
                return None;
            },
        }
    };
    if intval > cap / 1000 {
        proof {
            vstd::arithmetic::div_mod::lemma_fundamental_div_mod(cap as int, 1000);
            vstd::arithmetic::mul::lemma_mul_inequality(
                cap as int / 1000 + 1,
                intval as int,
                1000,
            );
        }
        return None;
    }
    proof {
        vstd::arithmetic::div_mod::lemma_fundamental_div_mod(cap as int, 1000);
        vstd::arithmetic::mul::lemma_mul_inequality(intval as int, cap as int / 1000, 1000);
    }
    let v = intval * 1000 + frac_e3_exec(tail);
    if v > cap {
        return None;
    }
    Some(v)
}

/// `s` with every trailing `'#'` removed.
pub open spec fn spec_trim_hashes(s: Seq<char>) -> Seq<char>
    decreases s.len(),
{
    if s.len() > 0 && s.last() == '#' {
        spec_trim_hashes(s.drop_last())
    } else {
        s
    }
}

/// A prefix that ends at the first of an unbroken run of trailing hashes is
/// exactly the trimmed text.
pub proof fn lemma_trim_hashes_take(s: Seq<char>, k: int)
    requires
        0 <= k <= s.len(),
        forall|j: int| k <= j < s.len() ==> s[j] == '#',
        k > 0 ==> s[k - 1] != '#',
    ensures
        spec_trim_hashes(s) == s.take(k),
    decreases s.len() - k,
{
    if k == s.len() {
        assert(s.take(k) =~= s);
        if s.len() > 0 {
            assert(s.last() == s[k - 1]);
        }
    } else {
        assert(s.last() == '#');
        assert(s.drop_last() =~= s.take(s.len() - 1));
        lemma_trim_hashes_take(s.take(s.len() - 1), k);
        assert(s.take(s.len() - 1).take(k) =~= s.take(k));
    }
}

} // verus!

