//! Character-sequence specifications and verified string helpers used
//! throughout the harness: substring search, line splitting, trimming,
//! and decimal/hexadecimal conversions.

use vstd::prelude::*;
use vstd::string::StrSliceExecFns;

verus! {

/// The characters of `m` occur in `s` starting at position `i`.
pub open spec fn matches_at(s: Seq<char>, m: Seq<char>, i: int) -> bool {
    0 <= i && i + m.len() <= s.len() && s.subrange(i, i + m.len()) == m
}

/// `m` occurs somewhere in `s`.
pub open spec fn contains_seq(s: Seq<char>, m: Seq<char>) -> bool {
    exists|i: int| matches_at(s, m, i)
}

/// Whether the characters of `m` occur in `s` starting at position `i`.
pub fn check_match_at(s: &str, m: &str, i: usize) -> (r: bool)
    requires
        i + m@.len() <= s@.len(),
    ensures
        r == matches_at(s@, m@, i as int),
{
    let s_len = s.unicode_len();
    let m_len = m.unicode_len();
    let mut j: usize = 0;
    while j < m_len
        invariant
            j <= m_len,
            s_len == s@.len(),
            m_len == m@.len(),
            i + m@.len() <= s@.len(),
            forall|k: int| 0 <= k < j ==> s@[i + k] == m@[k],
        decreases m_len - j,
    {
        if s.get_char(i + j) != m.get_char(j) {
            assert(s@.subrange(i as int, i + m@.len()) != m@) by {
                assert(s@.subrange(i as int, i + m@.len())[j as int] != m@[j as int]);
            }
            return false;
        }
        j = j + 1;
    }
    assert(s@.subrange(i as int, i + m@.len()) =~= m@);
    true
}

/// Substring search: true for any substring match.
pub fn contains_str(s: &str, m: &str) -> (r: bool)
    ensures
        r == contains_seq(s@, m@),
{
    let s_len = s.unicode_len();
    let m_len = m.unicode_len();
    if m_len > s_len {
        assert(!contains_seq(s@, m@));
        return false;
    }
    if m_len == 0 {
        assert(matches_at(s@, m@, 0)) by {
            assert(s@.subrange(0, 0) =~= m@);
        }
        return true;
    }
    let mut i: usize = 0;
    while i <= s_len - m_len
        invariant
            0 < m_len <= s_len,
            s_len == s@.len(),
            m_len == m@.len(),
            i <= s_len - m_len + 1,
            forall|k: int| 0 <= k < i ==> !matches_at(s@, m@, k),
        decreases s_len + 1 - m_len - i,
    {
        if check_match_at(s, m, i) {
            return true;
        }
        i = i + 1;
    }
    assert forall|k: int| !matches_at(s@, m@, k) by {
        if 0 <= k && k + m@.len() <= s@.len() {
            assert(k < i);
        }
    }
    false
}

/// The pieces of `s` split at newline characters, as `str::split('\n')`
/// yields them: splitting the empty sequence gives one empty piece, and a
/// trailing newline contributes a final empty piece.
pub open spec fn split_lines(s: Seq<char>) -> Seq<Seq<char>>
    decreases s.len(),
{
    if s.len() == 0 {
        seq![Seq::<char>::empty()]
    } else if s[0] == '\n' {
        seq![Seq::<char>::empty()].add(split_lines(s.drop_first()))
    } else {
        let rest = split_lines(s.drop_first());
        seq![seq![s[0]].add(rest[0])].add(rest.drop_first())
    }
}

pub proof fn lemma_split_lines_nonempty(s: Seq<char>)
    ensures
        split_lines(s).len() >= 1,
    decreases s.len(),
{
    if s.len() == 0 {
    } else {
        lemma_split_lines_nonempty(s.drop_first());
    }
}

/// Split a string at newline characters.
pub fn split_lines_exec(s: &str) -> (r: Vec<String>)
    ensures
        r.deep_view() == split_lines(s@),
{
    let s_len = s.unicode_len();
    let mut out: Vec<String> = Vec::new();
    let mut cur: String = String::new();
    let mut i: usize = 0;
    proof {
        lemma_split_lines_nonempty(s@);
        assert(s@.skip(0) =~= s@);
        assert(split_lines(s@) =~~= out.deep_view().add(
            seq![cur@.add(split_lines(s@.skip(0))[0])].add(split_lines(s@.skip(0)).drop_first()),
        ));
    }
    while i < s_len
        invariant
            i <= s_len,
            s_len == s@.len(),
            split_lines(s@.skip(i as int)).len() >= 1,
            split_lines(s@) == out.deep_view().add(
                seq![cur@.add(split_lines(s@.skip(i as int))[0])].add(
                    split_lines(s@.skip(i as int)).drop_first(),
                ),
            ),
        decreases s_len - i,
    {
        proof {
            assert(s@.skip(i as int).drop_first() =~= s@.skip(i + 1));
            lemma_split_lines_nonempty(s@.skip(i + 1));
            assert(s@.skip(i as int)[0] == s@[i as int]);
        }
        let ghost prev = split_lines(s@.skip(i as int));
        let ghost rest = split_lines(s@.skip(i + 1));
        let c_slice = s.substring_char(i, i + 1);
        assert(c_slice@ =~= seq![s@[i as int]]);
        if s.get_char(i) == '\n' {
            proof {
                assert(prev =~= seq![Seq::<char>::empty()].add(rest));
                assert(prev[0] =~= Seq::<char>::empty());
                assert(prev.drop_first() =~= rest);
                assert(cur@.add(prev[0]) =~= cur@);
            }
            out.push(cur);
            cur = String::new();
            proof {
                assert(cur@.add(rest[0]) =~= rest[0]);
                assert(split_lines(s@) =~~= out.deep_view().add(
                    seq![cur@.add(rest[0])].add(rest.drop_first()),
                ));
            }
        } else {
            let ghost old_cur = cur@;
            cur.append(c_slice);
            proof {
                assert(prev =~= seq![seq![s@[i as int]].add(rest[0])].add(rest.drop_first()));
                assert(prev[0] =~= seq![s@[i as int]].add(rest[0]));
                assert(prev.drop_first() =~= rest.drop_first());
                assert(cur@.add(rest[0]) =~= old_cur.add(prev[0]));
                assert(split_lines(s@) =~~= out.deep_view().add(
                    seq![cur@.add(rest[0])].add(rest.drop_first()),
                ));
            }
        }
        i = i + 1;
    }
    proof {
        assert(s@.skip(s_len as int) =~= Seq::<char>::empty());
        assert(cur@.add(split_lines(s@.skip(s_len as int))[0]) =~= cur@);
        assert(split_lines(s@.skip(s_len as int)).drop_first() =~= Seq::<Seq<char>>::empty());
    }
    out.push(cur);
    proof {
        assert(out.deep_view() =~~= split_lines(s@));
    }
    out
}

/// An ASCII whitespace character, as trimming treats them.
pub open spec fn is_ascii_space(c: char) -> bool {
    c == ' ' || c == '\t' || c == '\n' || c == '\r'
}

/// `s` with trailing ASCII whitespace removed.
pub open spec fn trim_end_spec(s: Seq<char>) -> Seq<char>
    decreases s.len(),
{
    if s.len() == 0 {
        s
    } else if is_ascii_space(s[s.len() - 1]) {
        trim_end_spec(s.drop_last())
    } else {
        s
    }
}

proof fn lemma_trim_end_prefix(s: Seq<char>, k: int)
    requires
        0 <= k <= s.len(),
        forall|j: int| k <= j < s.len() ==> is_ascii_space(s[j]),
        k == 0 || !is_ascii_space(s[k - 1]),
    ensures
        trim_end_spec(s) =~= s.take(k),
    decreases s.len(),
{
    if s.len() == k {
        if k == 0 {
        } else {
            assert(s.take(k) =~= s);
        }
    } else {
        lemma_trim_end_prefix(s.drop_last(), k);
        assert(s.drop_last().take(k) =~= s.take(k));
    }
}

/// Whether `c` is an ASCII whitespace character.
pub fn is_space_char(c: char) -> (r: bool)
    ensures
        r == is_ascii_space(c),
{
    c == ' ' || c == '\t' || c == '\n' || c == '\r'
}

/// `s` without its trailing ASCII whitespace.
pub fn trim_end_ascii(s: &str) -> (r: &str)
    ensures
        r@ == trim_end_spec(s@),
{
    let s_len = s.unicode_len();
    let mut k: usize = s_len;
    while k > 0 && is_space_char(s.get_char(k - 1))
        invariant
            k <= s_len,
            s_len == s@.len(),
            forall|j: int| k <= j < s@.len() ==> is_ascii_space(s@[j]),
        decreases k,
    {
        k = k - 1;
    }
    proof {
        lemma_trim_end_prefix(s@, k as int);
        assert(s@.take(k as int) =~= s@.subrange(0, k as int));
    }
    s.substring_char(0, k)
}

/// Two string slices hold the same characters.
pub fn str_eq(a: &str, b: &str) -> (r: bool)
    ensures
        r == (a@ == b@),
{
    let a_len = a.unicode_len();
    let b_len = b.unicode_len();
    if a_len != b_len {
        return false;
    }
    let mut i: usize = 0;
    while i < a_len
        invariant
            i <= a_len,
            a_len == a@.len(),
            a_len == b@.len(),
            forall|k: int| 0 <= k < i ==> a@[k] == b@[k],
        decreases a_len - i,
    {
        if a.get_char(i) != b.get_char(i) {
            assert(a@ != b@);
            return false;
        }
        i = i + 1;
    }
    assert(a@ =~= b@);
    true
}

/// The index of the first occurrence of `c` in `s`, or -1 when absent.
pub open spec fn index_of_char(s: Seq<char>, c: char) -> int
    decreases s.len(),
{
    if s.len() == 0 {
        -1
    } else if s[0] == c {
        0
    } else {
        let r = index_of_char(s.drop_first(), c);
        if r == -1 {
            -1
        } else {
            r + 1
        }
    }
}

pub proof fn lemma_index_of_char_props(s: Seq<char>, c: char)
    ensures
        index_of_char(s, c) == -1 ==> forall|i: int| 0 <= i < s.len() ==> s[i] != c,
        index_of_char(s, c) != -1 ==> 0 <= index_of_char(s, c) < s.len() && s[index_of_char(
            s,
            c,
        )] == c && forall|i: int| 0 <= i < index_of_char(s, c) ==> s[i] != c,
    decreases s.len(),
{
    if s.len() == 0 {
    } else if s[0] == c {
    } else {
        let t = s.drop_first();
        lemma_index_of_char_props(t, c);
        let r = index_of_char(t, c);
        if r == -1 {
            assert forall|i: int| 0 <= i < s.len() implies s[i] != c by {
                if i > 0 {
                    assert(s[i] == t[i - 1]);
                }
            }
        } else {
            assert(s[r + 1] == t[r]);
            assert forall|i: int| 0 <= i < r + 1 implies s[i] != c by {
                if i > 0 {
                    assert(s[i] == t[i - 1]);
                }
            }
        }
    }
}

/// In a concatenation whose first part lacks `c` and whose second part
/// starts with `c`, the first occurrence of `c` is right after the first
/// part.
pub proof fn lemma_index_of_concat(a: Seq<char>, b: Seq<char>, c: char)
    requires
        forall|i: int| 0 <= i < a.len() ==> a[i] != c,
        b.len() > 0,
        b[0] == c,
    ensures
        index_of_char(a.add(b), c) == a.len(),
    decreases a.len(),
{
    if a.len() == 0 {
        assert(a.add(b) =~= b);
    } else {
        lemma_index_of_concat(a.drop_first(), b, c);
        assert(a.add(b).drop_first() =~= a.drop_first().add(b));
        assert(a.add(b)[0] == a[0]);
    }
}

/// Splitting a concatenation at a newline that follows a newline-free
/// prefix yields the prefix as the first line.
pub proof fn lemma_split_concat(a: Seq<char>, b: Seq<char>)
    requires
        forall|i: int| 0 <= i < a.len() ==> a[i] != '\n',
    ensures
        split_lines(a.add(seq!['\n']).add(b)) == seq![a].add(split_lines(b)),
    decreases a.len(),
{
    let s = a.add(seq!['\n']).add(b);
    if a.len() == 0 {
        assert(s.drop_first() =~= b);
        assert(s[0] == '\n');
        assert(a =~= Seq::<char>::empty());
        assert(split_lines(s) =~= seq![a].add(split_lines(b)));
    } else {
        lemma_split_concat(a.drop_first(), b);
        assert(s[0] == a[0]);
        assert(s[0] != '\n');
        assert(s.drop_first() =~= a.drop_first().add(seq!['\n']).add(b));
        let rest = split_lines(s.drop_first());
        assert(rest == seq![a.drop_first()].add(split_lines(b)));
        assert(rest[0] == a.drop_first());
        lemma_split_lines_nonempty(b);
        assert(rest.drop_first() =~= split_lines(b));
        assert(seq![s[0]].add(rest[0]) =~= a);
        assert(split_lines(s) =~= seq![a].add(split_lines(b)));
    }
}

/// The index of the first occurrence of `c` in `s`, when there is one.
pub fn find_char(s: &str, c: char) -> (r: Option<usize>)
    ensures
        r is Some <==> index_of_char(s@, c) >= 0,
        r is Some ==> r->0 as int == index_of_char(s@, c),
{
    let s_len = s.unicode_len();
    let mut i: usize = 0;
    while i < s_len
        invariant
            i <= s_len,
            s_len == s@.len(),
            forall|k: int| 0 <= k < i ==> s@[k] != c,
        decreases s_len - i,
    {
        if s.get_char(i) == c {
            proof {
                lemma_index_of_char_props(s@, c);
                if index_of_char(s@, c) == -1 {
                    assert(s@[i as int] != c);
                }
            }
            return Some(i);
        }
        i = i + 1;
    }
    proof {
        lemma_index_of_char_props(s@, c);
        if index_of_char(s@, c) != -1 {
            assert(s@[index_of_char(s@, c)] != c);
        }
    }
    None
}

/// Whether `c` is a decimal digit.
pub open spec fn is_dec_digit(c: char) -> bool {
    48 <= c as u32 <= 57
}

/// The numeric value of a decimal digit.
pub open spec fn dec_val(c: char) -> nat {
    (c as u32 - 48) as nat
}

/// Every character of `s` is a decimal digit.
pub open spec fn all_dec_digits(s: Seq<char>) -> bool {
    forall|i: int| 0 <= i < s.len() ==> is_dec_digit(#[trigger] s[i])
}

/// The value of a sequence of decimal digits, most significant first.
pub open spec fn dec_digits_val(s: Seq<char>) -> nat
    decreases s.len(),
{
    if s.len() == 0 {
        0
    } else {
        dec_digits_val(s.drop_last()) * 10 + dec_val(s.last())
    }
}

proof fn lemma_dec_digits_val_step(s: Seq<char>, j: int)
    requires
        0 <= j < s.len(),
    ensures
        dec_digits_val(s.take(j + 1)) == dec_digits_val(s.take(j)) * 10 + dec_val(s[j]),
{
    assert(s.take(j + 1).drop_last() =~= s.take(j));
    assert(s.take(j + 1).last() == s[j]);
}

proof fn lemma_dec_digits_val_monotone(s: Seq<char>, j: int, k: int)
    requires
        0 <= j <= k <= s.len(),
    ensures
        dec_digits_val(s.take(j)) <= dec_digits_val(s.take(k)),
    decreases k - j,
{
    if j < k {
        lemma_dec_digits_val_monotone(s, j, k - 1);
        lemma_dec_digits_val_step(s, k - 1);
    }
}

/// A decimal integer as this harness reads one: an optional minus sign,
/// then one or more digits, the value fitting in an `i64`.
pub open spec fn is_valid_i64_string(s: Seq<char>) -> bool {
    if s.len() > 0 && s[0] == '-' {
        s.len() >= 2 && all_dec_digits(s.skip(1)) && dec_digits_val(s.skip(1))
            <= 0x8000_0000_0000_0000
    } else {
        s.len() >= 1 && all_dec_digits(s) && dec_digits_val(s) <= 0x7fff_ffff_ffff_ffff
    }
}

/// The value of a valid decimal integer string.
pub open spec fn i64_string_val(s: Seq<char>) -> int {
    if s.len() > 0 && s[0] == '-' {
        -(dec_digits_val(s.skip(1)) as int)
    } else {
        dec_digits_val(s) as int
    }
}

/// Accumulate the value of a digit run, reporting whether every character
/// is a digit and the value stays within `limit`.
fn dec_digits_value(s: &str, start: usize, limit: u64) -> (r: Option<u64>)
    requires
        start <= s@.len(),
    ensures
        r is Some <==> (all_dec_digits(s@.skip(start as int)) && dec_digits_val(
            s@.skip(start as int),
        ) <= limit),
        r is Some ==> r->0 == dec_digits_val(s@.skip(start as int)),
{
    let s_len = s.unicode_len();
    let limit_div = limit / 10;
    let limit_rem = limit % 10;
    let ghost digits = s@.skip(start as int);
    let mut acc: u64 = 0;
    let mut i: usize = start;
    while i < s_len
        invariant
            start <= i <= s_len,
            s_len == s@.len(),
            digits == s@.skip(start as int),
            limit_div == limit / 10,
            limit_rem == limit % 10,
            all_dec_digits(digits.take(i - start)),
            acc == dec_digits_val(digits.take(i - start)),
            acc <= limit,
        decreases s_len - i,
    {
        let c = s.get_char(i);
        let cv = c as u32;
        proof {
            assert(digits[i - start] == s@[i as int]);
        }
        if cv < 48 || cv > 57 {
            assert(!all_dec_digits(digits));
            return None;
        }
        let d = (cv - 48) as u64;
        proof {
            lemma_dec_digits_val_step(digits, i - start);
        }
        if acc > limit_div || (acc == limit_div && d > limit_rem) {
            proof {
                assert(limit == limit_div * 10 + limit_rem);
                assert(dec_digits_val(digits.take(i - start + 1)) == acc * 10 + d);
                assert(acc * 10 + d > limit);
                lemma_dec_digits_val_monotone(digits, i - start + 1, digits.len() as int);
                assert(digits.take(digits.len() as int) =~= digits);
            }
            return None;
        }
        proof {
            assert(limit == limit_div * 10 + limit_rem);
            assert(acc * 10 + d <= limit);
        }
        acc = acc * 10 + d;
        i = i + 1;
    }
    proof {
        assert(digits.take(digits.len() as int) =~= digits);
    }
    Some(acc)
}

/// Parse a decimal integer: an optional minus sign and one or more digits.
pub fn parse_i64(s: &str) -> (r: Option<i64>)
    ensures
        r is Some <==> is_valid_i64_string(s@),
        r is Some ==> r->0 as int == i64_string_val(s@),
{
    let s_len = s.unicode_len();
    if s_len == 0 {
        return None;
    }
    if s.get_char(0) == '-' {
        if s_len == 1 {
            return None;
        }
        match dec_digits_value(s, 1, 0x8000_0000_0000_0000) {
            Some(mag) => {
                if mag == 0x8000_0000_0000_0000 {
                    Some(i64::MIN)
                } else {
                    Some(-(mag as i64))
                }
            },
            None => None,
        }
    } else {
        match dec_digits_value(s, 0, 0x7fff_ffff_ffff_ffff) {
            Some(mag) => {
                proof {
                    assert(s@.skip(0) =~= s@);
                }
                Some(mag as i64)
            },
            None => None,
        }
    }
}

/// Whether `c` is a lowercase hexadecimal digit.
pub open spec fn is_hex_digit(c: char) -> bool {
    (48 <= c as u32 <= 57) || (97 <= c as u32 <= 102)
}

/// The numeric value of a lowercase hexadecimal digit.
pub open spec fn hex_val(c: char) -> nat {
    if 48 <= c as u32 <= 57 {
        (c as u32 - 48) as nat
    } else {
        (c as u32 - 87) as nat
    }
}

/// Every character of `s` is a lowercase hexadecimal digit.
pub open spec fn all_hex_digits(s: Seq<char>) -> bool {
    forall|i: int| 0 <= i < s.len() ==> is_hex_digit(#[trigger] s[i])
}

/// The value of a sequence of hexadecimal digits, most significant first.
pub open spec fn hex_digits_val(s: Seq<char>) -> nat
    decreases s.len(),
{
    if s.len() == 0 {
        0
    } else {
        hex_digits_val(s.drop_last()) * 16 + hex_val(s.last())
    }
}

/// The lowercase hexadecimal digit for a value below sixteen.
pub open spec fn hex_char(d: nat) -> char {
    if d < 10 {
        (d + 48) as char
    } else {
        (d + 87) as char
    }
}

/// The uppercase hexadecimal digit for a value below sixteen.
pub open spec fn hex_char_upper(d: nat) -> char {
    if d < 10 {
        (d + 48) as char
    } else {
        (d + 55) as char
    }
}

/// The lowercase hexadecimal rendering of `n`, without a prefix and
/// without leading zeros (a single zero for zero itself).
pub open spec fn hex_seq(n: nat) -> Seq<char>
    decreases n,
{
    if n < 16 {
        seq![hex_char(n)]
    } else {
        hex_seq(n / 16).push(hex_char(n % 16))
    }
}

/// The uppercase hexadecimal rendering of `n`.
pub open spec fn hex_seq_upper(n: nat) -> Seq<char>
    decreases n,
{
    if n < 16 {
        seq![hex_char_upper(n)]
    } else {
        hex_seq_upper(n / 16).push(hex_char_upper(n % 16))
    }
}

/// Rendering a number in lowercase hexadecimal yields only hexadecimal
/// digits, and reading them back yields the number.
pub proof fn lemma_hex_roundtrip(n: nat)
    ensures
        hex_seq(n).len() >= 1,
        all_hex_digits(hex_seq(n)),
        hex_digits_val(hex_seq(n)) == n,
    decreases n,
{
    if n < 16 {
        assert(hex_digits_val(Seq::<char>::empty()) == 0);
        assert(hex_seq(n) =~= seq![hex_char(n)]);
        assert(hex_seq(n).drop_last() =~= Seq::<char>::empty());
        assert(hex_char(n) as u32 == if n < 10 { n + 48 } else { n + 87 });
        assert(hex_val(hex_char(n)) == n);
    } else {
        lemma_hex_roundtrip(n / 16);
        let prefix = hex_seq(n / 16);
        let whole = hex_seq(n);
        assert(whole =~= prefix.push(hex_char(n % 16)));
        assert(whole.drop_last() =~= prefix);
        assert(whole.last() == hex_char(n % 16));
        assert(hex_val(hex_char(n % 16)) == n % 16);
        assert(hex_digits_val(whole) == (n / 16) * 16 + n % 16);
        assert((n / 16) * 16 + n % 16 == n) by {
            vstd::arithmetic::div_mod::lemma_fundamental_div_mod(n as int, 16);
        }
        assert forall|i: int| 0 <= i < whole.len() implies is_hex_digit(#[trigger] whole[i]) by {
            if i < prefix.len() {
                assert(whole[i] == prefix[i]);
            }
        }
    }
}

/// Leading zeros do not change the value of a hexadecimal digit string.
pub proof fn lemma_hex_leading_zeros(z: Seq<char>, t: Seq<char>)
    requires
        forall|i: int| 0 <= i < z.len() ==> z[i] == '0',
    ensures
        hex_digits_val(z.add(t)) == hex_digits_val(t),
        all_hex_digits(z.add(t)) == all_hex_digits(t),
    decreases t.len(),
{
    if t.len() == 0 {
        assert(z.add(t) =~= z);
        lemma_hex_zeros_val(z);
        assert(all_hex_digits(z.add(t)));
        assert(all_hex_digits(t));
    } else {
        lemma_hex_leading_zeros(z, t.drop_last());
        assert(z.add(t).drop_last() =~= z.add(t.drop_last()));
        assert(z.add(t).last() == t.last());
        assert(all_hex_digits(z.add(t)) == all_hex_digits(t)) by {
            if all_hex_digits(t) {
                assert forall|i: int| 0 <= i < z.add(t).len() implies is_hex_digit(
                    #[trigger] z.add(t)[i],
                ) by {
                    if i < z.len() {
                        assert(z.add(t)[i] == '0');
                    } else {
                        assert(z.add(t)[i] == t[i - z.len()]);
                    }
                }
            } else {
                let i = choose|i: int| 0 <= i < t.len() && !is_hex_digit(#[trigger] t[i]);
                assert(z.add(t)[z.len() + i] == t[i]);
            }
        }
    }
}

proof fn lemma_hex_zeros_val(z: Seq<char>)
    requires
        forall|i: int| 0 <= i < z.len() ==> z[i] == '0',
    ensures
        hex_digits_val(z) == 0,
        all_hex_digits(z),
    decreases z.len(),
{
    if z.len() > 0 {
        lemma_hex_zeros_val(z.drop_last());
    }
}

/// Render `n` as lowercase hexadecimal digits.
pub fn to_hex(n: u64) -> (r: String)
    ensures
        r@ == hex_seq(n as nat),
    decreases n,
{
    let table = "0123456789abcdef";
    proof {
        reveal_strlit("0123456789abcdef");
    }
    if n < 16 {
        let d = n as usize;
        let r = table.substring_char(d, d + 1).to_owned();
        proof {
            assert(r@ =~= hex_seq(n as nat));
        }
        r
    } else {
        let mut r = to_hex(n / 16);
        let d = (n % 16) as usize;
        r.append(table.substring_char(d, d + 1));
        proof {
            assert(r@ =~= hex_seq(n as nat));
        }
        r
    }
}

/// Render `n` as uppercase hexadecimal digits.
pub fn to_hex_upper(n: u64) -> (r: String)
    ensures
        r@ == hex_seq_upper(n as nat),
    decreases n,
{
    let table = "0123456789ABCDEF";
    proof {
        reveal_strlit("0123456789ABCDEF");
    }
    if n < 16 {
        let d = n as usize;
        let r = table.substring_char(d, d + 1).to_owned();
        proof {
            assert(r@ =~= hex_seq_upper(n as nat));
        }
        r
    } else {
        let mut r = to_hex_upper(n / 16);
        let d = (n % 16) as usize;
        r.append(table.substring_char(d, d + 1));
        proof {
            assert(r@ =~= hex_seq_upper(n as nat));
        }
        r
    }
}

/// Parse a nonempty run of lowercase hexadecimal digits into an `i64`.
pub fn parse_hex_i64(s: &str) -> (r: Option<i64>)
    ensures
        r is Some <==> (s@.len() >= 1 && all_hex_digits(s@) && hex_digits_val(s@)
            <= 0x7fff_ffff_ffff_ffff),
        r is Some ==> r->0 as int == hex_digits_val(s@),
{
    let s_len = s.unicode_len();
    if s_len == 0 {
        return None;
    }
    let mut acc: u64 = 0;
    let mut i: usize = 0;
    while i < s_len
        invariant
            i <= s_len,
            s_len == s@.len(),
            all_hex_digits(s@.take(i as int)),
            acc == hex_digits_val(s@.take(i as int)),
            acc <= 0x7fff_ffff_ffff_ffff,
        decreases s_len - i,
    {
        let c = s.get_char(i);
        let cv = c as u32;
        let d: u64;
        if 48 <= cv && cv <= 57 {
            d = (cv - 48) as u64;
        } else if 97 <= cv && cv <= 102 {
            d = (cv - 87) as u64;
        } else {
            assert(!is_hex_digit(s@[i as int]));
            return None;
        }
        proof {
            assert(s@.take(i + 1).drop_last() =~= s@.take(i as int));
            assert(s@.take(i + 1).last() == s@[i as int]);
            assert(d == hex_val(s@[i as int]));
        }
        if acc > 0x7ff_ffff_ffff_ffff || (acc == 0x7ff_ffff_ffff_ffff && d > 15) {
            proof {
                assert(hex_digits_val(s@.take(i + 1)) == acc * 16 + d);
                lemma_hex_digits_val_monotone(s@, i + 1, s@.len() as int);
                assert(s@.take(s@.len() as int) =~= s@);
            }
            return None;
        }
        acc = acc * 16 + d;
        i = i + 1;
    }
    proof {
        assert(s@.take(s@.len() as int) =~= s@);
    }
    Some(acc as i64)
}

proof fn lemma_hex_digits_val_monotone(s: Seq<char>, j: int, k: int)
    requires
        0 <= j <= k <= s.len(),
    ensures
        hex_digits_val(s.take(j)) <= hex_digits_val(s.take(k)),
    decreases k - j,
{
    if j < k {
        lemma_hex_digits_val_monotone(s, j, k - 1);
        assert(s.take(k).drop_last() =~= s.take(k - 1));
    }
}


/// `l` with every leading repetition of `p` removed.
pub open spec fn strip_prefix_all(l: Seq<char>, p: Seq<char>) -> Seq<char>
    decreases l.len(),
{
    if p.len() == 0 {
        l
    } else if l.len() >= p.len() && l.take(p.len() as int) == p {
        strip_prefix_all(l.skip(p.len() as int), p)
    } else {
        l
    }
}

/// `l` with every leading `c` removed.
pub open spec fn strip_char_all(l: Seq<char>, c: char) -> Seq<char>
    decreases l.len(),
{
    if l.len() > 0 && l[0] == c {
        strip_char_all(l.drop_first(), c)
    } else {
        l
    }
}

/// `l` with every leading repetition of `p` removed.
pub fn strip_prefix_all_exec<'a>(l: &'a str, p: &str) -> (r: &'a str)
    ensures
        r@ == strip_prefix_all(l@, p@),
{
    let l_len = l.unicode_len();
    let p_len = p.unicode_len();
    if p_len == 0 {
        return l;
    }
    if p_len > l_len {
        return l;
    }
    let mut k: usize = 0;
    proof {
        assert(l@.skip(0) =~= l@);
    }
    while k <= l_len - p_len && check_match_at(l, p, k)
        invariant
            k <= l_len,
            l_len == l@.len(),
            p_len == p@.len(),
            0 < p_len <= l_len,
            strip_prefix_all(l@, p@) == strip_prefix_all(l@.skip(k as int), p@),
        decreases l_len - k,
    {
        proof {
            let cur = l@.skip(k as int);
            assert(cur.take(p@.len() as int) =~= l@.subrange(k as int, k + p@.len()));
            assert(cur.skip(p@.len() as int) =~= l@.skip(k + p@.len()));
        }
        k = k + p_len;
    }
    proof {
        let cur = l@.skip(k as int);
        if k <= l_len - p_len {
            assert(cur.take(p@.len() as int) =~= l@.subrange(k as int, k + p@.len()));
            assert(cur.take(p@.len() as int) != p@);
        }
        assert(strip_prefix_all(cur, p@) == cur);
    }
    l.substring_char(k, l_len)
}

/// `l` with every leading `c` removed.
pub fn strip_char_all_exec<'a>(l: &'a str, c: char) -> (r: &'a str)
    ensures
        r@ == strip_char_all(l@, c),
{
    let l_len = l.unicode_len();
    let mut k: usize = 0;
    proof {
        assert(l@.skip(0) =~= l@);
    }
    while k < l_len && l.get_char(k) == c
        invariant
            k <= l_len,
            l_len == l@.len(),
            strip_char_all(l@, c) == strip_char_all(l@.skip(k as int), c),
        decreases l_len - k,
    {
        proof {
            assert(l@.skip(k as int)[0] == l@[k as int]);
            assert(l@.skip(k as int).drop_first() =~= l@.skip(k + 1));
        }
        k = k + 1;
    }
    proof {
        let cur = l@.skip(k as int);
        if k < l_len {
            assert(cur[0] == l@[k as int]);
        }
        assert(strip_char_all(cur, c) == cur);
    }
    l.substring_char(k, l_len)
}

/// The pieces of `s` split at newlines, without a final empty piece for a
/// trailing newline, as `str::split_terminator('\n')` yields them.
pub open spec fn split_term_lines(s: Seq<char>) -> Seq<Seq<char>> {
    if s.len() == 0 {
        Seq::empty()
    } else if s.last() == '\n' {
        split_lines(s).drop_last()
    } else {
        split_lines(s)
    }
}

/// Split at newlines, dropping the empty piece a trailing newline makes.
pub fn split_term_lines_exec(s: &str) -> (r: Vec<String>)
    ensures
        r.deep_view() == split_term_lines(s@),
{
    let s_len = s.unicode_len();
    if s_len == 0 {
        let r: Vec<String> = Vec::new();
        proof {
            assert(r.deep_view() =~= split_term_lines(s@));
        }
        return r;
    }
    let mut lines = split_lines_exec(s);
    if s.get_char(s_len - 1) == '\n' {
        proof {
            crate::strings::lemma_split_lines_nonempty(s@);
        }
        let ghost before = lines.deep_view();
        let _ = lines.pop();
        proof {
            assert(lines.deep_view() =~= before.drop_last());
        }
    }
    lines
}


/// Every character of the uppercase hexadecimal rendering is a digit or
/// an uppercase letter between A and F.
pub proof fn lemma_hex_seq_upper_chars(n: nat)
    ensures
        forall|i: int|
            0 <= i < hex_seq_upper(n).len() ==> (48 <= (#[trigger] hex_seq_upper(n)[i]) as u32 <= 57
                || 65 <= hex_seq_upper(n)[i] as u32 <= 70),
    decreases n,
{
    if n < 16 {
        assert(hex_seq_upper(n) =~= seq![hex_char_upper(n)]);
        assert(hex_char_upper(n) as u32 == if n < 10 { n + 48 } else { n + 55 });
    } else {
        lemma_hex_seq_upper_chars(n / 16);
        let prefix = hex_seq_upper(n / 16);
        let whole = hex_seq_upper(n);
        assert(whole =~= prefix.push(hex_char_upper(n % 16)));
        assert(hex_char_upper(n % 16) as u32 == if n % 16 < 10 { n % 16 + 48 } else { n % 16 + 55 });
        assert forall|i: int|
            0 <= i < whole.len() implies (48 <= (#[trigger] whole[i]) as u32 <= 57 || 65 <= whole[i] as u32 <= 70) by {
            if i < prefix.len() {
                assert(whole[i] == prefix[i]);
            }
        }
    }
}

} // verus!
