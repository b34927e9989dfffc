//! Characters, decimal numerals and separator-delimited fields: the textual
//! building blocks of remote descriptors.

use vstd::prelude::*;
use vstd::std_specs::iter::IteratorSpec;
use vstd::string::StringExecFns;

verus! {

/// Whether `c` is one of the ASCII digits `0` to `9`.
pub open spec fn is_digit(c: char) -> bool {
    48 <= (c as u32) <= 57
}

/// The number that the ASCII digit `c` stands for.
pub open spec fn digit_value(c: char) -> nat {
    ((c as u32) - 48) as nat
}

/// The ASCII digit that stands for `d`, for `d` below ten.
pub open spec fn digit_char(d: nat) -> char {
    ((48 + d) as u8) as char
}

/// Whether every character of `s` is an ASCII digit.
pub open spec fn all_digits(s: Seq<char>) -> bool {
    forall|i: int| 0 <= i < s.len() ==> is_digit(#[trigger] s[i])
}

/// The number that `s` denotes when read as a decimal numeral, most
/// significant digit first.
pub open spec fn decimal_value(s: Seq<char>) -> nat
    decreases s.len(),
{
    if s.len() == 0 {
        0
    } else {
        decimal_value(s.drop_last()) * 10 + digit_value(s.last())
    }
}

/// The shortest decimal numeral of `n`.
pub open spec fn decimal_text(n: nat) -> Seq<char>
    decreases n,
{
    if n < 10 {
        seq![digit_char(n)]
    } else {
        decimal_text(n / 10).push(digit_char(n % 10))
    }
}

/// What `s` denotes as a decimal numeral of at most `max`: it holds at least
/// one character and digits only, and its value is no greater than `max`.
pub open spec fn bounded_decimal(s: Seq<char>, max: nat) -> Option<nat> {
    if s.len() > 0 && all_digits(s) && decimal_value(s) <= max {
        Some(decimal_value(s))
    } else {
        None
    }
}

/// The position of the first `sep` in `s`, or `s.len()` if there is none.
pub open spec fn first_index(s: Seq<char>, sep: char) -> int
    decreases s.len(),
{
    if s.len() == 0 {
        0
    } else if s[0] == sep {
        0
    } else {
        1 + first_index(s.drop_first(), sep)
    }
}

/// The fields of `s` between occurrences of `sep`. There is always at least
/// one field, and a field may be empty.
pub open spec fn split(s: Seq<char>, sep: char) -> Seq<Seq<char>>
    decreases s.len(),
{
    let i = first_index(s, sep);
    if 0 <= i < s.len() {
        seq![s.take(i)] + split(s.skip(i + 1), sep)
    } else {
        seq![s]
    }
}

/// Whether `sep` occurs nowhere in `s`.
pub open spec fn free_of(s: Seq<char>, sep: char) -> bool {
    forall|i: int| 0 <= i < s.len() ==> #[trigger] s[i] != sep
}

/// `first_index` finds the first occurrence and nothing before it.
pub proof fn lemma_first_index(s: Seq<char>, sep: char)
    ensures
        0 <= first_index(s, sep) <= s.len(),
        free_of(s.take(first_index(s, sep)), sep),
        first_index(s, sep) < s.len() ==> s[first_index(s, sep)] == sep,
    decreases s.len(),
{
    if s.len() > 0 && s[0] != sep {
        let t = s.drop_first();
        lemma_first_index(t, sep);
        let k = first_index(t, sep);
        assert forall|i: int| 0 <= i < k + 1 implies #[trigger] s.take(k + 1)[i] != sep by {
            if i > 0 {
                assert(t.take(k)[i - 1] == s.take(k + 1)[i]);
            }
        }
    }
}

/// A position that holds `sep` with none before it is the first index.
pub proof fn lemma_first_index_at(s: Seq<char>, sep: char, k: int)
    requires
        0 <= k <= s.len(),
        free_of(s.take(k), sep),
        k < s.len() ==> s[k] == sep,
    ensures
        first_index(s, sep) == k,
    decreases s.len(),
{
    if s.len() > 0 {
        if k == 0 {
        } else {
            assert(s.take(k)[0] == s[0]);
            let t = s.drop_first();
            assert forall|i: int| 0 <= i < k - 1 implies #[trigger] t.take(k - 1)[i] != sep by {
                assert(s.take(k)[i + 1] == t.take(k - 1)[i]);
            }
            lemma_first_index_at(t, sep, k - 1);
        }
    }
}

/// A text without separator is its own single field.
pub proof fn lemma_split_single(s: Seq<char>, sep: char)
    requires
        free_of(s, sep),
    ensures
        split(s, sep) == seq![s],
{
    assert(s.take(s.len() as int) == s);
    lemma_first_index_at(s, sep, s.len() as int);
}

/// Splitting `head`, a separator and `rest`, where `head` holds no separator,
/// gives `head` followed by the fields of `rest`.
pub proof fn lemma_split_joined(head: Seq<char>, sep: char, rest: Seq<char>)
    requires
        free_of(head, sep),
    ensures
        split(head.push(sep) + rest, sep) == seq![head] + split(rest, sep),
{
    let s = head.push(sep) + rest;
    let k = head.len() as int;
    assert(s.take(k) == head);
    assert(s[k] == sep);
    lemma_first_index_at(s, sep, k);
    assert(s.skip(k + 1) == rest);
}

/// Concatenation keeps texts free of `c`.
pub proof fn lemma_free_of_concat(a: Seq<char>, b: Seq<char>, c: char)
    requires
        free_of(a, c),
        free_of(b, c),
    ensures
        free_of(a + b, c),
{
    assert forall|i: int| 0 <= i < (a + b).len() implies #[trigger] (a + b)[i] != c by {
        if i < a.len() {
            assert((a + b)[i] == a[i]);
        } else {
            assert((a + b)[i] == b[i - a.len()]);
        }
    }
}

/// Every field of a split is free of the separator.
pub proof fn lemma_split_fields_free_of_sep(s: Seq<char>, sep: char)
    ensures
        forall|k: int| 0 <= k < split(s, sep).len() ==> free_of(#[trigger] split(s, sep)[k], sep),
    decreases s.len(),
{
    lemma_first_index(s, sep);
    let i = first_index(s, sep);
    if 0 <= i < s.len() {
        lemma_split_fields_free_of_sep(s.skip(i + 1), sep);
        let rest = split(s.skip(i + 1), sep);
        assert forall|k: int| 0 <= k < split(s, sep).len() implies free_of(
            #[trigger] split(s, sep)[k],
            sep,
        ) by {
            if k > 0 {
                assert(split(s, sep)[k] == rest[k - 1]);
            }
        }
    } else {
        assert(s.take(s.len() as int) == s);
    }
}

/// A character that does not occur in a text occurs in none of its fields.
pub proof fn lemma_split_fields_keep_free(s: Seq<char>, sep: char, c: char)
    requires
        free_of(s, c),
    ensures
        forall|k: int| 0 <= k < split(s, sep).len() ==> free_of(#[trigger] split(s, sep)[k], c),
    decreases s.len(),
{
    lemma_first_index(s, sep);
    let i = first_index(s, sep);
    if 0 <= i < s.len() {
        assert forall|j: int| 0 <= j < s.skip(i + 1).len() implies #[trigger] s.skip(i + 1)[j]
            != c by {
            assert(s.skip(i + 1)[j] == s[i + 1 + j]);
        }
        lemma_split_fields_keep_free(s.skip(i + 1), sep, c);
        let rest = split(s.skip(i + 1), sep);
        assert forall|j: int| 0 <= j < s.take(i).len() implies #[trigger] s.take(i)[j] != c by {
            assert(s.take(i)[j] == s[j]);
        }
        assert forall|k: int| 0 <= k < split(s, sep).len() implies free_of(
            #[trigger] split(s, sep)[k],
            c,
        ) by {
            if k > 0 {
                assert(split(s, sep)[k] == rest[k - 1]);
            }
        }
    }
}

/// Appending a digit multiplies the value by ten and adds the digit.
pub proof fn lemma_decimal_value_push(s: Seq<char>, c: char)
    ensures
        decimal_value(s.push(c)) == decimal_value(s) * 10 + digit_value(c),
{
    assert(s.push(c).drop_last() == s);
}

/// The value of a numeral is at least the value of each of its prefixes.
pub proof fn lemma_decimal_value_prefix(s: Seq<char>, k: int)
    requires
        0 <= k <= s.len(),
    ensures
        decimal_value(s.take(k)) <= decimal_value(s),
    decreases s.len() - k,
{
    if k < s.len() {
        lemma_decimal_value_prefix(s, k + 1);
        assert(s.take(k + 1).drop_last() == s.take(k));
    } else {
        assert(s.take(k) == s);
    }
}

/// `decimal_text(n)` is a numeral of `n`: digits only, at least one, without a
/// leading zero unless `n` is zero, and as long as `n` has decimal places.
pub proof fn lemma_decimal_text(n: nat)
    ensures
        decimal_text(n).len() >= 1,
        all_digits(decimal_text(n)),
        decimal_value(decimal_text(n)) == n,
        n > 0 ==> decimal_text(n)[0] != '0',
        n < 10 ==> decimal_text(n).len() == 1,
        n < 100 ==> decimal_text(n).len() <= 2,
        n < 1000 ==> decimal_text(n).len() <= 3,
        n < 10000 ==> decimal_text(n).len() <= 4,
        n < 100000 ==> decimal_text(n).len() <= 5,
    decreases n,
{
    if n < 10 {
        let t = seq![digit_char(n)];
        assert(t.drop_last() == Seq::<char>::empty());
        assert(decimal_value(t.drop_last()) == 0);
        assert(digit_value(digit_char(n)) == n);
    } else {
        lemma_decimal_text(n / 10);
        let p = decimal_text(n / 10);
        let c = digit_char(n % 10);
        lemma_decimal_value_push(p, c);
        assert(digit_value(c) == n % 10);
        assert(is_digit(c));
        assert(decimal_text(n) == p.push(c));
        assert(p.push(c)[0] == p[0]);
    }
}

/// The characters of `s`, in order.
pub fn to_chars(s: &str) -> (v: Vec<char>)
    ensures
        v@ == s@,
{
    let mut v: Vec<char> = Vec::new();
    for c in it: s.chars()
        invariant
            it.seq() == s@,
            v@ == it.seq().take(it.index() as int),
    {
        v.push(c);
    }
    v
}

/// Whether `c` is an ASCII digit.
pub(crate) fn is_digit_char(c: char) -> (r: bool)
    ensures
        r == is_digit(c),
{
    let n: u32 = c as u32;
    48 <= n && n <= 57
}

/// Reads `v[lo..hi]` as a decimal numeral: at least one digit, digits only, and
/// a value of at most `max`. Leading zeros are read as digits.
pub(crate) fn read_decimal(v: &Vec<char>, lo: usize, hi: usize, max: u32) -> (r: Option<u32>)
    requires
        lo <= hi <= v.len(),
        max <= 0x0FFF_FFFF,
    ensures
        match bounded_decimal(v@.subrange(lo as int, hi as int), max as nat) {
            Some(n) => r == Some(n as u32),
            None => r is None,
        },
{
    let ghost s = v@.subrange(lo as int, hi as int);
    if lo == hi {
        return None;
    }
    let mut acc: u32 = 0;
    let mut i: usize = lo;
    while i < hi
        invariant
            lo <= i <= hi <= v.len(),
            s == v@.subrange(lo as int, hi as int),
            max <= 0x0FFF_FFFF,
            all_digits(s.take(i - lo)),
            acc == decimal_value(s.take(i - lo)),
            acc <= max,
        decreases hi - i,
    {
        let c: char = v[i];
        if !is_digit_char(c) {
            assert(s[i - lo] == c);
            return None;
        }
        let d: u32 = (c as u32) - 48;
        proof {
            assert(s.take(i - lo + 1) == s.take(i - lo).push(c));
            lemma_decimal_value_push(s.take(i - lo), c);
            lemma_decimal_value_prefix(s, i - lo + 1);
        }
        let next: u32 = acc * 10 + d;
        if next > max {
            return None;
        }
        acc = next;
        i = i + 1;
    }
    proof {
        assert(s.take(hi - lo) == s);
    }
    Some(acc)
}

/// The one-character text of the decimal digit `d`.
fn digit_str(d: u8) -> (r: &'static str)
    requires
        d < 10,
    ensures
        r@ == seq![digit_char(d as nat)],
{
    proof {
        reveal_strlit("0");
        reveal_strlit("1");
        reveal_strlit("2");
        reveal_strlit("3");
        reveal_strlit("4");
        reveal_strlit("5");
        reveal_strlit("6");
        reveal_strlit("7");
        reveal_strlit("8");
        reveal_strlit("9");
    }
    let r: &'static str = match d {
        0 => "0",
        1 => "1",
        2 => "2",
        3 => "3",
        4 => "4",
        5 => "5",
        6 => "6",
        7 => "7",
        8 => "8",
        _ => "9",
    };
    assert(r@ =~= seq![digit_char(d as nat)]);
    r
}

/// Appends the shortest decimal numeral of `n` to `out`.
pub fn push_decimal(out: &mut String, n: u32)
    ensures
        final(out)@ == old(out)@ + decimal_text(n as nat),
    decreases n,
{
    if n >= 10 {
        push_decimal(out, n / 10);
    }
    out.append(digit_str((n % 10) as u8));
    proof {
        if n >= 10 {
            assert(old(out)@ + decimal_text((n / 10) as nat) + seq![digit_char((n % 10) as nat)]
                =~= old(out)@ + decimal_text((n / 10) as nat).push(digit_char((n % 10) as nat)));
        }
    }
}

/// The fields of `v[lo..hi]` between occurrences of `sep`, each as the range
/// of positions it occupies in `v`.
pub(crate) fn split_ranges(v: &Vec<char>, lo: usize, hi: usize, sep: char) -> (r: Vec<
    (usize, usize),
>)
    requires
        lo <= hi <= v.len(),
    ensures
        r@.len() == split(v@.subrange(lo as int, hi as int), sep).len(),
        forall|k: int|
            0 <= k < r@.len() ==> lo <= (#[trigger] r@[k]).0 <= r@[k].1 <= hi && v@.subrange(
                r@[k].0 as int,
                r@[k].1 as int,
            ) == split(v@.subrange(lo as int, hi as int), sep)[k],
{
    let ghost whole = split(v@.subrange(lo as int, hi as int), sep);
    let mut r: Vec<(usize, usize)> = Vec::new();
    let mut start: usize = lo;
    let mut i: usize = lo;
    while i < hi
        invariant
            lo <= start <= i <= hi <= v.len(),
            whole == split(v@.subrange(lo as int, hi as int), sep),
            free_of(v@.subrange(start as int, i as int), sep),
            whole.len() == r@.len() + split(v@.subrange(start as int, hi as int), sep).len(),
            forall|k: int|
                0 <= k < r@.len() ==> lo <= (#[trigger] r@[k]).0 <= r@[k].1 <= hi && v@.subrange(
                    r@[k].0 as int,
                    r@[k].1 as int,
                ) == whole[k],
            forall|k: int|
                0 <= k < split(v@.subrange(start as int, hi as int), sep).len() ==> whole[r@.len()
                    + k] == #[trigger] split(v@.subrange(start as int, hi as int), sep)[k],
        decreases hi - i,
    {
        if v[i] == sep {
            proof {
                let cur = v@.subrange(start as int, hi as int);
                assert(cur.take(i - start) == v@.subrange(start as int, i as int));
                lemma_first_index_at(cur, sep, i - start);
                assert(cur.skip(i - start + 1) == v@.subrange(i + 1, hi as int));
                let rest = split(v@.subrange(i + 1, hi as int), sep);
                assert(split(cur, sep) == seq![cur.take(i - start)] + rest);
                assert(split(cur, sep)[0] == cur.take(i - start));
                assert forall|k: int| 0 <= k < rest.len() implies whole[r@.len() + 1 + k]
                    == #[trigger] rest[k] by {
                    assert(split(cur, sep)[k + 1] == rest[k]);
                }
                assert(v@.subrange(i + 1, i + 1) =~= Seq::<char>::empty());
            }
            r.push((start, i));
            start = i + 1;
        } else {
            proof {
                assert forall|j: int| 0 <= j < i + 1 - start implies #[trigger] v@.subrange(
                    start as int,
                    i + 1,
                )[j] != sep by {
                    if j < i - start {
                        assert(v@.subrange(start as int, i as int)[j] == v@[start + j]);
                    }
                }
            }
        }
        i = i + 1;
    }
    proof {
        let cur = v@.subrange(start as int, hi as int);
        lemma_split_single(cur, sep);
        assert(split(cur, sep)[0] == cur);
    }
    r.push((start, hi));
    r
}

} // verus!
