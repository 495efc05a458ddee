//! Small verified string utilities: equality, lexicographic order, list
//! membership and first-match property lookup, all specified over character
//! sequences.

use vstd::prelude::*;
use vstd::string::StrSliceExecFns;

verus! {

/// Character-for-character string equality.
pub fn str_eq(a: &str, b: &str) -> (r: bool)
    ensures
        r == (a@ == b@),
{
    let la = a.unicode_len();
    let lb = b.unicode_len();
    if la != lb {
        proof {
            if a@ == b@ {
                assert(a@.len() == b@.len());
            }
        }
        return false;
    }
    let mut i: usize = 0;
    while i < la
        invariant
            a@.len() == la,
            b@.len() == la,
            i <= la,
            forall|j: int| 0 <= j < i ==> a@[j] == b@[j],
        decreases la - i,
    {
        if a.get_char(i) != b.get_char(i) {
            proof {
                if a@ == b@ {
                    assert(a@[i as int] == b@[i as int]);
                }
            }
            return false;
        }
        i = i + 1;
    }
    proof {
        assert(a@ =~= b@);
    }
    true
}

/// Lexicographic order on character sequences, by code point.
pub open spec fn chars_lt(a: Seq<char>, b: Seq<char>) -> bool
    decreases a.len(),
{
    if b.len() == 0 {
        false
    } else if a.len() == 0 {
        true
    } else if a[0] != b[0] {
        a[0] < b[0]
    } else {
        chars_lt(a.drop_first(), b.drop_first())
    }
}

/// `a` is strictly before `b` in code-point order.
pub fn str_lt(a: &str, b: &str) -> (r: bool)
    ensures
        r == chars_lt(a@, b@),
    decreases a@.len(),
{
    let la = a.unicode_len();
    let lb = b.unicode_len();
    let mut i: usize = 0;
    proof {
        assert(a@.skip(0) =~= a@);
        assert(b@.skip(0) =~= b@);
    }
    while i < la && i < lb
        invariant
            a@.len() == la,
            b@.len() == lb,
            i <= la,
            i <= lb,
            chars_lt(a@, b@) == chars_lt(a@.skip(i as int), b@.skip(i as int)),
        decreases la - i,
    {
        let ca = a.get_char(i);
        let cb = b.get_char(i);
        if ca != cb {
            proof {
                assert(a@.skip(i as int)[0] == ca);
                assert(b@.skip(i as int)[0] == cb);
            }
            return ca < cb;
        }
        proof {
            assert(a@.skip(i as int).drop_first() =~= a@.skip(i + 1));
            assert(b@.skip(i as int).drop_first() =~= b@.skip(i + 1));
            assert(a@.skip(i as int)[0] == b@.skip(i as int)[0]);
        }
        i = i + 1;
    }
    proof {
        assert(a@.skip(i as int).len() == la - i);
        assert(b@.skip(i as int).len() == lb - i);
    }
    i < lb
}

/// Whether some string in `v` has exactly the characters of `s`.
pub open spec fn seq_has_str(v: Seq<String>, s: Seq<char>) -> bool {
    exists|i: int| 0 <= i < v.len() && v[i]@ == s
}

pub fn strings_contain(v: &Vec<String>, s: &str) -> (r: bool)
    ensures
        r == seq_has_str(v@, s@),
{
    let mut i: usize = 0;
    while i < v.len()
        invariant
            i <= v@.len(),
            forall|j: int| 0 <= j < i ==> v@[j]@ != s@,
        decreases v@.len() - i,
    {
        if str_eq(v[i].as_str(), s) {
            return true;
        }
        i = i + 1;
    }
    false
}

/// First-match lookup in an association list of properties.
pub open spec fn prop_lookup(props: Seq<(String, String)>, key: Seq<char>) -> Option<String>
    decreases props.len(),
{
    if props.len() == 0 {
        None
    } else if props[0].0@ == key {
        Some(props[0].1)
    } else {
        prop_lookup(props.drop_first(), key)
    }
}

/// Looks up the first property with the given key.
pub fn get_prop(props: &Vec<(String, String)>, key: &str) -> (r: Option<String>)
    ensures
        r == prop_lookup(props@, key@),
{
    let mut i: usize = 0;
    proof {
        assert(props@.skip(0) =~= props@);
    }
    while i < props.len()
        invariant
            i <= props@.len(),
            prop_lookup(props@, key@) == prop_lookup(props@.skip(i as int), key@),
        decreases props@.len() - i,
    {
        proof {
            assert(props@.skip(i as int)[0] == props@[i as int]);
            assert(props@.skip(i as int).drop_first() =~= props@.skip(i + 1));
        }
        if str_eq(props[i].0.as_str(), key) {
            return Some(props[i].1.clone());
        }
        i = i + 1;
    }
    None
}

pub open spec fn is_digit(c: char) -> bool {
    '0' <= c && c <= '9'
}

pub open spec fn digit_val(c: char) -> int {
    c as int - 48
}

/// The numeric value of a digit string; `None` on any non-digit.
pub open spec fn digits_val(s: Seq<char>) -> Option<int>
    decreases s.len(),
{
    if s.len() == 0 {
        Some(0int)
    } else {
        match digits_val(s.drop_last()) {
            Some(v) => if is_digit(s.last()) {
                Some(v * 10 + digit_val(s.last()))
            } else {
                None
            },
            None => None,
        }
    }
}

/// What a 16-bit unsigned decimal parse accepts: an optional leading plus
/// sign, then one or more digits, with the value in range.
pub open spec fn u16_parse(s: Seq<char>) -> Option<u16> {
    let body = if s.len() >= 1 && s[0] == '+' {
        s.drop_first()
    } else {
        s
    };
    if body.len() == 0 {
        None
    } else {
        match digits_val(body) {
            Some(v) => if v <= 65535 {
                Some(v as u16)
            } else {
                None
            },
            None => None,
        }
    }
}

/// Digit values only grow as digits are appended, and a failure in a prefix
/// dooms the whole string.
proof fn lemma_digits_prefix(s: Seq<char>, k: int)
    requires
        0 <= k <= s.len(),
    ensures
        digits_val(s) is Some ==> digits_val(s.take(k)) is Some && digits_val(s).unwrap()
            >= digits_val(s.take(k)).unwrap() >= 0,
    decreases s.len() - k, s.len(),
{
    if k == s.len() {
        assert(s.take(k) =~= s);
        if s.len() > 0 {
            lemma_digits_prefix(s.drop_last(), s.len() - 1);
            assert(s.drop_last().take(s.len() - 1) =~= s.drop_last());
        }
    } else {
        lemma_digits_prefix(s, k + 1);
        assert(s.take(k + 1).drop_last() =~= s.take(k));
        if digits_val(s) is Some {
            assert(digits_val(s.take(k + 1)) is Some);
        }
    }
}

/// Parses a 16-bit unsigned decimal number, as the standard library's
/// decimal parse for that width does.
pub fn parse_u16(s: &str) -> (r: Option<u16>)
    ensures
        r == u16_parse(s@),
{
    let n = s.unicode_len();
    let mut i: usize = 0;
    if n >= 1 && s.get_char(0) == '+' {
        i = 1;
    }
    let ghost body = if s@.len() >= 1 && s@[0] == '+' {
        s@.drop_first()
    } else {
        s@
    };
    proof {
        assert(body.len() == n - i);
        assert(forall|j: int| 0 <= j < body.len() ==> body[j] == s@[j + i]);
    }
    if i == n {
        return None;
    }
    let mut acc: u32 = 0;
    let mut j: usize = i;
    proof {
        assert(body.take(0) =~= Seq::<char>::empty());
    }
    while j < n
        invariant
            i <= j <= n,
            s@.len() == n,
            i <= 1,
            body == (if s@.len() >= 1 && s@[0] == '+' {
                s@.drop_first()
            } else {
                s@
            }),
            body.len() == n - i,
            forall|q: int| 0 <= q < body.len() ==> body[q] == s@[q + i],
            acc <= 65535,
            digits_val(body.take(j - i)) == Some(acc as int),
        decreases n - j,
    {
        let c = s.get_char(j);
        proof {
            assert(body.take(j - i + 1).drop_last() =~= body.take(j - i));
            assert(body.take(j - i + 1).last() == body[j - i]);
            assert(body[j - i] == c);
        }
        if c < '0' || c > '9' {
            proof {
                assert(digits_val(body.take(j - i + 1)) is None);
                lemma_digits_prefix(body, j - i + 1);
            }
            return None;
        }
        let d: u32 = (c as u32) - 48;
        let next: u32 = acc * 10 + d;
        proof {
            assert(digits_val(body.take(j - i + 1)) == Some(acc * 10 + digit_val(c)));
        }
        if next > 65535 {
            proof {
                lemma_digits_prefix(body, j - i + 1);
            }
            return None;
        }
        acc = next;
        j = j + 1;
    }
    proof {
        assert(body.take(n - i) =~= body);
    }
    Some(acc as u16)
}

/// Copies a list of strings.
pub fn clone_strings(v: &Vec<String>) -> (r: Vec<String>)
    ensures
        r@ == v@,
{
    let mut out: Vec<String> = Vec::new();
    let mut i: usize = 0;
    while i < v.len()
        invariant
            i <= v@.len(),
            out@ == v@.take(i as int),
        decreases v@.len() - i,
    {
        out.push(v[i].clone());
        proof {
            assert(v@.take(i + 1) =~= v@.take(i as int).push(v@[i as int]));
        }
        i = i + 1;
    }
    proof {
        assert(v@.take(v@.len() as int) =~= v@);
    }
    out
}

/// Copies a list of identifier/string pairs.
pub fn clone_pairs(v: &Vec<(u128, String)>) -> (r: Vec<(u128, String)>)
    ensures
        r@ == v@,
{
    let mut out: Vec<(u128, String)> = Vec::new();
    let mut i: usize = 0;
    while i < v.len()
        invariant
            i <= v@.len(),
            out@ == v@.take(i as int),
        decreases v@.len() - i,
    {
        out.push((v[i].0, v[i].1.clone()));
        proof {
            assert(v@.take(i + 1) =~= v@.take(i as int).push(v@[i as int]));
        }
        i = i + 1;
    }
    proof {
        assert(v@.take(v@.len() as int) =~= v@);
    }
    out
}

/// Copies an optional string.
pub fn clone_opt_string(v: &Option<String>) -> (r: Option<String>)
    ensures
        r == *v,
{
    match v {
        Some(s) => Some(s.clone()),
        None => None,
    }
}

/// The last element of a non-empty title path.
pub fn last_title(title: &Vec<String>) -> (r: String)
    requires
        title@.len() >= 1,
    ensures
        r == title@.last(),
{
    title[title.len() - 1].clone()
}

} // verus!
