//! Character-level utilities for the type grammar: searching, trimming and
//! prefix stripping over `&str` values, each proved against a specification
//! stated over `Seq<char>`.

use vstd::prelude::*;
use vstd::string::StrSliceExecFns;

verus! {

/// Whitespace recognized when a type string is trimmed.
pub open spec fn is_space(c: char) -> bool {
    c == ' ' || c == '\t' || c == '\n' || c == '\r'
}

fn is_space_char(c: char) -> (b: bool)
    ensures
        b == is_space(c),
{
    c == ' ' || c == '\t' || c == '\n' || c == '\r'
}

/// Index of the first occurrence of `c` in `s`, if any.
pub open spec fn find_first(s: Seq<char>, c: char) -> Option<int>
    decreases s.len(),
{
    if s.len() == 0 {
        None
    } else if s[0] == c {
        Some(0int)
    } else {
        match find_first(s.drop_first(), c) {
            Some(i) => Some(i + 1),
            None => None,
        }
    }
}

/// Index of the last occurrence of `c` in `s`, if any.
pub open spec fn find_last(s: Seq<char>, c: char) -> Option<int>
    decreases s.len(),
{
    if s.len() == 0 {
        None
    } else if s[s.len() - 1] == c {
        Some(s.len() - 1)
    } else {
        find_last(s.drop_last(), c)
    }
}

pub proof fn lemma_find_first(s: Seq<char>, c: char)
    ensures
        match find_first(s, c) {
            Some(i) => 0 <= i < s.len() && s[i] == c && (forall|j: int| 0 <= j < i ==> s[j] != c),
            None => forall|j: int| 0 <= j < s.len() ==> s[j] != c,
        },
    decreases s.len(),
{
    if s.len() > 0 && s[0] != c {
        let d = s.drop_first();
        lemma_find_first(d, c);
        match find_first(d, c) {
            Some(i) => {
                assert(s[i + 1] == d[i]);
                assert forall|j: int| 0 <= j < i + 1 implies s[j] != c by {
                    if j > 0 {
                        assert(d[j - 1] == s[j]);
                    }
                }
            },
            None => {
                assert forall|j: int| 0 <= j < s.len() implies s[j] != c by {
                    if j > 0 {
                        assert(d[j - 1] == s[j]);
                    }
                }
            },
        }
    }
}

pub proof fn lemma_find_last(s: Seq<char>, c: char)
    ensures
        match find_last(s, c) {
            Some(i) => 0 <= i < s.len() && s[i] == c && (forall|j: int| i < j < s.len() ==> s[j] != c),
            None => forall|j: int| 0 <= j < s.len() ==> s[j] != c,
        },
    decreases s.len(),
{
    if s.len() > 0 && s[s.len() - 1] != c {
        lemma_find_last(s.drop_last(), c);
        assert forall|j: int| 0 <= j < s.len() - 1 implies s.drop_last()[j] == s[j] by {}
    }
}

pub proof fn lemma_find_first_is(s: Seq<char>, c: char, i: int)
    requires
        0 <= i < s.len(),
        s[i] == c,
        forall|j: int| 0 <= j < i ==> s[j] != c,
    ensures
        find_first(s, c) == Some(i),
{
    lemma_find_first(s, c);
    match find_first(s, c) {
        Some(k) => {
            if k < i {
            } else if k > i {
            }
        },
        None => {},
    }
}

pub proof fn lemma_find_first_none(s: Seq<char>, c: char)
    requires
        forall|j: int| 0 <= j < s.len() ==> s[j] != c,
    ensures
        find_first(s, c) is None,
{
    lemma_find_first(s, c);
}

/// Leading whitespace removed.
pub open spec fn trim_front(s: Seq<char>) -> Seq<char>
    decreases s.len(),
{
    if s.len() > 0 && is_space(s[0]) {
        trim_front(s.drop_first())
    } else {
        s
    }
}

/// Trailing whitespace removed.
pub open spec fn trim_back(s: Seq<char>) -> Seq<char>
    decreases s.len(),
{
    if s.len() > 0 && is_space(s[s.len() - 1]) {
        trim_back(s.drop_last())
    } else {
        s
    }
}

/// Whitespace removed at both ends.
pub open spec fn trim_spec(s: Seq<char>) -> Seq<char> {
    trim_back(trim_front(s))
}

pub proof fn lemma_trim_front_len(s: Seq<char>)
    ensures
        trim_front(s).len() <= s.len(),
    decreases s.len(),
{
    if s.len() > 0 && is_space(s[0]) {
        lemma_trim_front_len(s.drop_first());
    }
}

pub proof fn lemma_trim_back_len(s: Seq<char>)
    ensures
        trim_back(s).len() <= s.len(),
    decreases s.len(),
{
    if s.len() > 0 && is_space(s[s.len() - 1]) {
        lemma_trim_back_len(s.drop_last());
    }
}

pub proof fn lemma_trim_len(s: Seq<char>)
    ensures
        trim_spec(s).len() <= s.len(),
{
    lemma_trim_front_len(s);
    lemma_trim_back_len(trim_front(s));
}

/// A string with no whitespace at either end trims to itself.
pub proof fn lemma_trim_id(s: Seq<char>)
    requires
        s.len() > 0,
        !is_space(s[0]),
        !is_space(s[s.len() - 1]),
    ensures
        trim_spec(s) == s,
{
}

/// A leading `T::` scope prefix stripped, repeatedly.
pub open spec fn strip_scope(s: Seq<char>) -> Seq<char>
    decreases s.len(),
{
    if s.len() >= 3 && s[0] == 'T' && s[1] == ':' && s[2] == ':' {
        strip_scope(s.subrange(3, s.len() as int))
    } else {
        s
    }
}

/// A leading `::` separator stripped, repeatedly.
pub open spec fn strip_colons(s: Seq<char>) -> Seq<char>
    decreases s.len(),
{
    if s.len() >= 2 && s[0] == ':' && s[1] == ':' {
        strip_colons(s.subrange(2, s.len() as int))
    } else {
        s
    }
}

pub proof fn lemma_strip_scope_len(s: Seq<char>)
    ensures
        strip_scope(s).len() <= s.len(),
    decreases s.len(),
{
    if s.len() >= 3 && s[0] == 'T' && s[1] == ':' && s[2] == ':' {
        lemma_strip_scope_len(s.subrange(3, s.len() as int));
    }
}

/// Equality of two string slices, decided character by character.
pub fn str_eq(a: &str, b: &str) -> (r: bool)
    ensures
        r == (a@ == b@),
{
    let la = a.unicode_len();
    let lb = b.unicode_len();
    if la != lb {
        proof {
            if a@ == b@ {
                assert(a@.len() == b@.len());
            }
        }
        return false;
    }
    let mut i: usize = 0;
    while i < la
        invariant
            la == a@.len(),
            la == b@.len(),
            0 <= i <= la,
            forall|j: int| 0 <= j < i ==> a@[j] == b@[j],
        decreases la - i,
    {
        if a.get_char(i) != b.get_char(i) {
            return false;
        }
        i += 1;
    }
    proof {
        assert(a@ =~= b@);
    }
    true
}

/// Whether `p` is a prefix of `s`.
pub open spec fn is_prefix(p: Seq<char>, s: Seq<char>) -> bool {
    p.len() <= s.len() && s.subrange(0, p.len() as int) == p
}

pub fn str_starts_with(s: &str, p: &str) -> (r: bool)
    ensures
        r == is_prefix(p@, s@),
{
    let ls = s.unicode_len();
    let lp = p.unicode_len();
    if lp > ls {
        proof {
            if is_prefix(p@, s@) {
            }
        }
        return false;
    }
    let mut i: usize = 0;
    while i < lp
        invariant
            ls == s@.len(),
            lp == p@.len(),
            lp <= ls,
            0 <= i <= lp,
            forall|j: int| 0 <= j < i ==> s@[j] == p@[j],
        decreases lp - i,
    {
        if s.get_char(i) != p.get_char(i) {
            proof {
                if is_prefix(p@, s@) {
                    assert(s@.subrange(0, p@.len() as int)[i as int] == s@[i as int]);
                }
            }
            return false;
        }
        i += 1;
    }
    proof {
        assert(s@.subrange(0, p@.len() as int) =~= p@);
    }
    true
}

/// Index of the last occurrence of `c` in `s`, if any.
pub fn str_find_last(s: &str, c: char) -> (r: Option<usize>)
    ensures
        match r {
            Some(i) => find_last(s@, c) == Some(i as int),
            None => find_last(s@, c) is None,
        },
{
    let n = s.unicode_len();
    let mut i: usize = n;
    proof {
        assert(s@.subrange(0, n as int) =~= s@);
    }
    while i > 0
        invariant
            n == s@.len(),
            0 <= i <= n,
            find_last(s@, c) == find_last(s@.subrange(0, i as int), c),
        decreases i,
    {
        if s.get_char(i - 1) == c {
            proof {
                let sub = s@.subrange(0, i as int);
                assert(sub[sub.len() - 1] == c);
            }
            return Some(i - 1);
        }
        proof {
            let sub = s@.subrange(0, i as int);
            assert(sub[sub.len() - 1] != c);
            assert(sub.drop_last() =~= s@.subrange(0, i - 1));
        }
        i -= 1;
    }
    proof {
        assert(s@.subrange(0, 0) =~= Seq::<char>::empty());
    }
    None
}

/// Index of the first occurrence of `c` in `s`, if any.
pub fn str_find_first(s: &str, c: char) -> (r: Option<usize>)
    ensures
        match r {
            Some(i) => find_first(s@, c) == Some(i as int),
            None => find_first(s@, c) is None,
        },
{
    let n = s.unicode_len();
    let mut i: usize = 0;
    while i < n
        invariant
            n == s@.len(),
            0 <= i <= n,
            forall|j: int| 0 <= j < i ==> s@[j] != c,
        decreases n - i,
    {
        if s.get_char(i) == c {
            proof {
                lemma_find_first_is(s@, c, i as int);
            }
            return Some(i);
        }
        i += 1;
    }
    proof {
        lemma_find_first_none(s@, c);
    }
    None
}

pub fn str_contains_char(s: &str, c: char) -> (r: bool)
    ensures
        r == s@.contains(c),
{
    let r = str_find_first(s, c);
    proof {
        lemma_find_first(s@, c);
        match find_first(s@, c) {
            Some(i) => {
                assert(s@[i] == c);
            },
            None => {
                if s@.contains(c) {
                    let w = choose|w: int| 0 <= w < s@.len() && s@[w] == c;
                    assert(s@[w] != c);
                }
            },
        }
    }
    match r {
        Some(_) => true,
        None => false,
    }
}

/// Both ends trimmed of whitespace.
pub fn trim_str(s: &str) -> (r: &str)
    ensures
        r@ == trim_spec(s@),
{
    let n = s.unicode_len();
    let mut start: usize = 0;
    proof {
        assert(s@.subrange(0, n as int) =~= s@);
    }
    while start < n && is_space_char(s.get_char(start))
        invariant
            n == s@.len(),
            0 <= start <= n,
            trim_front(s@) == trim_front(s@.subrange(start as int, n as int)),
        decreases n - start,
    {
        proof {
            let sub = s@.subrange(start as int, n as int);
            assert(sub[0] == s@[start as int]);
            assert(sub.drop_first() =~= s@.subrange(start as int + 1, n as int));
        }
        start += 1;
    }
    proof {
        let sub = s@.subrange(start as int, n as int);
        if start < n {
            assert(sub[0] == s@[start as int]);
        }
        assert(trim_front(sub) == sub);
        assert(trim_front(s@) == s@.subrange(start as int, n as int));
    }
    let mut end: usize = n;
    while end > start && is_space_char(s.get_char(end - 1))
        invariant
            n == s@.len(),
            0 <= start <= end <= n,
            trim_front(s@) == s@.subrange(start as int, n as int),
            trim_back(s@.subrange(start as int, n as int)) == trim_back(
                s@.subrange(start as int, end as int),
            ),
        decreases end,
    {
        proof {
            let sub = s@.subrange(start as int, end as int);
            assert(sub[sub.len() - 1] == s@[end - 1]);
            assert(sub.drop_last() =~= s@.subrange(start as int, end as int - 1));
        }
        end -= 1;
    }
    proof {
        let sub = s@.subrange(start as int, end as int);
        if end > start {
            assert(sub[sub.len() - 1] == s@[end - 1]);
        }
        assert(trim_back(sub) == sub);
    }
    s.substring_char(start, end)
}

/// The `T::` scope prefix removed from the front, repeatedly.
pub fn strip_scope_str(s: &str) -> (r: &str)
    ensures
        r@ == strip_scope(s@),
{
    let n = s.unicode_len();
    let mut start: usize = 0;
    proof {
        assert(s@.subrange(0, n as int) =~= s@);
    }
    while n - start >= 3 && s.get_char(start) == 'T' && s.get_char(start + 1) == ':'
        && s.get_char(start + 2) == ':'
        invariant
            n == s@.len(),
            0 <= start <= n,
            strip_scope(s@) == strip_scope(s@.subrange(start as int, n as int)),
        decreases n - start,
    {
        proof {
            let sub = s@.subrange(start as int, n as int);
            assert(sub[0] == s@[start as int]);
            assert(sub[1] == s@[start as int + 1]);
            assert(sub[2] == s@[start as int + 2]);
            assert(sub.subrange(3, sub.len() as int) =~= s@.subrange(
                start as int + 3,
                n as int,
            ));
        }
        start += 3;
    }
    proof {
        let sub = s@.subrange(start as int, n as int);
        if sub.len() >= 3 {
            assert(sub[0] == s@[start as int]);
            assert(sub[1] == s@[start as int + 1]);
            assert(sub[2] == s@[start as int + 2]);
        }
        assert(strip_scope(sub) == sub);
    }
    s.substring_char(start, n)
}

/// A leading `::` separator removed from the front, repeatedly.
pub fn strip_colons_str(s: &str) -> (r: &str)
    ensures
        r@ == strip_colons(s@),
{
    let n = s.unicode_len();
    let mut start: usize = 0;
    proof {
        assert(s@.subrange(0, n as int) =~= s@);
    }
    while n - start >= 2 && s.get_char(start) == ':' && s.get_char(start + 1) == ':'
        invariant
            n == s@.len(),
            0 <= start <= n,
            strip_colons(s@) == strip_colons(s@.subrange(start as int, n as int)),
        decreases n - start,
    {
        proof {
            let sub = s@.subrange(start as int, n as int);
            assert(sub[0] == s@[start as int]);
            assert(sub[1] == s@[start as int + 1]);
            assert(sub.subrange(2, sub.len() as int) =~= s@.subrange(
                start as int + 2,
                n as int,
            ));
        }
        start += 2;
    }
    proof {
        let sub = s@.subrange(start as int, n as int);
        if sub.len() >= 2 {
            assert(sub[0] == s@[start as int]);
            assert(sub[1] == s@[start as int + 1]);
        }
        assert(strip_colons(sub) == sub);
    }
    s.substring_char(start, n)
}

} // verus!
