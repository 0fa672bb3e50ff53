//! Character-level text utilities: equality, searching, trimming and
//! line extraction over `&str`/`String`, specified against `Seq<char>` views.

use vstd::prelude::*;
use vstd::string::*;

verus! {

/// ASCII whitespace, the set trimmed away around signatures and context lines.
pub open spec fn is_space_char(c: char) -> bool {
    c == ' ' || c == '\t' || c == '\n' || c == '\r' || c == '\x0c'
}

/// Whether `c` occurs anywhere in `s`.
pub open spec fn contains_char(s: Seq<char>, c: char) -> bool {
    exists|i: int| 0 <= i < s.len() && s[i] == c
}

/// Index of the first occurrence of `c` in `s`, if any.
pub open spec fn index_of_first(s: Seq<char>, c: char) -> Option<int>
    decreases s.len(),
{
    if s.len() == 0 {
        None
    } else if s[0] == c {
        Some(0)
    } else {
        match index_of_first(s.drop_first(), c) {
            None => None,
            Some(i) => Some(i + 1),
        }
    }
}

/// The first occurrence really is the first: it holds `c`, nothing before it
/// does, and a `None` means `c` is absent.
pub proof fn lemma_index_of_first(s: Seq<char>, c: char)
    ensures
        match index_of_first(s, c) {
            None => !contains_char(s, c),
            Some(i) => 0 <= i < s.len() && s[i] == c && forall|j: int| 0 <= j < i ==> s[j] != c,
        },
    decreases s.len(),
{
    if s.len() != 0 && s[0] != c {
        lemma_index_of_first(s.drop_first(), c);
        match index_of_first(s.drop_first(), c) {
            None => {
                assert forall|i: int| 0 <= i < s.len() implies s[i] != c by {
                    if i > 0 {
                        assert(s.drop_first()[i - 1] == s[i]);
                    }
                }
            },
            Some(i) => {
                assert forall|j: int| 0 <= j < i + 1 implies s[j] != c by {
                    if j > 0 {
                        assert(s.drop_first()[j - 1] == s[j]);
                    }
                }
            },
        }
    }
}

/// Exact character-wise equality of two string slices.
pub fn str_eq(a: &str, b: &str) -> (r: bool)
    ensures
        r == (a@ == b@),
{
    let alen = a.unicode_len();
    let blen = b.unicode_len();
    if alen != blen {
        return false;
    }
    let mut i: usize = 0;
    while i < alen
        invariant
            alen == a@.len(),
            blen == b@.len(),
            alen == blen,
            i <= alen,
            forall|j: int| 0 <= j < i ==> a@[j] == b@[j],
        decreases alen - i,
    {
        if a.get_char(i) != b.get_char(i) {
            return false;
        }
        i += 1;
    }
    proof {
        assert(a@ =~= b@);
    }
    true
}

/// First index of `c` in `s`, matching `index_of_first` on the view.
pub fn find_char(s: &str, c: char) -> (r: Option<usize>)
    ensures
        match r {
            None => index_of_first(s@, c) is None,
            Some(i) => index_of_first(s@, c) == Some(i as int),
        },
{
    proof {
        lemma_index_of_first(s@, c);
    }
    let len = s.unicode_len();
    let mut i: usize = 0;
    while i < len
        invariant
            len == s@.len(),
            i <= len,
            forall|j: int| 0 <= j < i ==> s@[j] != c,
            match index_of_first(s@, c) {
                None => !contains_char(s@, c),
                Some(k) => 0 <= k < s@.len() && s@[k] == c && forall|j: int|
                    0 <= j < k ==> s@[j] != c,
            },
        decreases len - i,
    {
        if s.get_char(i) == c {
            proof {
                if index_of_first(s@, c) is None {
                    assert(contains_char(s@, c));
                }
                let k = index_of_first(s@, c)->Some_0;
                if k < i as int {
                    assert(s@[k] != c);
                }
                if k > i as int {
                    assert(s@[i as int] != c);
                }
            }
            return Some(i);
        }
        i += 1;
    }
    proof {
        if index_of_first(s@, c) is Some {
            let k = index_of_first(s@, c)->Some_0;
            assert(s@[k] != c);
        }
    }
    None
}

/// Appends one character to a `String`.
///
/// Relies on `std::string::String::push`, which appends the given character
/// to the end of the string.
#[verifier::external_body]
pub fn push_char(s: &mut String, c: char)
    ensures
        final(s)@ == old(s)@.push(c),
{
    s.push(c);
}

/// Drops leading characters satisfying `p`.
pub open spec fn drop_while_front(s: Seq<char>, p: spec_fn(char) -> bool) -> Seq<char>
    decreases s.len(),
{
    if s.len() > 0 && p(s[0]) {
        drop_while_front(s.drop_first(), p)
    } else {
        s
    }
}

/// Drops trailing characters satisfying `p`.
pub open spec fn drop_while_back(s: Seq<char>, p: spec_fn(char) -> bool) -> Seq<char>
    decreases s.len(),
{
    if s.len() > 0 && p(s.last()) {
        drop_while_back(s.drop_last(), p)
    } else {
        s
    }
}

/// Characters satisfying `p` stripped from both ends.
pub open spec fn strip_ends(s: Seq<char>, p: spec_fn(char) -> bool) -> Seq<char> {
    drop_while_back(drop_while_front(s, p), p)
}

/// `s` trimmed of ASCII whitespace on both ends.
pub open spec fn trim_spec(s: Seq<char>) -> Seq<char> {
    strip_ends(s, |c: char| is_space_char(c))
}

pub proof fn lemma_drop_while_front(s: Seq<char>, p: spec_fn(char) -> bool, a: int)
    requires
        0 <= a <= s.len(),
        forall|j: int| 0 <= j < a ==> p(s[j]),
        a == s.len() || !p(s[a]),
    ensures
        drop_while_front(s, p) == s.subrange(a, s.len() as int),
    decreases s.len(),
{
    if a == 0 {
        assert(s.subrange(0, s.len() as int) =~= s);
    } else {
        assert(p(s[0]));
        lemma_drop_while_front(s.drop_first(), p, a - 1);
        assert(s.drop_first().subrange(a - 1, s.drop_first().len() as int) =~= s.subrange(
            a,
            s.len() as int,
        ));
    }
}

pub proof fn lemma_drop_while_back(s: Seq<char>, p: spec_fn(char) -> bool, b: int)
    requires
        0 <= b <= s.len(),
        forall|j: int| b <= j < s.len() ==> p(s[j]),
        b == 0 || !p(s[b - 1]),
    ensures
        drop_while_back(s, p) == s.subrange(0, b),
    decreases s.len(),
{
    if b == s.len() {
        if s.len() > 0 {
            assert(!p(s.last()));
        }
        assert(s.subrange(0, s.len() as int) =~= s);
    } else {
        assert(p(s.last()));
        lemma_drop_while_back(s.drop_last(), p, b);
        assert(s.drop_last().subrange(0, b) =~= s.subrange(0, b));
    }
}

/// Everything stripped by `strip_ends` comes from inside `s`: the result is a
/// contiguous piece of `s`.
pub proof fn lemma_strip_ends_subrange(s: Seq<char>, p: spec_fn(char) -> bool)
    ensures
        exists|a: int, b: int|
            0 <= a <= b <= s.len() && strip_ends(s, p) == s.subrange(a, b),
    decreases s.len(),
{
    let t = drop_while_front(s, p);
    lemma_front_is_subrange(s, p);
    let a = choose|a: int| 0 <= a <= s.len() && t == s.subrange(a, s.len() as int);
    lemma_back_is_prefix(t, p);
    let b = choose|b: int| 0 <= b <= t.len() && drop_while_back(t, p) == t.subrange(0, b);
    assert(t.subrange(0, b) =~= s.subrange(a, a + b));
    assert(0 <= a <= a + b <= s.len() && strip_ends(s, p) == s.subrange(a, a + b));
}

proof fn lemma_front_is_subrange(s: Seq<char>, p: spec_fn(char) -> bool)
    ensures
        exists|a: int|
            0 <= a <= s.len() && drop_while_front(s, p) == s.subrange(a, s.len() as int),
    decreases s.len(),
{
    if s.len() > 0 && p(s[0]) {
        lemma_front_is_subrange(s.drop_first(), p);
        let a = choose|a: int|
            0 <= a <= s.drop_first().len() && drop_while_front(s.drop_first(), p)
                == s.drop_first().subrange(a, s.drop_first().len() as int);
        assert(s.drop_first().subrange(a, s.drop_first().len() as int) =~= s.subrange(
            a + 1,
            s.len() as int,
        ));
        assert(drop_while_front(s, p) == s.subrange(a + 1, s.len() as int));
    } else {
        assert(s.subrange(0, s.len() as int) =~= s);
    }
}

proof fn lemma_back_is_prefix(s: Seq<char>, p: spec_fn(char) -> bool)
    ensures
        exists|b: int| 0 <= b <= s.len() && drop_while_back(s, p) == s.subrange(0, b),
    decreases s.len(),
{
    if s.len() > 0 && p(s.last()) {
        lemma_back_is_prefix(s.drop_last(), p);
        let b = choose|b: int|
            0 <= b <= s.drop_last().len() && drop_while_back(s.drop_last(), p)
                == s.drop_last().subrange(0, b);
        assert(s.drop_last().subrange(0, b) =~= s.subrange(0, b));
    } else {
        assert(s.subrange(0, s.len() as int) =~= s);
    }
}

fn scan_space_front(s: &str) -> (a: usize)
    ensures
        a <= s@.len(),
        forall|j: int| 0 <= j < a ==> is_space_char(s@[j]),
        a == s@.len() || !is_space_char(s@[a as int]),
{
    let len = s.unicode_len();
    let mut a: usize = 0;
    while a < len
        invariant
            len == s@.len(),
            a <= len,
            forall|j: int| 0 <= j < a ==> is_space_char(s@[j]),
        decreases len - a,
    {
        if !is_space(s.get_char(a)) {
            return a;
        }
        a += 1;
    }
    a
}

fn scan_space_back(s: &str, lo: usize) -> (b: usize)
    requires
        lo <= s@.len(),
    ensures
        lo <= b <= s@.len(),
        forall|j: int| b <= j < s@.len() ==> is_space_char(s@[j]),
        b == lo || !is_space_char(s@[b - 1]),
{
    let len = s.unicode_len();
    let mut b: usize = len;
    while b > lo
        invariant
            len == s@.len(),
            lo <= b <= len,
            forall|j: int| b <= j < len ==> is_space_char(s@[j]),
        decreases b,
    {
        if !is_space(s.get_char(b - 1)) {
            return b;
        }
        b -= 1;
    }
    b
}

/// `s` with ASCII whitespace removed from both ends.
pub fn trim_str(s: &str) -> (r: String)
    ensures
        r@ == trim_spec(s@),
{
    let a = scan_space_front(s);
    let b = scan_space_back(s, a);
    let sub = s.substring_char(a, b);
    proof {
        let p = |c: char| is_space_char(c);
        lemma_drop_while_front(s@, p, a as int);
        let t = s@.subrange(a as int, s@.len() as int);
        if b == a {
            lemma_drop_while_back(t, p, 0);
        } else {
            lemma_drop_while_back(t, p, b - a);
        }
        assert(t.subrange(0, b - a) =~= s@.subrange(a as int, b as int));
    }
    sub.to_owned()
}

/// Whether `c` is one of the quote characters around a module specifier.
pub open spec fn is_quote_char(c: char) -> bool {
    c == '"' || c == '\''
}

fn is_quote(c: char) -> (r: bool)
    ensures
        r == is_quote_char(c),
{
    c == '"' || c == '\''
}

fn scan_quote_front(s: &str) -> (a: usize)
    ensures
        a <= s@.len(),
        forall|j: int| 0 <= j < a ==> is_quote_char(s@[j]),
        a == s@.len() || !is_quote_char(s@[a as int]),
{
    let len = s.unicode_len();
    let mut a: usize = 0;
    while a < len
        invariant
            len == s@.len(),
            a <= len,
            forall|j: int| 0 <= j < a ==> is_quote_char(s@[j]),
        decreases len - a,
    {
        if !is_quote(s.get_char(a)) {
            return a;
        }
        a += 1;
    }
    a
}

fn scan_quote_back(s: &str, lo: usize) -> (b: usize)
    requires
        lo <= s@.len(),
    ensures
        lo <= b <= s@.len(),
        forall|j: int| b <= j < s@.len() ==> is_quote_char(s@[j]),
        b == lo || !is_quote_char(s@[b - 1]),
{
    let len = s.unicode_len();
    let mut b: usize = len;
    while b > lo
        invariant
            len == s@.len(),
            lo <= b <= len,
            forall|j: int| b <= j < len ==> is_quote_char(s@[j]),
        decreases b,
    {
        if !is_quote(s.get_char(b - 1)) {
            return b;
        }
        b -= 1;
    }
    b
}

/// `s` with single and double quotes removed from both ends.
pub fn strip_quotes(s: &str) -> (r: String)
    ensures
        r@ == strip_ends(s@, |c: char| is_quote_char(c)),
{
    let a = scan_quote_front(s);
    let b = scan_quote_back(s, a);
    let sub = s.substring_char(a, b);
    proof {
        let p = |c: char| is_quote_char(c);
        lemma_drop_while_front(s@, p, a as int);
        let t = s@.subrange(a as int, s@.len() as int);
        if b == a {
            lemma_drop_while_back(t, p, 0);
        } else {
            lemma_drop_while_back(t, p, b - a);
        }
        assert(t.subrange(0, b - a) =~= s@.subrange(a as int, b as int));
    }
    sub.to_owned()
}

/// Executable test for `is_space_char`.
pub fn is_space(c: char) -> (r: bool)
    ensures
        r == is_space_char(c),
{
    c == ' ' || c == '\t' || c == '\n' || c == '\r' || c == '\x0c'
}

/// Whether `suf` is a suffix of `s`.
pub open spec fn is_suffix_of(suf: Seq<char>, s: Seq<char>) -> bool {
    suf.len() <= s.len() && s.subrange(s.len() - suf.len(), s.len() as int) == suf
}

/// Whether `s` ends with `suf`, character for character.
pub fn ends_with_str(s: &str, suf: &str) -> (r: bool)
    ensures
        r == is_suffix_of(suf@, s@),
{
    let slen = s.unicode_len();
    let flen = suf.unicode_len();
    if flen > slen {
        return false;
    }
    let start = slen - flen;
    let mut i: usize = 0;
    while i < flen
        invariant
            slen == s@.len(),
            flen == suf@.len(),
            flen <= slen,
            start == slen - flen,
            i <= flen,
            forall|j: int| 0 <= j < i ==> s@[start + j] == suf@[j],
        decreases flen - i,
    {
        if s.get_char(start + i) != suf.get_char(i) {
            proof {
                assert(s@.subrange(s@.len() - suf@.len(), s@.len() as int)[i as int] == s@[start
                    + i]);
            }
            return false;
        }
        i += 1;
    }
    proof {
        assert(s@.subrange(s@.len() - suf@.len(), s@.len() as int) =~= suf@);
    }
    true
}

/// Whether `s` begins with the character `c`.
pub fn starts_with_char(s: &str, c: char) -> (r: bool)
    ensures
        r == (s@.len() > 0 && s@[0] == c),
{
    if s.unicode_len() == 0 {
        return false;
    }
    s.get_char(0) == c
}

/// The `row`-th line of `s` (0-based), where lines are separated by `'\n'`;
/// empty when `row` runs past the last line.
pub open spec fn nth_line(s: Seq<char>, row: nat) -> Seq<char>
    decreases row,
{
    match index_of_first(s, '\n') {
        None => if row == 0 {
            s
        } else {
            Seq::empty()
        },
        Some(i) => if row == 0 {
            s.take(i)
        } else {
            nth_line(s.subrange(i + 1, s.len() as int), (row - 1) as nat)
        },
    }
}

/// The `row`-th line of `s`, untrimmed.
pub fn line_at(s: &str, row: usize) -> (r: String)
    ensures
        r@ == nth_line(s@, row as nat),
    decreases row,
{
    proof {
        lemma_index_of_first(s@, '\n');
    }
    match find_char(s, '\n') {
        None => {
            if row == 0 {
                s.to_owned()
            } else {
                String::new()
            }
        },
        Some(i) => {
            if row == 0 {
                let pre = s.substring_char(0, i);
                proof {
                    assert(s@.subrange(0, i as int) =~= s@.take(i as int));
                }
                pre.to_owned()
            } else {
                let len = s.unicode_len();
                let rest = s.substring_char(i + 1, len);
                line_at(rest, row - 1)
            }
        },
    }
}

} // verus!
