//! Verified helpers for character sequences: trimming, searching,
//! equality (exact and ASCII-case-insensitive), prefix/suffix tests.
use vstd::prelude::*;

verus! {

/// Whitespace characters recognized by the line-oriented parsers.
pub open spec fn is_space_char(c: char) -> bool {
    c == ' ' || c == '\t' || c == '\n' || c == '\r' || c == '\u{000B}' || c == '\u{000C}'
}

/// Exec mirror of `is_space_char`.
pub fn is_space(c: char) -> (r: bool)
    ensures
        r == is_space_char(c),
{
    c == ' ' || c == '\t' || c == '\n' || c == '\r' || c == '\u{000B}' || c == '\u{000C}'
}

pub open spec fn ws_pred() -> spec_fn(char) -> bool {
    |c: char| is_space_char(c)
}

/// Predicate holding exactly on the one character `c`.
pub open spec fn eq_pred(c: char) -> spec_fn(char) -> bool {
    |x: char| x == c
}

/// Predicate holding on every character but `c`.
pub open spec fn neq_pred(c: char) -> spec_fn(char) -> bool {
    |x: char| x != c
}

/// Length of the longest prefix of `s` whose characters all satisfy `p`.
pub open spec fn count_leading(s: Seq<char>, p: spec_fn(char) -> bool) -> int
    decreases s.len(),
{
    if s.len() == 0 || !p(s[0]) {
        0
    } else {
        1 + count_leading(s.drop_first(), p)
    }
}

/// Length of the longest suffix of `s` whose characters all satisfy `p`.
pub open spec fn count_trailing(s: Seq<char>, p: spec_fn(char) -> bool) -> int
    decreases s.len(),
{
    if s.len() == 0 || !p(s.last()) {
        0
    } else {
        1 + count_trailing(s.drop_last(), p)
    }
}

pub proof fn lemma_count_leading_bounds(s: Seq<char>, p: spec_fn(char) -> bool)
    ensures
        0 <= count_leading(s, p) <= s.len(),
        forall|j: int| 0 <= j < count_leading(s, p) ==> p(s[j]),
        count_leading(s, p) < s.len() ==> !p(s[count_leading(s, p)]),
    decreases s.len(),
{
    if s.len() == 0 || !p(s[0]) {
    } else {
        lemma_count_leading_bounds(s.drop_first(), p);
        assert forall|j: int| 0 <= j < count_leading(s, p) implies p(s[j]) by {
            if j > 0 {
                assert(s.drop_first()[j - 1] == s[j]);
            }
        }
        if count_leading(s, p) < s.len() {
            assert(s.drop_first()[count_leading(s, p) - 1] == s[count_leading(s, p)]);
        }
    }
}

pub proof fn lemma_count_leading_unique(s: Seq<char>, p: spec_fn(char) -> bool, k: int)
    requires
        0 <= k <= s.len(),
        forall|j: int| 0 <= j < k ==> p(s[j]),
        k < s.len() ==> !p(s[k]),
    ensures
        count_leading(s, p) == k,
    decreases s.len(),
{
    if s.len() == 0 {
    } else if k == 0 {
    } else {
        assert(p(s[0]));
        assert forall|j: int| 0 <= j < k - 1 implies p(s.drop_first()[j]) by {
            assert(s.drop_first()[j] == s[j + 1]);
        }
        if k - 1 < s.drop_first().len() {
            assert(s.drop_first()[k - 1] == s[k]);
        }
        lemma_count_leading_unique(s.drop_first(), p, k - 1);
    }
}

pub proof fn lemma_count_trailing_bounds(s: Seq<char>, p: spec_fn(char) -> bool)
    ensures
        0 <= count_trailing(s, p) <= s.len(),
        forall|j: int| s.len() - count_trailing(s, p) <= j < s.len() ==> p(s[j]),
        count_trailing(s, p) < s.len() ==> !p(s[s.len() - count_trailing(s, p) - 1]),
    decreases s.len(),
{
    if s.len() == 0 || !p(s.last()) {
    } else {
        lemma_count_trailing_bounds(s.drop_last(), p);
        let ct = count_trailing(s, p);
        assert forall|j: int| s.len() - ct <= j < s.len() implies p(s[j]) by {
            if j < s.len() - 1 {
                assert(s.drop_last()[j] == s[j]);
            }
        }
        if ct < s.len() {
            assert(s.drop_last()[s.len() - ct - 1] == s[s.len() - ct - 1]);
        }
    }
}

pub proof fn lemma_count_trailing_unique(s: Seq<char>, p: spec_fn(char) -> bool, k: int)
    requires
        0 <= k <= s.len(),
        forall|j: int| s.len() - k <= j < s.len() ==> p(s[j]),
        k < s.len() ==> !p(s[s.len() - k - 1]),
    ensures
        count_trailing(s, p) == k,
    decreases s.len(),
{
    if s.len() == 0 {
    } else if k == 0 {
    } else {
        assert(p(s.last()));
        assert forall|j: int| s.drop_last().len() - (k - 1) <= j < s.drop_last().len() implies p(
            s.drop_last()[j],
        ) by {
            assert(s.drop_last()[j] == s[j]);
        }
        if k - 1 < s.drop_last().len() {
            assert(s.drop_last()[s.drop_last().len() - (k - 1) - 1] == s[s.len() - k - 1]);
        }
        lemma_count_trailing_unique(s.drop_last(), p, k - 1);
    }
}

/// `s` with its longest `p`-prefix and `p`-suffix removed.
pub open spec fn spec_trim(s: Seq<char>, p: spec_fn(char) -> bool) -> Seq<char> {
    let a = count_leading(s, p);
    let b = s.len() - count_trailing(s, p);
    if a <= b {
        s.subrange(a, b)
    } else {
        Seq::empty()
    }
}

/// `s` with surrounding whitespace removed.
pub open spec fn spec_trim_ws(s: Seq<char>) -> Seq<char> {
    spec_trim(s, ws_pred())
}

/// `s` with every leading and trailing occurrence of `c` removed.
pub open spec fn spec_trim_char(s: Seq<char>, c: char) -> Seq<char> {
    spec_trim(s, eq_pred(c))
}

/// A line, key or value as the parsers compare it: surrounding whitespace
/// removed, then surrounding byte-order marks removed.
pub open spec fn clean_part(s: Seq<char>) -> Seq<char> {
    spec_trim_char(spec_trim_ws(s), '\u{FEFF}')
}

/// Removes surrounding whitespace from a string slice.
pub fn trim_ws(s: &str) -> (r: &str)
    ensures
        r@ == spec_trim_ws(s@),
{
    let n = s.unicode_len();
    let mut a: usize = 0;
    while a < n && is_space(s.get_char(a))
        invariant
            n == s@.len(),
            a <= n,
            forall|j: int| 0 <= j < a ==> is_space_char(s@[j]),
        decreases n - a,
    {
        a = a + 1;
    }
    let mut b: usize = n;
    while b > a && is_space(s.get_char(b - 1))
        invariant
            n == s@.len(),
            a <= b <= n,
            forall|j: int| b <= j < n ==> is_space_char(s@[j]),
        decreases b,
    {
        b = b - 1;
    }
    proof {
        let p = ws_pred();
        lemma_count_leading_unique(s@, p, a as int);
        if a == n {
            lemma_count_trailing_unique(s@, p, n as int);
            assert(s@.subrange(a as int, b as int) =~= spec_trim_ws(s@));
        } else {
            lemma_count_trailing_unique(s@, p, n - b);
            assert(s@.subrange(a as int, b as int) == spec_trim_ws(s@));
        }
    }
    s.substring_char(a, b)
}

/// Removes every leading and trailing occurrence of `c` from a string slice.
pub fn trim_char_ends(s: &str, c: char) -> (r: &str)
    ensures
        r@ == spec_trim_char(s@, c),
{
    let n = s.unicode_len();
    let mut a: usize = 0;
    while a < n && s.get_char(a) == c
        invariant
            n == s@.len(),
            a <= n,
            forall|j: int| 0 <= j < a ==> s@[j] == c,
        decreases n - a,
    {
        a = a + 1;
    }
    let mut b: usize = n;
    while b > a && s.get_char(b - 1) == c
        invariant
            n == s@.len(),
            a <= b <= n,
            forall|j: int| b <= j < n ==> s@[j] == c,
        decreases b,
    {
        b = b - 1;
    }
    proof {
        let p = eq_pred(c);
        lemma_count_leading_unique(s@, p, a as int);
        if a == n {
            lemma_count_trailing_unique(s@, p, n as int);
            assert(s@.subrange(a as int, b as int) =~= spec_trim_char(s@, c));
        } else {
            lemma_count_trailing_unique(s@, p, n - b);
            assert(s@.subrange(a as int, b as int) == spec_trim_char(s@, c));
        }
    }
    s.substring_char(a, b)
}

/// Removes every leading and trailing byte-order mark.
pub fn trim_bom(s: &str) -> (r: &str)
    ensures
        r@ == spec_trim_char(s@, '\u{FEFF}'),
{
    trim_char_ends(s, '\u{FEFF}')
}

/// Finds the first occurrence of `c` in `s` at or after `from`.
pub fn find_char_from(s: &str, c: char, from: usize) -> (r: Option<usize>)
    requires
        from <= s@.len(),
    ensures
        match r {
            Some(i) => from <= i < s@.len() && s@[i as int] == c && forall|j: int|
                from <= j < i ==> s@[j] != c,
            None => forall|j: int| from <= j < s@.len() ==> s@[j] != c,
        },
{
    let n = s.unicode_len();
    let mut i: usize = from;
    while i < n
        invariant
            n == s@.len(),
            from <= i <= n,
            forall|j: int| from <= j < i ==> s@[j] != c,
        decreases n - i,
    {
        if s.get_char(i) == c {
            return Some(i);
        }
        i = i + 1;
    }
    None
}

/// Character-by-character string equality, proved against the views.
pub fn str_eq(a: &str, b: &str) -> (r: bool)
    ensures
        r == (a@ == b@),
{
    let la = a.unicode_len();
    let lb = b.unicode_len();
    if la != lb {
        return false;
    }
    let mut i: usize = 0;
    while i < la
        invariant
            la == a@.len(),
            la == b@.len(),
            i <= la,
            forall|j: int| 0 <= j < i ==> a@[j] == b@[j],
        decreases la - i,
    {
        if a.get_char(i) != b.get_char(i) {
            return false;
        }
        i = i + 1;
    }
    proof {
        assert(a@ =~= b@);
    }
    true
}

/// ASCII upper-case letter.
pub open spec fn is_ascii_upper(c: char) -> bool {
    'A' <= c && c <= 'Z'
}

/// Two characters equal up to ASCII case.
pub open spec fn chars_eq_ci(a: char, b: char) -> bool {
    a == b || (is_ascii_upper(a) && a as u32 + 32 == b as u32) || (is_ascii_upper(b) && b as u32
        + 32 == a as u32)
}

/// Two character sequences equal up to ASCII case.
pub open spec fn seq_eq_ci(a: Seq<char>, b: Seq<char>) -> bool {
    a.len() == b.len() && forall|i: int| 0 <= i < a.len() ==> chars_eq_ci(a[i], b[i])
}

/// Exec test for `chars_eq_ci`.
pub fn char_eq_ci(a: char, b: char) -> (r: bool)
    ensures
        r == chars_eq_ci(a, b),
{
    if a == b {
        true
    } else {
        let ua = a as u32;
        let ub = b as u32;
        ('A' <= a && a <= 'Z' && ua + 32 == ub) || ('A' <= b && b <= 'Z' && ub + 32 == ua)
    }
}

/// ASCII-case-insensitive string equality.
pub fn str_eq_ci(a: &str, b: &str) -> (r: bool)
    ensures
        r == seq_eq_ci(a@, b@),
{
    let la = a.unicode_len();
    let lb = b.unicode_len();
    if la != lb {
        return false;
    }
    let mut i: usize = 0;
    while i < la
        invariant
            la == a@.len(),
            la == b@.len(),
            i <= la,
            forall|j: int| 0 <= j < i ==> chars_eq_ci(a@[j], b@[j]),
        decreases la - i,
    {
        if !char_eq_ci(a.get_char(i), b.get_char(i)) {
            return false;
        }
        i = i + 1;
    }
    true
}

/// Exec test for "`pre` is a prefix of `s`".
pub fn str_starts_with(s: &str, pre: &str) -> (r: bool)
    ensures
        r == pre@.is_prefix_of(s@),
{
    let n = s.unicode_len();
    let m = pre.unicode_len();
    if m > n {
        assert(!pre@.is_prefix_of(s@));
        return false;
    }
    let mut i: usize = 0;
    while i < m
        invariant
            n == s@.len(),
            m == pre@.len(),
            m <= n,
            i <= m,
            forall|j: int| 0 <= j < i ==> s@[j] == pre@[j],
        decreases m - i,
    {
        if s.get_char(i) != pre.get_char(i) {
            assert(s@.subrange(0, m as int)[i as int] != pre@[i as int]);
            return false;
        }
        i = i + 1;
    }
    proof {
        assert(pre@ =~= s@.subrange(0, m as int));
    }
    true
}

/// Exec test for "`suf` is a suffix of `s`".
pub fn str_ends_with(s: &str, suf: &str) -> (r: bool)
    ensures
        r == suf@.is_suffix_of(s@),
{
    let n = s.unicode_len();
    let m = suf.unicode_len();
    if m > n {
        assert(!suf@.is_suffix_of(s@));
        return false;
    }
    let off = n - m;
    let mut i: usize = 0;
    while i < m
        invariant
            n == s@.len(),
            m == suf@.len(),
            off == n - m,
            i <= m,
            forall|j: int| 0 <= j < i ==> s@[off + j] == suf@[j],
        decreases m - i,
    {
        if s.get_char(off + i) != suf.get_char(i) {
            assert(s@.subrange(n - m, n as int)[i as int] != suf@[i as int]);
            return false;
        }
        i = i + 1;
    }
    proof {
        assert(suf@ =~= s@.subrange(n - m, n as int));
    }
    true
}

/// `needle` occurs somewhere inside `s`.
pub open spec fn seq_contains_sub(s: Seq<char>, needle: Seq<char>) -> bool {
    exists|i: int|
        0 <= i && i + needle.len() <= s.len() && #[trigger] s.subrange(i, i + needle.len())
            == needle
}

/// Exec test for `seq_contains_sub`.
pub fn str_contains(s: &str, needle: &str) -> (r: bool)
    ensures
        r == seq_contains_sub(s@, needle@),
{
    match find_sub_from(s, needle, 0) {
        Some(_) => true,
        None => false,
    }
}

/// Finds the first occurrence of `needle` in `s` at or after `from`.
pub fn find_sub_from(s: &str, needle: &str, from: usize) -> (r: Option<usize>)
    requires
        from <= s@.len(),
    ensures
        match r {
            Some(i) => from <= i && i + needle@.len() <= s@.len() && s@.subrange(
                i as int,
                i + needle@.len(),
            ) =~= needle@ && forall|j: int|
                from <= j < i ==> #[trigger] s@.subrange(j, j + needle@.len()) != needle@,
            None => forall|j: int|
                from <= j && j + needle@.len() <= s@.len() ==> #[trigger] s@.subrange(
                    j,
                    j + needle@.len(),
                ) != needle@,
        },
{
    let n = s.unicode_len();
    let m = needle.unicode_len();
    if m > n {
        return None;
    }
    if m == 0 {
        proof {
            assert(s@.subrange(from as int, from as int) =~= needle@);
        }
        return Some(from);
    }
    let mut i: usize = from;
    if i > n - m {
        return None;
    }
    while i <= n - m
        invariant
            n == s@.len(),
            m == needle@.len(),
            1 <= m <= n,
            from <= i <= n - m + 1,
            forall|j: int| from <= j < i ==> #[trigger] s@.subrange(j, j + needle@.len())
                != needle@,
        decreases n + 1 - m - i,
    {
        let mut k: usize = 0;
        let mut matched = true;
        while k < m
            invariant
                n == s@.len(),
                m == needle@.len(),
                i + m <= n,
                k <= m,
                matched ==> forall|j: int| 0 <= j < k ==> s@[i + j] == needle@[j],
                !matched ==> s@.subrange(i as int, i + m) != needle@,
            decreases m - k,
        {
            if s.get_char(i + k) != needle.get_char(k) {
                proof {
                    assert(s@.subrange(i as int, i + m)[k as int] != needle@[k as int]);
                }
                matched = false;
                k = m;
            } else {
                k = k + 1;
            }
        }
        if matched {
            proof {
                assert(s@.subrange(i as int, i + m) =~= needle@);
            }
            return Some(i);
        }
        i = i + 1;
    }
    proof {
        assert forall|j: int| from <= j && j + needle@.len() <= s@.len() implies #[trigger] s@.subrange(
            j,
            j + needle@.len(),
        ) != needle@ by {
            assert(j < i);
        }
    }
    None
}

/// `c` occurs in `s`.
pub open spec fn contains_char(s: Seq<char>, c: char) -> bool {
    exists|i: int| 0 <= i < s.len() && s[i] == c
}

/// Exec test for `contains_char`.
pub fn str_contains_char(s: &str, c: char) -> (r: bool)
    ensures
        r == contains_char(s@, c),
{
    match find_char_from(s, c, 0) {
        Some(_) => true,
        None => false,
    }
}

/// The views of a list of strings.
pub open spec fn strings_view(v: Seq<String>) -> Seq<Seq<char>> {
    Seq::new(v.len(), |i: int| v[i]@)
}

/// Whitespace-separated tokens of `s`, with `cur` the token in progress.
pub open spec fn tokens_acc(s: Seq<char>, cur: Seq<char>) -> Seq<Seq<char>>
    decreases s.len(),
{
    if s.len() == 0 {
        if cur.len() > 0 {
            seq![cur]
        } else {
            Seq::empty()
        }
    } else if is_space_char(s[0]) {
        if cur.len() > 0 {
            seq![cur] + tokens_acc(s.drop_first(), Seq::empty())
        } else {
            tokens_acc(s.drop_first(), Seq::empty())
        }
    } else {
        tokens_acc(s.drop_first(), cur.push(s[0]))
    }
}

/// The whitespace-separated tokens of `s`, each non-empty, in order.
pub open spec fn spec_tokens(s: Seq<char>) -> Seq<Seq<char>> {
    tokens_acc(s, Seq::empty())
}

/// Splits `s` into whitespace-separated tokens.
pub fn split_tokens(s: &str) -> (r: Vec<String>)
    ensures
        strings_view(r@) == spec_tokens(s@),
{
    let n = s.unicode_len();
    let mut toks: Vec<String> = Vec::new();
    let mut i: usize = 0;
    let mut start: usize = 0;
    let mut in_tok = false;
    proof {
        assert(s@.subrange(0, n as int) =~= s@);
        assert(strings_view(toks@) =~= Seq::<Seq<char>>::empty());
    }
    while i < n
        invariant
            n == s@.len(),
            i <= n,
            in_tok ==> start < i,
            spec_tokens(s@) == strings_view(toks@) + tokens_acc(
                s@.subrange(i as int, n as int),
                if in_tok {
                    s@.subrange(start as int, i as int)
                } else {
                    Seq::empty()
                },
            ),
        decreases n - i,
    {
        let ghost rem = s@.subrange(i as int, n as int);
        let ghost cur: Seq<char> = if in_tok {
            s@.subrange(start as int, i as int)
        } else {
            Seq::empty()
        };
        let c = s.get_char(i);
        proof {
            assert(rem[0] == c);
            assert(rem.drop_first() =~= s@.subrange(i + 1, n as int));
        }
        if is_space(c) {
            if in_tok {
                let ghost prev_toks = toks@;
                let ghost prev = strings_view(toks@);
                let tok = s.substring_char(start, i);
                toks.push(tok.to_owned());
                in_tok = false;
                proof {
                    assert(toks@.drop_last() =~= prev_toks);
                    assert(strings_view(toks@) =~= prev + seq![cur]);
                    assert(tokens_acc(rem, cur) == seq![cur] + tokens_acc(
                        rem.drop_first(),
                        Seq::empty(),
                    ));
                    assert((prev + seq![cur]) + tokens_acc(rem.drop_first(), Seq::empty()) =~= prev
                        + (seq![cur] + tokens_acc(rem.drop_first(), Seq::empty())));
                }
            }
        } else {
            if !in_tok {
                start = i;
                in_tok = true;
                proof {
                    assert(cur.push(c) =~= s@.subrange(i as int, i + 1));
                }
            } else {
                proof {
                    assert(cur.push(c) =~= s@.subrange(start as int, i + 1));
                }
            }
        }
        i = i + 1;
    }
    if in_tok {
        let tok = s.substring_char(start, n);
        toks.push(tok.to_owned());
        proof {
            assert(s@.subrange(n as int, n as int).len() == 0);
            assert(strings_view(toks@) =~= strings_view(toks@.drop_last()) + seq![s@.subrange(
                start as int,
                n as int,
            )]);
        }
    } else {
        proof {
            assert(s@.subrange(n as int, n as int).len() == 0);
            assert(strings_view(toks@) + Seq::<Seq<char>>::empty() =~= strings_view(toks@));
        }
    }
    toks
}

} // verus!
