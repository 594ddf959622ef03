//! Character-level text utilities: whitespace, trimming, prefix and
//! substring search, and splitting into words and lines.
use vstd::prelude::*;

verus! {

/// Unicode `White_Space` characters.
pub open spec fn is_ws(c: char) -> bool {
    ||| c == '\t' || c == '\n' || c == '\u{0B}' || c == '\u{0C}' || c == '\r' || c == ' '
    ||| c == '\u{85}' || c == '\u{A0}' || c == '\u{1680}'
    ||| ('\u{2000}' <= c && c <= '\u{200A}')
    ||| c == '\u{2028}' || c == '\u{2029}' || c == '\u{202F}' || c == '\u{205F}' || c == '\u{3000}'
}

/// Whether `c` is a Unicode whitespace character.
pub fn is_whitespace_char(c: char) -> (r: bool)
    ensures
        r == is_ws(c),
{
    c == '\t' || c == '\n' || c == '\u{0B}' || c == '\u{0C}' || c == '\r' || c == ' ' || c
        == '\u{85}' || c == '\u{A0}' || c == '\u{1680}' || ('\u{2000}' <= c && c <= '\u{200A}')
        || c == '\u{2028}' || c == '\u{2029}' || c == '\u{202F}' || c == '\u{205F}' || c
        == '\u{3000}'
}

/// Number of leading characters of `s` that satisfy `p`.
pub open spec fn prefix_len_where(s: Seq<char>, p: spec_fn(char) -> bool) -> nat
    decreases s.len(),
{
    if s.len() == 0 || !p(s[0]) {
        0
    } else {
        1 + prefix_len_where(s.drop_first(), p)
    }
}

/// Number of trailing characters of `s` that satisfy `p`.
pub open spec fn suffix_len_where(s: Seq<char>, p: spec_fn(char) -> bool) -> nat
    decreases s.len(),
{
    if s.len() == 0 || !p(s.last()) {
        0
    } else {
        1 + suffix_len_where(s.drop_last(), p)
    }
}

pub open spec fn ws_pred() -> spec_fn(char) -> bool {
    |c: char| is_ws(c)
}

pub open spec fn non_ws_pred() -> spec_fn(char) -> bool {
    |c: char| !is_ws(c)
}

/// `s` without its leading whitespace.
pub open spec fn trim_start(s: Seq<char>) -> Seq<char> {
    s.skip(prefix_len_where(s, ws_pred()) as int)
}

/// `s` without its trailing whitespace.
pub open spec fn trim_end(s: Seq<char>) -> Seq<char> {
    s.take(s.len() - suffix_len_where(s, ws_pred()))
}

/// `s` without leading and trailing whitespace.
pub open spec fn trim(s: Seq<char>) -> Seq<char> {
    trim_end(trim_start(s))
}

pub proof fn lemma_prefix_len_bound(s: Seq<char>, p: spec_fn(char) -> bool)
    ensures
        prefix_len_where(s, p) <= s.len(),
        forall|j: int| 0 <= j < prefix_len_where(s, p) ==> p(#[trigger] s[j]),
        prefix_len_where(s, p) < s.len() ==> !p(s[prefix_len_where(s, p) as int]),
    decreases s.len(),
{
    if s.len() > 0 && p(s[0]) {
        lemma_prefix_len_bound(s.drop_first(), p);
        assert forall|j: int| 0 <= j < prefix_len_where(s, p) implies p(#[trigger] s[j]) by {
            if j > 0 {
                assert(s[j] == s.drop_first()[j - 1]);
            }
        }
    }
}

pub proof fn lemma_suffix_len_bound(s: Seq<char>, p: spec_fn(char) -> bool)
    ensures
        suffix_len_where(s, p) <= s.len(),
        forall|j: int|
            s.len() - suffix_len_where(s, p) <= j < s.len() ==> p(#[trigger] s[j]),
        suffix_len_where(s, p) < s.len() ==> !p(s[s.len() - suffix_len_where(s, p) - 1]),
    decreases s.len(),
{
    if s.len() > 0 && p(s.last()) {
        lemma_suffix_len_bound(s.drop_last(), p);
        assert forall|j: int|
            s.len() - suffix_len_where(s, p) <= j < s.len() implies p(#[trigger] s[j]) by {
            if j < s.len() - 1 {
                assert(s[j] == s.drop_last()[j]);
            }
        }
    }
}

/// The leading run of `p`-characters ends exactly at `i`.
pub proof fn lemma_prefix_len_is(s: Seq<char>, p: spec_fn(char) -> bool, i: int)
    requires
        0 <= i <= s.len(),
        forall|j: int| 0 <= j < i ==> p(#[trigger] s[j]),
        i == s.len() || !p(s[i]),
    ensures
        prefix_len_where(s, p) == i,
    decreases i,
{
    if i > 0 {
        let t = s.drop_first();
        assert forall|j: int| 0 <= j < i - 1 implies p(#[trigger] t[j]) by {
            assert(t[j] == s[j + 1]);
        }
        if i < s.len() {
            assert(t[i - 1] == s[i]);
        }
        lemma_prefix_len_is(t, p, i - 1);
    }
}

/// The trailing run of `p`-characters starts exactly at `i`.
pub proof fn lemma_suffix_len_is(s: Seq<char>, p: spec_fn(char) -> bool, i: int)
    requires
        0 <= i <= s.len(),
        forall|j: int| i <= j < s.len() ==> p(#[trigger] s[j]),
        i == 0 || !p(s[i - 1]),
    ensures
        suffix_len_where(s, p) == s.len() - i,
    decreases s.len() - i,
{
    if i < s.len() {
        let t = s.drop_last();
        assert forall|j: int| i <= j < t.len() implies p(#[trigger] t[j]) by {
            assert(t[j] == s[j]);
        }
        if i > 0 {
            assert(t[i - 1] == s[i - 1]);
        }
        lemma_suffix_len_is(t, p, i);
    }
}

/// `p` occurs in `s` at position `i`.
pub open spec fn occurs_at(s: Seq<char>, p: Seq<char>, i: int) -> bool {
    0 <= i && i + p.len() <= s.len() && s.subrange(i, i + p.len()) == p
}

/// `p` occurs somewhere in `s`.
pub open spec fn contains_sub(s: Seq<char>, p: Seq<char>) -> bool {
    exists|i: int| occurs_at(s, p, i)
}

/// The first position at which `p` occurs in `s`.
#[verifier::opaque]
pub open spec fn find_sub(s: Seq<char>, p: Seq<char>) -> Option<int> {
    if contains_sub(s, p) {
        Some(choose|i: int| occurs_at(s, p, i) && forall|j: int| 0 <= j < i ==> !occurs_at(s, p, j))
    } else {
        None
    }
}

/// `i` is the first occurrence of `p` in `s`.
pub proof fn lemma_find_sub_is(s: Seq<char>, p: Seq<char>, i: int)
    requires
        occurs_at(s, p, i),
        forall|j: int| 0 <= j < i ==> !occurs_at(s, p, j),
    ensures
        find_sub(s, p) == Some(i),
{
    reveal(find_sub);
    assert(contains_sub(s, p));
    let c = choose|k: int| occurs_at(s, p, k) && forall|j: int| 0 <= j < k ==> !occurs_at(s, p, j);
    assert(occurs_at(s, p, c) && forall|j: int| 0 <= j < c ==> !occurs_at(s, p, j));
    if c < i {
        assert(!occurs_at(s, p, c));
    }
    if i < c {
        assert(!occurs_at(s, p, i));
    }
}

/// The whitespace-separated words of `s`, in order.
pub open spec fn words(s: Seq<char>) -> Seq<Seq<char>>
    decreases s.len(),
{
    let t = trim_start(s);
    proof {
        lemma_prefix_len_bound(s, ws_pred());
    }
    if t.len() == 0 {
        Seq::empty()
    } else {
        let n = prefix_len_where(t, non_ws_pred());
        if 0 < n <= t.len() {
            seq![t.take(n as int)] + words(t.skip(n as int))
        } else {
            Seq::empty()
        }
    }
}

/// `s` without one trailing carriage return, if it has one.
pub open spec fn strip_cr(s: Seq<char>) -> Seq<char> {
    if s.len() > 0 && s.last() == '\r' {
        s.drop_last()
    } else {
        s
    }
}

pub open spec fn not_newline_pred() -> spec_fn(char) -> bool {
    |c: char| c != '\n'
}

/// The lines of `s`: split at `\n`, each line without a `\r` that stood
/// before its `\n`; a final line ending adds no empty line.
pub open spec fn lines(s: Seq<char>) -> Seq<Seq<char>>
    decreases s.len(),
{
    if s.len() == 0 {
        Seq::empty()
    } else {
        let k = prefix_len_where(s, not_newline_pred());
        if k < s.len() {
            seq![strip_cr(s.take(k as int))] + lines(s.skip(k + 1 as int))
        } else {
            seq![s]
        }
    }
}

/// The characters of `s`, in order.
pub fn chars_of(s: &str) -> (v: Vec<char>)
    ensures
        v@ == s@,
{
    let mut v: Vec<char> = Vec::new();
    for c in it: s.chars()
        invariant
            v@ == it.seq().take(it.index() as int),
    {
        v.push(c);
    }
    v
}

/// The text of `s` between character positions `from` and `to`.
pub fn substring(s: &str, from: usize, to: usize) -> (r: String)
    requires
        from <= to <= s@.len(),
    ensures
        r@ == s@.subrange(from as int, to as int),
{
    String::from_str(s.substring_char(from, to))
}

/// `s` without leading and trailing whitespace.
pub fn trim_str(s: &str) -> (r: String)
    ensures
        r@ == trim(s@),
{
    let v = chars_of(s);
    let n = v.len();
    let mut a: usize = 0;
    while a < n && is_whitespace_char(v[a])
        invariant
            a <= n == v@.len(),
            forall|j: int| 0 <= j < a ==> is_ws(#[trigger] v@[j]),
        decreases n - a,
    {
        a = a + 1;
    }
    proof {
        lemma_prefix_len_is(v@, ws_pred(), a as int);
    }
    let mut b: usize = n;
    while b > a && is_whitespace_char(v[b - 1])
        invariant
            a <= b <= n == v@.len(),
            forall|j: int| b <= j < n ==> is_ws(#[trigger] v@[j]),
        decreases b,
    {
        b = b - 1;
    }
    proof {
        let t = v@.skip(a as int);
        assert forall|j: int| b - a <= j < t.len() implies ws_pred()(#[trigger] t[j]) by {
            assert(t[j] == v@[j + a]);
        }
        if b > a {
            assert(t[b - a - 1] == v@[b - 1]);
        }
        lemma_suffix_len_is(t, ws_pred(), b - a);
        assert(trim(s@) =~= v@.subrange(a as int, b as int));
    }
    substring(s, a, b)
}

/// Whether `s` begins with `p`.
pub fn starts_with(s: &str, p: &str) -> (r: bool)
    ensures
        r == p@.is_prefix_of(s@),
{
    let sv = chars_of(s);
    let pv = chars_of(p);
    if pv.len() > sv.len() {
        return false;
    }
    let mut i: usize = 0;
    while i < pv.len()
        invariant
            i <= pv@.len() <= sv@.len(),
            sv@ == s@,
            pv@ == p@,
            forall|j: int| 0 <= j < i ==> sv@[j] == pv@[j],
        decreases pv.len() - i,
    {
        if sv[i] != pv[i] {
            assert(sv@.subrange(0, pv@.len() as int)[i as int] != pv@[i as int]);
            return false;
        }
        i = i + 1;
    }
    assert(sv@.subrange(0, pv@.len() as int) =~= pv@);
    true
}

/// Whether `a` and `b` are the same text.
pub fn same_text(a: &str, b: &str) -> (r: bool)
    ensures
        r == (a@ == b@),
{
    let av = chars_of(a);
    let bv = chars_of(b);
    if av.len() != bv.len() {
        return false;
    }
    let mut i: usize = 0;
    while i < av.len()
        invariant
            i <= av@.len() == bv@.len(),
            av@ == a@,
            bv@ == b@,
            forall|j: int| 0 <= j < i ==> av@[j] == bv@[j],
        decreases av.len() - i,
    {
        if av[i] != bv[i] {
            return false;
        }
        i = i + 1;
    }
    assert(av@ =~= bv@);
    true
}

/// Whether `s` ends with `p`.
pub fn ends_with(s: &str, p: &str) -> (r: bool)
    ensures
        r == p@.is_suffix_of(s@),
{
    let sv = chars_of(s);
    let pv = chars_of(p);
    if pv.len() > sv.len() {
        return false;
    }
    let off = sv.len() - pv.len();
    let mut i: usize = 0;
    while i < pv.len()
        invariant
            i <= pv@.len() <= sv@.len(),
            sv@ == s@,
            pv@ == p@,
            off + pv@.len() == sv@.len(),
            sv@.len() == sv.len(),
            pv@.len() == pv.len(),
            forall|j: int| 0 <= j < i ==> sv@[off + j] == pv@[j],
        decreases pv.len() - i,
    {
        if sv[off + i] != pv[i] {
            assert(sv@.subrange(off as int, sv@.len() as int)[i as int] != pv@[i as int]);
            return false;
        }
        i = i + 1;
    }
    assert(sv@.subrange(off as int, sv@.len() as int) =~= pv@);
    true
}

/// Whether `p` occurs in `s` at position `i` (on character vectors).
fn occurs_at_exec(s: &Vec<char>, p: &Vec<char>, i: usize) -> (r: bool)
    ensures
        r == occurs_at(s@, p@, i as int),
{
    if p.len() > s.len() || i > s.len() - p.len() {
        return false;
    }
    let mut k: usize = 0;
    while k < p.len()
        invariant
            k <= p@.len() == p.len(),
            s@.len() == s.len(),
            i + p@.len() <= s@.len(),
            forall|j: int| 0 <= j < k ==> s@[i + j] == p@[j],
        decreases p.len() - k,
    {
        if s[i + k] != p[k] {
            assert(s@.subrange(i as int, i + p@.len())[k as int] != p@[k as int]);
            return false;
        }
        k = k + 1;
    }
    assert(s@.subrange(i as int, i + p@.len()) =~= p@);
    true
}

/// First occurrence of `p` in `s` (on character vectors).
pub fn find_chars(s: &Vec<char>, p: &Vec<char>) -> (r: Option<usize>)
    ensures
        match r {
            Some(i) => find_sub(s@, p@) == Some(i as int),
            None => find_sub(s@, p@) is None,
        },
{
    if p.len() > s.len() {
        proof {
            reveal(find_sub);
        }
        return None;
    }
    let last = s.len() - p.len();
    let mut i: usize = 0;
    while i < last
        invariant
            last == s@.len() - p@.len(),
            i <= last,
            forall|j: int| 0 <= j < i ==> !occurs_at(s@, p@, j),
        decreases last - i,
    {
        if occurs_at_exec(s, p, i) {
            proof {
                lemma_find_sub_is(s@, p@, i as int);
            }
            return Some(i);
        }
        i = i + 1;
    }
    if occurs_at_exec(s, p, last) {
        proof {
            lemma_find_sub_is(s@, p@, last as int);
        }
        return Some(last);
    }
    assert(!contains_sub(s@, p@)) by {
        assert forall|j: int| !occurs_at(s@, p@, j) by {
            if 0 <= j && j + p@.len() <= s@.len() {
                assert(j <= last);
            }
        }
    }
    reveal(find_sub);
    None
}

/// First occurrence of `p` in `s`, as a character position.
pub fn find_str(s: &str, p: &str) -> (r: Option<usize>)
    ensures
        match r {
            Some(i) => find_sub(s@, p@) == Some(i as int),
            None => find_sub(s@, p@) is None,
        },
{
    let sv = chars_of(s);
    let pv = chars_of(p);
    find_chars(&sv, &pv)
}

pub proof fn lemma_find_sub_occurs(s: Seq<char>, p: Seq<char>)
    ensures
        find_sub(s, p) is Some <==> contains_sub(s, p),
        find_sub(s, p) matches Some(i) ==> occurs_at(s, p, i) && forall|j: int|
            0 <= j < i ==> !occurs_at(s, p, j),
{
    reveal(find_sub);
    if contains_sub(s, p) {
        let w = choose|i: int| occurs_at(s, p, i);
        lemma_first_occurrence_exists(s, p, w);
    }
}

/// Text appended after the first occurrence of `p` does not move it.
pub proof fn lemma_find_sub_append(s: Seq<char>, t: Seq<char>, p: Seq<char>)
    requires
        find_sub(s, p) is Some,
    ensures
        find_sub(s + t, p) == find_sub(s, p),
{
    lemma_find_sub_occurs(s, p);
    let i = find_sub(s, p)->0;
    let st = s + t;
    assert(st.subrange(i, i + p.len()) =~= s.subrange(i, i + p.len()));
    assert forall|j: int| 0 <= j < i implies !occurs_at(st, p, j) by {
        assert(!occurs_at(s, p, j));
        assert(j + p.len() <= s.len());
        assert(st.subrange(j, j + p.len()) =~= s.subrange(j, j + p.len()));
    }
    lemma_find_sub_is(st, p, i);
}

proof fn lemma_first_occurrence_exists(s: Seq<char>, p: Seq<char>, w: int)
    requires
        occurs_at(s, p, w),
    ensures
        exists|i: int| occurs_at(s, p, i) && forall|j: int| 0 <= j < i ==> !occurs_at(s, p, j),
    decreases w,
{
    if exists|j: int| 0 <= j < w && occurs_at(s, p, j) {
        let j = choose|j: int| 0 <= j < w && occurs_at(s, p, j);
        lemma_first_occurrence_exists(s, p, j);
    } else {
        assert(occurs_at(s, p, w) && forall|j: int| 0 <= j < w ==> !occurs_at(s, p, j));
    }
}

/// Whether `p` occurs in `s`.
pub fn contains_str(s: &str, p: &str) -> (r: bool)
    ensures
        r == contains_sub(s@, p@),
{
    proof {
        lemma_find_sub_occurs(s@, p@);
    }
    find_str(s, p).is_some()
}

/// The whitespace-separated words of `s`.
pub fn split_words(s: &str) -> (r: Vec<String>)
    ensures
        r.deep_view() == words(s@),
{
    let v = chars_of(s);
    let n = v.len();
    let mut res: Vec<String> = Vec::new();
    let mut i: usize = 0;
    assert(v@.skip(0) =~= v@);
    assert(res.deep_view() + words(v@) =~= words(v@));
    while i < n
        invariant
            i <= n == v@.len(),
            v@ == s@,
            words(v@) == res.deep_view() + words(v@.skip(i as int)),
        decreases n - i,
    {
        let mut j: usize = i;
        while j < n && is_whitespace_char(v[j])
            invariant
                i <= j <= n == v@.len(),
                forall|k: int| i <= k < j ==> is_ws(#[trigger] v@[k]),
            decreases n - j,
        {
            j = j + 1;
        }
        let ghost t = v@.skip(i as int);
        proof {
            assert forall|k: int| 0 <= k < j - i implies ws_pred()(#[trigger] t[k]) by {
                assert(t[k] == v@[k + i]);
            }
            if j < n {
                assert(t[j - i] == v@[j as int]);
            }
            lemma_prefix_len_is(t, ws_pred(), j - i);
            assert(trim_start(t) =~= v@.skip(j as int));
        }
        if j == n {
            proof {
                assert(words(t) == Seq::<Seq<char>>::empty());
                assert(words(v@.skip(n as int)) == Seq::<Seq<char>>::empty());
                assert(v@.skip(n as int) =~= Seq::<char>::empty());
            }
            i = n;
        } else {
            let mut k: usize = j;
            while k < n && !is_whitespace_char(v[k])
                invariant
                    j <= k <= n == v@.len(),
                    forall|m: int| j <= m < k ==> !is_ws(#[trigger] v@[m]),
                decreases n - k,
            {
                k = k + 1;
            }
            let w = substring(s, j, k);
            let ghost u = v@.skip(j as int);
            proof {
                assert forall|m: int| 0 <= m < k - j implies non_ws_pred()(#[trigger] u[m]) by {
                    assert(u[m] == v@[m + j]);
                }
                if k < n {
                    assert(u[k - j] == v@[k as int]);
                }
                lemma_prefix_len_is(u, non_ws_pred(), k - j);
                assert(u.take(k - j) =~= w@);
                assert(u.skip(k - j) =~= v@.skip(k as int));
                assert(words(t) == seq![w@] + words(v@.skip(k as int)));
            }
            let ghost old_res = res.deep_view();
            res.push(w);
            proof {
                assert(res.deep_view() =~= old_res.push(w@));
                assert(old_res + (seq![w@] + words(v@.skip(k as int))) =~= old_res.push(w@)
                    + words(v@.skip(k as int)));
            }
            i = k;
        }
    }
    proof {
        assert(v@.skip(n as int) =~= Seq::<char>::empty());
        assert(res.deep_view() + Seq::<Seq<char>>::empty() =~= res.deep_view());
    }
    res
}

/// The lines of `s`.
pub fn split_lines(s: &str) -> (r: Vec<String>)
    ensures
        r.deep_view() == lines(s@),
{
    let v = chars_of(s);
    let n = v.len();
    let mut res: Vec<String> = Vec::new();
    let mut i: usize = 0;
    assert(v@.skip(0) =~= v@);
    assert(res.deep_view() + lines(v@) =~= lines(v@));
    while i < n
        invariant
            i <= n == v@.len(),
            v@ == s@,
            lines(v@) == res.deep_view() + lines(v@.skip(i as int)),
        decreases n - i,
    {
        let mut k: usize = i;
        while k < n && v[k] != '\n'
            invariant
                i <= k <= n == v@.len(),
                forall|m: int| i <= m < k ==> #[trigger] v@[m] != '\n',
            decreases n - k,
        {
            k = k + 1;
        }
        let ghost t = v@.skip(i as int);
        proof {
            assert forall|m: int| 0 <= m < k - i implies not_newline_pred()(#[trigger] t[m]) by {
                assert(t[m] == v@[m + i]);
            }
            if k < n {
                assert(t[k - i] == v@[k as int]);
            }
            lemma_prefix_len_is(t, not_newline_pred(), k - i);
        }
        let ghost old_res = res.deep_view();
        if k < n {
            let mut e = k;
            if e > i && v[e - 1] == '\r' {
                e = e - 1;
            }
            let line = substring(s, i, e);
            proof {
                assert(strip_cr(t.take(k - i)) =~= line@);
                assert(t.skip(k - i + 1) =~= v@.skip(k + 1));
            }
            res.push(line);
            proof {
                assert(res.deep_view() =~= old_res.push(line@));
                assert(old_res + (seq![line@] + lines(v@.skip(k + 1))) =~= old_res.push(line@)
                    + lines(v@.skip(k + 1)));
            }
            i = k + 1;
        } else {
            let line = substring(s, i, n);
            proof {
                assert(t =~= line@);
            }
            res.push(line);
            proof {
                assert(res.deep_view() =~= old_res.push(line@));
                assert(v@.skip(n as int) =~= Seq::<char>::empty());
                assert(old_res + seq![line@] =~= old_res.push(line@) + lines(
                    v@.skip(n as int),
                ));
            }
            i = n;
        }
    }
    proof {
        assert(v@.skip(n as int) =~= Seq::<char>::empty());
        assert(res.deep_view() + Seq::<Seq<char>>::empty() =~= res.deep_view());
    }
    res
}

/// The elements of `ws` in order, with `sep` between each two.
pub open spec fn join_with(ws: Seq<Seq<char>>, sep: Seq<char>) -> Seq<char>
    decreases ws.len(),
{
    if ws.len() == 0 {
        Seq::empty()
    } else if ws.len() == 1 {
        ws[0]
    } else {
        join_with(ws.drop_last(), sep) + sep + ws.last()
    }
}

/// The texts of `list` from position `from` on, with `sep` between each two.
pub fn join_strings_from(list: &Vec<String>, from: usize, sep: &str) -> (r: String)
    requires
        from <= list@.len(),
    ensures
        r@ == join_with(list.deep_view().skip(from as int), sep@),
{
    let ghost dv = list.deep_view().skip(from as int);
    let mut res = String::new();
    let mut i: usize = from;
    assert(dv.take(0) =~= Seq::<Seq<char>>::empty());
    while i < list.len()
        invariant
            from <= i <= list@.len(),
            dv == list.deep_view().skip(from as int),
            res@ == join_with(dv.take(i - from), sep@),
        decreases list.len() - i,
    {
        let ghost k = i - from;
        assert(dv.take(k + 1).drop_last() =~= dv.take(k));
        assert(dv[k] == list@[i as int]@);
        if i > from {
            res.append(sep);
        }
        res.append(list[i].as_str());
        i = i + 1;
    }
    assert(dv.take(dv.len() as int) =~= dv);
    res
}

/// The texts of `list`, with `sep` between each two.
pub fn join_strings(list: &Vec<String>, sep: &str) -> (r: String)
    ensures
        r@ == join_with(list.deep_view(), sep@),
{
    assert(list.deep_view().skip(0) =~= list.deep_view());
    join_strings_from(list, 0, sep)
}

} // verus!
