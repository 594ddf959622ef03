//! What the tool records and shows of an environment: the list of
//! installed packages, its one-line summary, the table of environments,
//! and names listed in order.
use vstd::prelude::*;
use vstd::seq_lib::to_multiset_insert;
use crate::text::{chars_of, join_strings, join_with};

verus! {

/// The recorded packages after recording `new`: each package of `new`
/// that is not yet there is appended, in the order of `new`.
pub open spec fn merged(existing: Seq<Seq<char>>, new: Seq<Seq<char>>) -> Seq<Seq<char>>
    decreases new.len(),
{
    if new.len() == 0 {
        existing
    } else {
        let m = merged(existing, new.drop_last());
        if m.contains(new.last()) {
            m
        } else {
            m.push(new.last())
        }
    }
}

/// Records the installation of `packages` in the list `recorded`.
pub fn record_packages(recorded: &mut Vec<String>, packages: &Vec<String>)
    ensures
        final(recorded).deep_view() == merged(old(recorded).deep_view(), packages.deep_view()),
{
    let ghost start = recorded.deep_view();
    let ghost pv = packages.deep_view();
    let mut i: usize = 0;
    assert(pv.take(0) =~= Seq::<Seq<char>>::empty());
    while i < packages.len()
        invariant
            i <= packages@.len(),
            pv == packages.deep_view(),
            recorded.deep_view() == merged(start, pv.take(i as int)),
        decreases packages.len() - i,
    {
        assert(pv.take(i + 1).drop_last() =~= pv.take(i as int));
        assert(pv.take(i + 1).last() == pv[i as int]);
        assert(pv[i as int] == packages@[i as int]@);
        crate::pkgtools::push_unique(recorded, packages[i].clone());
        i = i + 1;
    }
    assert(pv.take(packages@.len() as int) =~= pv);
}

/// Recording keeps what was recorded, first and in its order.
pub proof fn lemma_merged_keeps_prefix(existing: Seq<Seq<char>>, new: Seq<Seq<char>>)
    ensures
        existing.is_prefix_of(merged(existing, new)),
    decreases new.len(),
{
    if new.len() > 0 {
        lemma_merged_keeps_prefix(existing, new.drop_last());
        let m = merged(existing, new.drop_last());
        assert(m.push(new.last()).subrange(0, existing.len() as int) =~= m.subrange(
            0,
            existing.len() as int,
        ));
    }
}

/// After recording, the list holds exactly what was recorded before and
/// the packages recorded now.
pub proof fn lemma_merged_contents(existing: Seq<Seq<char>>, new: Seq<Seq<char>>, x: Seq<char>)
    ensures
        merged(existing, new).contains(x) <==> (existing.contains(x) || new.contains(x)),
    decreases new.len(),
{
    if new.len() > 0 {
        let m = merged(existing, new.drop_last());
        lemma_merged_contents(existing, new.drop_last(), x);
        crate::pkgtools::lemma_contains_push(m, new.last(), x);
        crate::pkgtools::lemma_contains_push(new.drop_last(), new.last(), x);
        assert(new.drop_last().push(new.last()) =~= new);
    }
}

/// A list without repetitions stays without repetitions.
pub proof fn lemma_merged_no_duplicates(existing: Seq<Seq<char>>, new: Seq<Seq<char>>)
    requires
        existing.no_duplicates(),
    ensures
        merged(existing, new).no_duplicates(),
    decreases new.len(),
{
    if new.len() > 0 {
        lemma_merged_no_duplicates(existing, new.drop_last());
        let m = merged(existing, new.drop_last());
        if !m.contains(new.last()) {
            crate::pkgtools::lemma_push_no_dup(m, new.last());
        }
    }
}

/// Recording packages that are already recorded changes nothing.
pub proof fn lemma_merged_recorded(existing: Seq<Seq<char>>, new: Seq<Seq<char>>)
    requires
        forall|i: int| 0 <= i < new.len() ==> existing.contains(#[trigger] new[i]),
    ensures
        merged(existing, new) == existing,
    decreases new.len(),
{
    if new.len() > 0 {
        assert forall|i: int| 0 <= i < new.drop_last().len() implies existing.contains(
            #[trigger] new.drop_last()[i],
        ) by {
            assert(new.drop_last()[i] == new[i]);
        }
        lemma_merged_recorded(existing, new.drop_last());
        assert(existing.contains(new[new.len() - 1]));
    }
}

/// Recording the same packages a second time changes nothing.
pub proof fn lemma_record_twice(existing: Seq<Seq<char>>, new: Seq<Seq<char>>)
    ensures
        merged(merged(existing, new), new) == merged(existing, new),
{
    let m = merged(existing, new);
    assert forall|i: int| 0 <= i < new.len() implies m.contains(#[trigger] new[i]) by {
        lemma_merged_contents(existing, new, new[i]);
        assert(new.contains(new[i]));
    }
    lemma_merged_recorded(m, new);
}

/// The one-line summary of a list: `yok` ("none") when empty, else the
/// items separated by `, `.
pub open spec fn list_summary(items: Seq<Seq<char>>) -> Seq<char> {
    if items.len() == 0 {
        "yok"@
    } else {
        join_with(items, ", "@)
    }
}

/// Summarises a list of packages or shortcuts for display.
pub fn summarize_list(items: &Vec<String>) -> (r: String)
    ensures
        r@ == list_summary(items.deep_view()),
{
    if items.len() == 0 {
        String::from_str("yok")
    } else {
        join_strings(items, ", ")
    }
}

/// `n` copies of `unit`, one after the other.
pub open spec fn repeat_seq(unit: Seq<char>, n: nat) -> Seq<char>
    decreases n,
{
    if n == 0 {
        Seq::empty()
    } else {
        repeat_seq(unit, (n - 1) as nat) + unit
    }
}

/// A text of `n` copies of `unit`.
pub fn repeat_text(unit: &str, n: usize) -> (r: String)
    ensures
        r@ == repeat_seq(unit@, n as nat),
{
    let mut r = String::new();
    let mut i: usize = 0;
    while i < n
        invariant
            i <= n,
            r@ == repeat_seq(unit@, i as nat),
        decreases n - i,
    {
        r.append(unit);
        i = i + 1;
    }
    r
}

/// `s` padded with spaces on the right to at least `width` characters.
pub open spec fn pad_right(s: Seq<char>, width: nat) -> Seq<char> {
    if s.len() >= width {
        s
    } else {
        s + repeat_seq(" "@, (width - s.len()) as nat)
    }
}

/// A row of the environment table: the name in a column of 20 characters
/// and the packages in one of 40, separated by ` | `.
pub open spec fn table_row(name: Seq<char>, packages: Seq<char>) -> Seq<char> {
    pad_right(name, 20) + " | "@ + pad_right(packages, 40)
}

fn padded(s: &str, width: usize) -> (r: String)
    ensures
        r@ == pad_right(s@, width as nat),
{
    let n = chars_of(s).len();
    let mut r = String::from_str(s);
    if n < width {
        let pad = repeat_text(" ", width - n);
        r.append(pad.as_str());
    }
    r
}

/// Formats one row of the environment table.
pub fn format_table_row(name: &str, packages: &str) -> (r: String)
    ensures
        r@ == table_row(name@, packages@),
{
    let mut r = padded(name, 20);
    r.append(" | ");
    let p = padded(packages, 40);
    r.append(p.as_str());
    r
}

/// Text order: character by character, a proper prefix first.
pub open spec fn text_le(a: Seq<char>, b: Seq<char>) -> bool
    decreases a.len(),
{
    if a.len() == 0 {
        true
    } else if b.len() == 0 {
        false
    } else if a[0] != b[0] {
        a[0] < b[0]
    } else {
        text_le(a.drop_first(), b.drop_first())
    }
}

pub proof fn lemma_text_le_total(a: Seq<char>, b: Seq<char>)
    ensures
        text_le(a, b) || text_le(b, a),
    decreases a.len(),
{
    if a.len() > 0 && b.len() > 0 && a[0] == b[0] {
        lemma_text_le_total(a.drop_first(), b.drop_first());
    }
}

pub proof fn lemma_text_le_trans(a: Seq<char>, b: Seq<char>, c: Seq<char>)
    requires
        text_le(a, b),
        text_le(b, c),
    ensures
        text_le(a, c),
    decreases a.len(),
{
    if a.len() > 0 && b.len() > 0 && c.len() > 0 && a[0] == b[0] && b[0] == c[0] {
        lemma_text_le_trans(a.drop_first(), b.drop_first(), c.drop_first());
    }
}

pub proof fn lemma_text_le_antisym(a: Seq<char>, b: Seq<char>)
    requires
        text_le(a, b),
        text_le(b, a),
    ensures
        a == b,
    decreases a.len(),
{
    if a.len() > 0 && b.len() > 0 {
        lemma_text_le_antisym(a.drop_first(), b.drop_first());
        assert(a =~= seq![a[0]] + a.drop_first());
        assert(b =~= seq![b[0]] + b.drop_first());
    } else {
        assert(a =~= b);
    }
}

/// Whether `a` comes before or with `b` in text order.
pub fn text_before(a: &str, b: &str) -> (r: bool)
    ensures
        r == text_le(a@, b@),
{
    let av = chars_of(a);
    let bv = chars_of(b);
    let mut i: usize = 0;
    assert(av@.skip(0) =~= av@);
    assert(bv@.skip(0) =~= bv@);
    while i < av.len() && i < bv.len() && av[i] == bv[i]
        invariant
            i <= av@.len(),
            i <= bv@.len(),
            forall|j: int| 0 <= j < i ==> av@[j] == bv@[j],
            text_le(av@, bv@) == text_le(av@.skip(i as int), bv@.skip(i as int)),
        decreases av.len() - i,
    {
        assert(av@.skip(i as int).drop_first() =~= av@.skip(i + 1));
        assert(bv@.skip(i as int).drop_first() =~= bv@.skip(i + 1));
        i = i + 1;
    }
    assert(av@.skip(0) =~= av@);
    assert(bv@.skip(0) =~= bv@);
    if i == av.len() {
        true
    } else if i == bv.len() {
        false
    } else {
        av[i] < bv[i]
    }
}

/// The list is in text order.
pub open spec fn sorted_texts(s: Seq<Seq<char>>) -> bool {
    forall|i: int, j: int| 0 <= i < j < s.len() ==> text_le(#[trigger] s[i], #[trigger] s[j])
}

/// `names` in text order (the order of `str`'s comparison).
pub fn sort_names(names: Vec<String>) -> (r: Vec<String>)
    ensures
        sorted_texts(r.deep_view()),
        r.deep_view().to_multiset() == names.deep_view().to_multiset(),
{
    let mut res: Vec<String> = Vec::new();
    let mut i: usize = 0;
    assert(names.deep_view().take(0) =~= Seq::<Seq<char>>::empty());
    assert(res.deep_view() =~= names.deep_view().take(0));
    while i < names.len()
        invariant
            i <= names@.len(),
            sorted_texts(res.deep_view()),
            res.deep_view().to_multiset() == names.deep_view().take(i as int).to_multiset(),
        decreases names.len() - i,
    {
        let x = names[i].clone();
        let mut p: usize = 0;
        while p < res.len() && !text_before(x.as_str(), res[p].as_str())
            invariant
                p <= res@.len(),
                forall|k: int| 0 <= k < p ==> text_le(#[trigger] res.deep_view()[k], x@),
            decreases res.len() - p,
        {
            proof {
                assert(res.deep_view()[p as int] == res@[p as int]@);
                lemma_text_le_total(x@, res@[p as int]@);
            }
            p = p + 1;
        }
        let ghost before = res.deep_view();
        proof {
            if p < res.len() {
                assert(before[p as int] == res@[p as int]@);
            }
        }
        res.insert(p, x);
        proof {
            let after = res.deep_view();
            assert(after =~= before.insert(p as int, x@));
            assert forall|a: int, b: int| 0 <= a < b < after.len() implies text_le(
                #[trigger] after[a],
                #[trigger] after[b],
            ) by {
                if b < p {
                    assert(after[a] == before[a] && after[b] == before[b]);
                } else if b == p {
                    assert(after[a] == before[a]);
                } else if a == p {
                    assert(after[b] == before[b - 1]);
                    if b - 1 > p {
                        assert(text_le(before[p as int], before[b - 1]));
                        lemma_text_le_trans(x@, before[p as int], before[b - 1]);
                    }
                } else if a < p {
                    assert(after[a] == before[a] && after[b] == before[b - 1]);
                    if b - 1 >= p {
                        lemma_text_le_trans(before[a], x@, before[p as int]);
                        if b - 1 > p {
                            lemma_text_le_trans(before[a], before[p as int], before[b - 1]);
                        }
                    }
                } else {
                    assert(after[a] == before[a - 1] && after[b] == before[b - 1]);
                }
            }
            to_multiset_insert(before, p as int, x@);
            let nv = names.deep_view();
            assert(nv[i as int] == names@[i as int]@);
            assert(nv.take(i + 1) =~= nv.take(i as int).push(nv[i as int]));
            nv.take(i as int).to_multiset_ensures();
        }
        i = i + 1;
    }
    assert(names.deep_view().take(names@.len() as int) =~= names.deep_view());
    res
}

} // verus!
