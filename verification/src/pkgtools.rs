//! Reading what the host's tools print: the package manager in use, the
//! dependency and download listings of apt and pacman, the package that
//! provides a missing library, and the NVIDIA driver version.
use vstd::prelude::*;
use crate::text::{
    chars_of, contains_str, same_text, contains_sub, ends_with, find_str, find_sub, lemma_find_sub_occurs, lines,
    split_lines, split_words, starts_with, substring, trim, trim_str, words,
};

verus! {

/// The host package manager whose repositories fill an environment.
#[derive(Clone, Copy, Debug, PartialEq, Eq, Structural)]
pub enum PackageManager {
    Dnf,
    Apt,
    Pacman,
}

/// The package manager to use, given which of `dnf`, `apt-get` and
/// `pacman` could be started: the first that runs, in that order, and
/// DNF when none does.
pub fn choose_package_manager(dnf_runs: bool, apt_runs: bool, pacman_runs: bool) -> (pm:
    PackageManager)
    ensures
        pm == (if dnf_runs {
            PackageManager::Dnf
        } else if apt_runs {
            PackageManager::Apt
        } else if pacman_runs {
            PackageManager::Pacman
        } else {
            PackageManager::Dnf
        }),
{
    if dnf_runs {
        PackageManager::Dnf
    } else if apt_runs {
        PackageManager::Apt
    } else if pacman_runs {
        PackageManager::Pacman
    } else {
        PackageManager::Dnf
    }
}

/// The display name of a package manager.
pub fn package_manager_name(pm: PackageManager) -> (r: &'static str)
    ensures
        r@ == match pm {
            PackageManager::Dnf => "DNF"@,
            PackageManager::Apt => "APT"@,
            PackageManager::Pacman => "Pacman"@,
        },
{
    match pm {
        PackageManager::Dnf => "DNF",
        PackageManager::Apt => "APT",
        PackageManager::Pacman => "Pacman",
    }
}

/// The first `Some` that `f` gives on the elements of `s`, in order.
pub open spec fn first_some<A, B>(s: Seq<A>, f: spec_fn(A) -> Option<B>) -> Option<B>
    decreases s.len(),
{
    if s.len() == 0 {
        None
    } else if f(s[0]) is Some {
        f(s[0])
    } else {
        first_some(s.drop_first(), f)
    }
}

/// Elements before `i` give `None`: the search may start at `i`.
pub proof fn lemma_first_some_skip<A, B>(s: Seq<A>, f: spec_fn(A) -> Option<B>, i: int)
    requires
        0 <= i <= s.len(),
        forall|j: int| 0 <= j < i ==> f(#[trigger] s[j]) is None,
    ensures
        first_some(s, f) == first_some(s.skip(i), f),
    decreases i,
{
    if i > 0 {
        let t = s.drop_first();
        assert forall|j: int| 0 <= j < i - 1 implies f(#[trigger] t[j]) is None by {
            assert(t[j] == s[j + 1]);
        }
        lemma_first_some_skip(t, f, i - 1);
        assert(t.skip(i - 1) =~= s.skip(i));
    } else {
        assert(s.skip(0) =~= s);
    }
}

/// One more element for a `filter_map` over a growing prefix.
pub proof fn lemma_filter_map_take_step<A, B>(s: Seq<A>, f: spec_fn(A) -> Option<B>, i: int)
    requires
        0 <= i < s.len(),
    ensures
        s.take(i + 1).filter_map(f) == match f(s[i]) {
            Some(x) => s.take(i).filter_map(f).push(x),
            None => s.take(i).filter_map(f),
        },
{
    assert(s.take(i + 1).drop_last() =~= s.take(i));
    assert(s.take(i + 1).last() == s[i]);
    match f(s[i]) {
        Some(x) => {
            assert(s.take(i).filter_map(f) + seq![x] =~= s.take(i).filter_map(f).push(x));
        },
        None => {},
    }
}

/// An element that `f` maps to `Some` leaves its value in the
/// `filter_map`.
pub proof fn lemma_filter_map_keeps<A, B>(s: Seq<A>, f: spec_fn(A) -> Option<B>, i: int)
    requires
        0 <= i < s.len(),
        f(s[i]) is Some,
    ensures
        s.filter_map(f).contains(f(s[i])->0),
    decreases s.len(),
{
    lemma_filter_map_take_step(s, f, s.len() - 1);
    assert(s.take(s.len() as int) =~= s);
    let init = s.take(s.len() - 1);
    if i == s.len() - 1 {
        let k = init.filter_map(f).len() as int;
        assert(s.filter_map(f)[k] == f(s[i])->0);
    } else {
        assert(init[i] == s[i]);
        lemma_filter_map_keeps(init, f, i);
        let j = choose|j: int| 0 <= j < init.filter_map(f).len() && init.filter_map(f)[j] == f(
            s[i],
        )->0;
        assert(s.filter_map(f)[j] == f(s[i])->0);
    }
}

/// `first_some` gives the value of the first element that `f` maps to
/// `Some`, and `None` exactly when there is none.
pub proof fn lemma_first_some_spec<A, B>(s: Seq<A>, f: spec_fn(A) -> Option<B>)
    ensures
        first_some(s, f) is None <==> forall|i: int| 0 <= i < s.len() ==> f(#[trigger] s[i]) is None,
        first_some(s, f) matches Some(x) ==> exists|j: int|
            0 <= j < s.len() && f(#[trigger] s[j]) == Some(x) && forall|k: int|
                0 <= k < j ==> f(#[trigger] s[k]) is None,
    decreases s.len(),
{
    if s.len() > 0 {
        let t = s.drop_first();
        lemma_first_some_spec(t, f);
        assert forall|i: int| 0 < i < s.len() implies s[i] == t[i - 1] by {}
        if f(s[0]) is None {
            if first_some(t, f) is None {
                assert forall|i: int| 0 <= i < s.len() implies f(#[trigger] s[i]) is None by {
                    if i > 0 {
                        assert(f(t[i - 1]) is None);
                    }
                }
            } else {
                let x = first_some(t, f)->0;
                let j = choose|j: int|
                    0 <= j < t.len() && f(#[trigger] t[j]) == Some(x) && forall|k: int|
                        0 <= k < j ==> f(#[trigger] t[k]) is None;
                assert(f(s[j + 1]) == Some(x));
                assert forall|k: int| 0 <= k < j + 1 implies f(#[trigger] s[k]) is None by {
                    if k > 0 {
                        assert(f(t[k - 1]) is None);
                    }
                }
                assert(!(f(s[j + 1]) is None));
            }
        } else {
            assert(f(s[0]) == Some(first_some(s, f)->0));
        }
    }
}

pub open spec fn missing_library_marker() -> Seq<char> {
    "error while loading shared libraries: "@
}

/// The library named in a dynamic loader's "error while loading shared
/// libraries: NAME: ..." message: the text between the first such marker
/// and the next colon, trimmed; none without marker or colon.
pub open spec fn missing_library(s: Seq<char>) -> Option<Seq<char>> {
    let m = missing_library_marker();
    match find_sub(s, m) {
        Some(i) => {
            let rest = s.skip(i + m.len());
            match find_sub(rest, ":"@) {
                Some(c) => Some(trim(rest.take(c))),
                None => None,
            }
        },
        None => None,
    }
}

/// Output that follows does not change the library that a loader's
/// message names: once the message is complete, more text leaves it.
pub proof fn lemma_missing_library_append(s: Seq<char>, t: Seq<char>)
    requires
        missing_library(s) is Some,
    ensures
        missing_library(s + t) == missing_library(s),
{
    let m = missing_library_marker();
    crate::text::lemma_find_sub_append(s, t, m);
    let i = find_sub(s, m)->0;
    crate::text::lemma_find_sub_occurs(s, m);
    let rest = s.skip(i + m.len());
    assert((s + t).skip(i + m.len()) =~= rest + t);
    crate::text::lemma_find_sub_append(rest, t, ":"@);
    let c = find_sub(rest, ":"@)->0;
    crate::text::lemma_find_sub_occurs(rest, ":"@);
    assert((rest + t).take(c) =~= rest.take(c));
}

/// The shared library that a failed program could not load, read from
/// its error output.
pub fn parse_missing_library(stderr: &str) -> (r: Option<String>)
    ensures
        r.deep_view() == missing_library(stderr@),
{
    let marker = "error while loading shared libraries: ";
    let n = chars_of(stderr).len();
    let m = chars_of(marker).len();
    match find_str(stderr, marker) {
        Some(idx) => {
            proof {
                lemma_find_sub_occurs(stderr@, marker@);
            }
            let rest = substring(stderr, idx + m, n);
            assert(rest@ == stderr@.skip(idx + marker@.len()));
            match find_str(&rest, ":") {
                Some(c) => {
                    proof {
                        lemma_find_sub_occurs(rest@, ":"@);
                    }
                    let head = substring(&rest, 0, c);
                    assert(head@ == rest@.take(c as int));
                    Some(trim_str(&head))
                },
                None => None,
            }
        },
        None => None,
    }
}

/// A kernel driver version token: digits and dots, with at least one dot.
pub open spec fn is_version_token(w: Seq<char>) -> bool {
    w.contains('.') && forall|j: int| 0 <= j < w.len() ==> ('0' <= #[trigger] w[j] <= '9' || w[j]
        == '.')
}

pub open spec fn version_token(w: Seq<char>) -> Option<Seq<char>> {
    if is_version_token(w) {
        Some(w)
    } else {
        None
    }
}

/// The first version token among the words of the driver's version report.
pub open spec fn nvidia_version(content: Seq<char>) -> Option<Seq<char>> {
    first_some(words(content), |w: Seq<char>| version_token(w))
}

fn is_version_word(w: &String) -> (r: bool)
    ensures
        r == is_version_token(w@),
{
    let v = chars_of(w.as_str());
    let mut has_dot = false;
    let mut i: usize = 0;
    while i < v.len()
        invariant
            i <= v@.len(),
            v@ == w@,
            has_dot == (exists|j: int| 0 <= j < i && v@[j] == '.'),
            forall|j: int| 0 <= j < i ==> ('0' <= #[trigger] v@[j] <= '9' || v@[j] == '.'),
        decreases v.len() - i,
    {
        let c = v[i];
        if !(('0' <= c && c <= '9') || c == '.') {
            return false;
        }
        if c == '.' {
            has_dot = true;
        }
        i = i + 1;
    }
    proof {
        if has_dot {
            let j = choose|j: int| 0 <= j < i && v@[j] == '.';
            assert(w@[j] == '.');
        } else {
            assert forall|j: int| 0 <= j < w@.len() implies w@[j] != '.' by {
                assert(v@[j] == w@[j]);
            }
        }
    }
    has_dot
}

/// The driver version that the kernel module reports, read from the text
/// of its version file.
pub fn parse_nvidia_version(content: &str) -> (r: Option<String>)
    ensures
        r.deep_view() == nvidia_version(content@),
{
    let ws = split_words(content);
    let ghost f = |w: Seq<char>| version_token(w);
    let mut i: usize = 0;
    while i < ws.len()
        invariant
            i <= ws@.len(),
            ws.deep_view() == words(content@),
            f == (|w: Seq<char>| version_token(w)),
            forall|j: int| 0 <= j < i ==> f(#[trigger] ws.deep_view()[j]) is None,
        decreases ws.len() - i,
    {
        assert(ws.deep_view()[i as int] == ws@[i as int]@);
        if is_version_word(&ws[i]) {
            proof {
                lemma_first_some_skip(ws.deep_view(), f, i as int);
                assert(ws.deep_view().skip(i as int)[0] == ws@[i as int]@);
            }
            return Some(ws[i].clone());
        }
        i = i + 1;
    }
    proof {
        lemma_first_some_skip(ws.deep_view(), f, i as int);
    }
    None
}

pub open spec fn nvidia_lib_prefix() -> Seq<char> {
    "libGLX_nvidia.so."@
}

/// The version part of an NVIDIA GLX library file name.
pub open spec fn nvidia_lib_version(name: Seq<char>) -> Option<Seq<char>> {
    if nvidia_lib_prefix().is_prefix_of(name) {
        Some(name.skip(nvidia_lib_prefix().len() as int))
    } else {
        None
    }
}

/// The versions of the NVIDIA GLX libraries among `names`, in order.
pub open spec fn nvidia_lib_versions(names: Seq<Seq<char>>) -> Seq<Seq<char>> {
    names.filter_map(|n: Seq<char>| nvidia_lib_version(n))
}

/// Whether an environment's NVIDIA libraries need replacing: some are
/// present and none has the kernel driver's version. The answer is the
/// version of the last such library.
pub open spec fn nvidia_mismatch(names: Seq<Seq<char>>, kernel: Seq<char>) -> Option<Seq<char>> {
    let vs = nvidia_lib_versions(names);
    if vs.len() > 0 && !vs.contains(kernel) {
        Some(vs.last())
    } else {
        None
    }
}

/// Libraries are replaced exactly when the environment has NVIDIA GLX
/// libraries and none of them is the kernel driver's version, whatever
/// their order: a library `libGLX_nvidia.so.KERNEL` among `names` means
/// no mismatch, and a reported version is that of one of the libraries
/// and differs from the kernel's.
pub proof fn lemma_nvidia_mismatch_law(names: Seq<Seq<char>>, kernel: Seq<char>)
    ensures
        (exists|i: int| 0 <= i < names.len() && #[trigger] names[i] == nvidia_lib_prefix() + kernel)
            ==> nvidia_mismatch(names, kernel) is None,
        (forall|i: int|
            0 <= i < names.len() ==> !nvidia_lib_prefix().is_prefix_of(#[trigger] names[i]))
            ==> nvidia_mismatch(names, kernel) is None,
        ((exists|i: int|
            0 <= i < names.len() && nvidia_lib_prefix().is_prefix_of(#[trigger] names[i])) && (
        forall|i: int| 0 <= i < names.len() ==> #[trigger] names[i] != nvidia_lib_prefix() + kernel))
            ==> nvidia_mismatch(names, kernel) is Some,
        nvidia_mismatch(names, kernel) matches Some(v) ==> v != kernel && names.contains(
            nvidia_lib_prefix() + v,
        ),
{
    let p = nvidia_lib_prefix();
    let f = |n: Seq<char>| nvidia_lib_version(n);
    let vs = nvidia_lib_versions(names);
    assert forall|n: Seq<char>| #[trigger] f(n) is Some implies n == p + f(n)->0 by {
        assert(n =~= p + n.skip(p.len() as int));
    }
    assert forall|v: Seq<char>| #[trigger] f(p + v) == Some(v) by {
        assert((p + v).subrange(0, p.len() as int) =~= p);
        assert((p + v).skip(p.len() as int) =~= v);
    }
    if exists|i: int| 0 <= i < names.len() && #[trigger] names[i] == p + kernel {
        let i = choose|i: int| 0 <= i < names.len() && #[trigger] names[i] == p + kernel;
        assert(f(names[i]) == Some(kernel));
        lemma_filter_map_keeps(names, f, i);
    }
    if exists|i: int| 0 <= i < names.len() && p.is_prefix_of(#[trigger] names[i]) {
        let i = choose|i: int| 0 <= i < names.len() && p.is_prefix_of(#[trigger] names[i]);
        assert(f(names[i]) is Some);
        lemma_filter_map_keeps(names, f, i);
        assert(vs.len() > 0);
    }
    if vs.len() > 0 {
        assert(vs.contains(vs.last()));
        names.lemma_filter_map_contains(f, vs.last());
        let t = choose|t: Seq<char>| #[trigger] names.contains(t) && f(t) == Some(vs.last());
        assert(t == p + vs.last());
        if forall|i: int|
            0 <= i < names.len() ==> !nvidia_lib_prefix().is_prefix_of(#[trigger] names[i]) {
            let j = choose|j: int| 0 <= j < names.len() && names[j] == t;
            assert(!p.is_prefix_of(names[j]));
        }
        if vs.contains(kernel) {
            names.lemma_filter_map_contains(f, kernel);
            let u = choose|u: Seq<char>| #[trigger] names.contains(u) && f(u) == Some(kernel);
            assert(u == p + kernel);
            let j = choose|j: int| 0 <= j < names.len() && names[j] == u;
            assert(names[j] == p + kernel);
        }
    }
}

/// Compares an environment's NVIDIA library file names with the kernel
/// driver version; some version found when they disagree.
pub fn nvidia_library_mismatch(names: &Vec<String>, kernel_version: &str) -> (r: Option<String>)
    ensures
        r.deep_view() == nvidia_mismatch(names.deep_view(), kernel_version@),
{
    let prefix = "libGLX_nvidia.so.";
    let plen = chars_of(prefix).len();
    let ghost f = |n: Seq<char>| nvidia_lib_version(n);
    let ghost ns = names.deep_view();
    let mut has_lib = false;
    let mut matches = false;
    let mut found = String::new();
    let mut i: usize = 0;
    while i < names.len()
        invariant
            i <= names@.len(),
            ns == names.deep_view(),
            plen == prefix@.len(),
            f == (|n: Seq<char>| nvidia_lib_version(n)),
            prefix@ == nvidia_lib_prefix(),
            has_lib == (ns.take(i as int).filter_map(f).len() > 0),
            matches == ns.take(i as int).filter_map(f).contains(kernel_version@),
            has_lib && !matches ==> found@ == ns.take(i as int).filter_map(f).last(),
        decreases names.len() - i,
    {
        let name = &names[i];
        assert(ns[i as int] == name@);
        proof {
            lemma_filter_map_take_step(ns, f, i as int);
        }
        let ghost before = ns.take(i as int).filter_map(f);
        if starts_with(name.as_str(), prefix) {
            let ver = substring(name.as_str(), plen, chars_of(name.as_str()).len());
            assert(f(ns[i as int]) == Some(ver@));
            proof {
                lemma_contains_push(before, ver@, kernel_version@);
            }
            has_lib = true;
            if same_text(ver.as_str(), kernel_version) {
                matches = true;
            } else {
                found = ver;
            }
        }
        i = i + 1;
    }
    assert(ns.take(names@.len() as int) =~= ns);
    if has_lib && !matches {
        Some(found)
    } else {
        None
    }
}

/// The dependency that one line of `apt-cache depends` names: a
/// `Depends:` or `PreDepends:` line, its second word, unless that is a
/// virtual package written in angle brackets.
pub open spec fn apt_dependency_of_line(line: Seq<char>) -> Option<Seq<char>> {
    let t = trim(line);
    let parts = words(t);
    if ("Depends:"@.is_prefix_of(t) || "PreDepends:"@.is_prefix_of(t)) && parts.len() >= 2 && !seq![
        '<',
    ].is_prefix_of(parts[1]) && !seq!['>'].is_suffix_of(parts[1]) {
        Some(parts[1])
    } else {
        None
    }
}

/// The dependencies named in the output of `apt-cache depends`, in order.
pub open spec fn apt_dependencies(output: Seq<char>) -> Seq<Seq<char>> {
    lines(output).filter_map(|l: Seq<char>| apt_dependency_of_line(l))
}

fn apt_line_dependency(line: &String) -> (r: Option<String>)
    ensures
        r.deep_view() == apt_dependency_of_line(line@),
{
    let t = trim_str(line.as_str());
    if starts_with(t.as_str(), "Depends:") || starts_with(t.as_str(), "PreDepends:") {
        let parts = split_words(t.as_str());
        if parts.len() >= 2 {
            assert(parts.deep_view()[1] == parts@[1]@);
            let dep = &parts[1];
            if !starts_with(dep.as_str(), "<") && !ends_with(dep.as_str(), ">") {
                proof {
                    reveal_strlit("<");
                    reveal_strlit(">");
                }
                return Some(dep.clone());
            }
            proof {
                reveal_strlit("<");
                reveal_strlit(">");
            }
        }
    }
    None
}

/// The dependencies that a listing of `apt-cache depends` names.
pub fn parse_apt_dependencies(output: &str) -> (r: Vec<String>)
    ensures
        r.deep_view() == apt_dependencies(output@),
{
    let ls = split_lines(output);
    let ghost f = |l: Seq<char>| apt_dependency_of_line(l);
    let ghost lv = ls.deep_view();
    let mut res: Vec<String> = Vec::new();
    let mut i: usize = 0;
    while i < ls.len()
        invariant
            i <= ls@.len(),
            lv == ls.deep_view(),
            lv == lines(output@),
            f == (|l: Seq<char>| apt_dependency_of_line(l)),
            res.deep_view() == lv.take(i as int).filter_map(f),
        decreases ls.len() - i,
    {
        proof {
            lemma_filter_map_take_step(lv, f, i as int);
        }
        assert(lv[i as int] == ls@[i as int]@);
        match apt_line_dependency(&ls[i]) {
            Some(d) => {
                let ghost old_res = res.deep_view();
                res.push(d);
                assert(res.deep_view() =~= old_res.push(d@));
            },
            None => {},
        }
        i = i + 1;
    }
    assert(lv.take(ls@.len() as int) =~= lv);
    res
}

/// Appends `item` to `list` unless it is there already.
pub fn push_unique(list: &mut Vec<String>, item: String)
    ensures
        final(list).deep_view() == (if old(list).deep_view().contains(item@) {
            old(list).deep_view()
        } else {
            old(list).deep_view().push(item@)
        }),
{
    let mut i: usize = 0;
    while i < list.len()
        invariant
            i <= list@.len(),
            list == old(list),
            forall|j: int| 0 <= j < i ==> #[trigger] list.deep_view()[j] != item@,
        decreases list.len() - i,
    {
        assert(list.deep_view()[i as int] == list@[i as int]@);
        if list[i] == item {
            assert(list.deep_view().contains(item@));
            return;
        }
        i = i + 1;
    }
    let ghost before = list.deep_view();
    assert(!before.contains(item@));
    list.push(item);
    assert(list.deep_view() =~= before.push(item@));
}

/// The dependencies named by the listings that could be made, in order.
pub open spec fn listed_dependencies(listings: Seq<Option<String>>) -> Seq<Seq<char>>
    decreases listings.len(),
{
    if listings.len() == 0 {
        Seq::empty()
    } else {
        listed_dependencies(listings.drop_last()) + match listings.last() {
            Some(o) => apt_dependencies(o@),
            None => Seq::empty(),
        }
    }
}

/// `v` without repetitions: each element once, nothing else.
pub fn dedup(v: &Vec<String>) -> (r: Vec<String>)
    ensures
        r.deep_view().no_duplicates(),
        forall|x: Seq<char>| r.deep_view().contains(x) <==> v.deep_view().contains(x),
{
    let mut res: Vec<String> = Vec::new();
    let mut i: usize = 0;
    while i < v.len()
        invariant
            i <= v@.len(),
            res.deep_view().no_duplicates(),
            forall|x: Seq<char>|
                res.deep_view().contains(x) <==> v.deep_view().take(i as int).contains(x),
        decreases v.len() - i,
    {
        let ghost before = res.deep_view();
        let ghost vv = v.deep_view();
        push_unique(&mut res, v[i].clone());
        proof {
            assert(vv[i as int] == v@[i as int]@);
            assert(vv.take(i + 1) =~= vv.take(i as int).push(vv[i as int]));
            assert forall|x: Seq<char>| res.deep_view().contains(x) <==> vv.take(i + 1).contains(
                x,
            ) by {
                lemma_contains_push(before, vv[i as int], x);
                lemma_contains_push(vv.take(i as int), vv[i as int], x);
            }
            if !before.contains(vv[i as int]) {
                lemma_push_no_dup(before, vv[i as int]);
            }
        }
        i = i + 1;
    }
    assert(v.deep_view().take(v@.len() as int) =~= v.deep_view());
    res
}

/// The packages that apt must fetch so that `packages` can run: the
/// packages themselves and every dependency named in the listing of
/// `apt-cache depends` made for each (`None` where none could be made),
/// each once.
pub fn apt_download_set(packages: &Vec<String>, listings: &Vec<Option<String>>) -> (r: Vec<
    String,
>)
    ensures
        r.deep_view().no_duplicates(),
        forall|x: Seq<char>|
            r.deep_view().contains(x) <==> (packages.deep_view() + listed_dependencies(
                listings@,
            )).contains(x),
{
    let mut all: Vec<String> = packages.clone();
    let mut i: usize = 0;
    assert(listings@.take(0) =~= Seq::<Option<String>>::empty());
    assert(packages.deep_view() + listed_dependencies(listings@.take(0)) =~= packages.deep_view());
    while i < listings.len()
        invariant
            i <= listings@.len(),
            all.deep_view() == packages.deep_view() + listed_dependencies(
                listings@.take(i as int),
            ),
        decreases listings.len() - i,
    {
        assert(listings@.take(i + 1).drop_last() =~= listings@.take(i as int));
        assert(listings@.take(i + 1).last() == listings@[i as int]);
        match &listings[i] {
            Some(out) => {
                let deps = parse_apt_dependencies(out.as_str());
                let mut j: usize = 0;
                let ghost base = all.deep_view();
                while j < deps.len()
                    invariant
                        j <= deps@.len(),
                        all.deep_view() == base + deps.deep_view().take(j as int),
                    decreases deps.len() - j,
                {
                    let ghost b2 = all.deep_view();
                    all.push(deps[j].clone());
                    proof {
                        assert(deps.deep_view()[j as int] == deps@[j as int]@);
                        assert(all.deep_view() =~= b2.push(deps@[j as int]@));
                        assert(deps.deep_view().take(j + 1) =~= deps.deep_view().take(j as int).push(
                            deps.deep_view()[j as int],
                        ));
                        assert(base + deps.deep_view().take(j + 1) =~= (base + deps.deep_view().take(
                            j as int,
                        )).push(deps.deep_view()[j as int]));
                    }
                    j = j + 1;
                }
                proof {
                    assert(deps.deep_view().take(deps@.len() as int) =~= deps.deep_view());
                    assert(base + apt_dependencies(out@) =~= packages.deep_view()
                        + listed_dependencies(listings@.take(i + 1)));
                }
            },
            None => {
                assert(packages.deep_view() + listed_dependencies(listings@.take(i as int))
                    =~= packages.deep_view() + listed_dependencies(listings@.take(i + 1)));
            },
        }
        i = i + 1;
    }
    assert(listings@.take(listings@.len() as int) =~= listings@);
    dedup(&all)
}

pub proof fn lemma_contains_push<A>(s: Seq<A>, a: A, x: A)
    ensures
        s.push(a).contains(x) <==> (s.contains(x) || x == a),
{
    if s.push(a).contains(x) {
        let k = choose|k: int| 0 <= k < s.push(a).len() && s.push(a)[k] == x;
        if k < s.len() {
            assert(s[k] == x);
        }
    }
    if s.contains(x) {
        let k = choose|k: int| 0 <= k < s.len() && s[k] == x;
        assert(s.push(a)[k] == x);
    }
    if x == a {
        assert(s.push(a)[s.len() as int] == x);
    }
}

pub proof fn lemma_push_no_dup<A>(s: Seq<A>, a: A)
    requires
        s.no_duplicates(),
        !s.contains(a),
    ensures
        s.push(a).no_duplicates(),
{
    assert forall|i: int, j: int|
        0 <= i < s.push(a).len() && 0 <= j < s.push(a).len() && i != j implies s.push(a)[i]
        != s.push(a)[j] by {
        if i < s.len() && j < s.len() {
            assert(s[i] != s[j]);
        } else if i < s.len() {
            assert(s[i] == s.push(a)[i]);
        } else if j < s.len() {
            assert(s[j] == s.push(a)[j]);
        }
    }
}

/// Whether a trimmed line of `pacman -Sp` output is a download location.
pub open spec fn is_download_url(t: Seq<char>) -> bool {
    "http://"@.is_prefix_of(t) || "https://"@.is_prefix_of(t) || "ftp://"@.is_prefix_of(t)
        || "file://"@.is_prefix_of(t)
}

pub open spec fn download_url_of_line(line: Seq<char>) -> Option<Seq<char>> {
    if is_download_url(trim(line)) {
        Some(trim(line))
    } else {
        None
    }
}

/// The download locations that `pacman -Sp` prints, trimmed, in order.
pub open spec fn pacman_urls(output: Seq<char>) -> Seq<Seq<char>> {
    lines(output).filter_map(|l: Seq<char>| download_url_of_line(l))
}

/// The package download locations in the output of `pacman -Sp`.
pub fn parse_pacman_urls(output: &str) -> (r: Vec<String>)
    ensures
        r.deep_view() == pacman_urls(output@),
{
    let ls = split_lines(output);
    let ghost f = |l: Seq<char>| download_url_of_line(l);
    let ghost lv = ls.deep_view();
    let mut res: Vec<String> = Vec::new();
    let mut i: usize = 0;
    while i < ls.len()
        invariant
            i <= ls@.len(),
            lv == ls.deep_view(),
            lv == lines(output@),
            f == (|l: Seq<char>| download_url_of_line(l)),
            res.deep_view() == lv.take(i as int).filter_map(f),
        decreases ls.len() - i,
    {
        proof {
            lemma_filter_map_take_step(lv, f, i as int);
        }
        assert(lv[i as int] == ls@[i as int]@);
        let t = trim_str(ls[i].as_str());
        if starts_with(t.as_str(), "http://") || starts_with(t.as_str(), "https://")
            || starts_with(t.as_str(), "ftp://") || starts_with(t.as_str(), "file://") {
            let ghost old_res = res.deep_view();
            res.push(t);
            assert(res.deep_view() =~= old_res.push(trim(lv[i as int])));
        }
        i = i + 1;
    }
    assert(lv.take(ls@.len() as int) =~= lv);
    res
}

/// Whether a trimmed line of `dnf provides` names a providing package.
pub open spec fn is_dnf_provider_line(t: Seq<char>) -> bool {
    contains_sub(t, " : "@) && !"Repo"@.is_prefix_of(t) && !"Matched"@.is_prefix_of(t)
        && !"Provide"@.is_prefix_of(t) && !"Filename"@.is_prefix_of(t)
}

pub open spec fn dnf_provider_of_line(line: Seq<char>) -> Option<Seq<char>> {
    let t = trim(line);
    if is_dnf_provider_line(t) && words(t).len() > 0 {
        Some(words(t)[0])
    } else {
        None
    }
}

/// The packages that `dnf provides` lists, in order.
pub open spec fn dnf_providers(output: Seq<char>) -> Seq<Seq<char>> {
    lines(output).filter_map(|l: Seq<char>| dnf_provider_of_line(l))
}

pub open spec fn if_contains(p: Seq<char>, pat: Seq<char>) -> Option<Seq<char>> {
    if contains_sub(p, pat) {
        Some(p)
    } else {
        None
    }
}

/// The first of `s` that contains `pat`.
pub open spec fn first_containing(s: Seq<Seq<char>>, pat: Seq<char>) -> Option<Seq<char>> {
    first_some(s, |p: Seq<char>| if_contains(p, pat))
}

/// Whether a library lookup should prefer 32-bit packages.
pub open spec fn wants_32bit(lib: Seq<char>, is_steam: bool, arch_word: Seq<char>) -> bool {
    is_steam || contains_sub(lib, arch_word) || contains_sub(lib, "32"@)
}

/// The package that `dnf provides` names for a library: among the listed
/// packages the first of the wanted architecture (`.i686` for 32-bit
/// lookups, `.x86_64` otherwise), else the first listed; none when it
/// lists none.
pub open spec fn dnf_package_choice(output: Seq<char>, lib: Seq<char>, is_steam: bool) -> Option<
    Seq<char>,
> {
    let ps = dnf_providers(output);
    if ps.len() == 0 {
        None
    } else {
        let pref = if wants_32bit(lib, is_steam, "i686"@) {
            first_containing(ps, ".i686"@)
        } else {
            first_containing(ps, ".x86_64"@)
        };
        match pref {
            Some(p) => Some(p),
            None => Some(ps[0]),
        }
    }
}

fn dnf_line_provider(line: &String) -> (r: Option<String>)
    ensures
        r.deep_view() == dnf_provider_of_line(line@),
{
    let t = trim_str(line.as_str());
    let ts = t.as_str();
    if contains_str(ts, " : ") && !starts_with(ts, "Repo") && !starts_with(ts, "Matched")
        && !starts_with(ts, "Provide") && !starts_with(ts, "Filename") {
        let ws = split_words(ts);
        if ws.len() > 0 {
            assert(ws.deep_view()[0] == ws@[0]@);
            return Some(ws[0].clone());
        }
    }
    None
}

fn first_with(list: &Vec<String>, pat: &str) -> (r: Option<String>)
    ensures
        r.deep_view() == first_containing(list.deep_view(), pat@),
{
    let ghost f = |p: Seq<char>| if_contains(p, pat@);
    let mut i: usize = 0;
    while i < list.len()
        invariant
            i <= list@.len(),
            f == (|p: Seq<char>| if_contains(p, pat@)),
            forall|j: int| 0 <= j < i ==> f(#[trigger] list.deep_view()[j]) is None,
        decreases list.len() - i,
    {
        assert(list.deep_view()[i as int] == list@[i as int]@);
        if contains_str(list[i].as_str(), pat) {
            proof {
                lemma_first_some_skip(list.deep_view(), f, i as int);
                assert(list.deep_view().skip(i as int)[0] == list@[i as int]@);
            }
            return Some(list[i].clone());
        }
        i = i + 1;
    }
    proof {
        lemma_first_some_skip(list.deep_view(), f, i as int);
    }
    None
}

/// The choice among the packages that `dnf provides` lists: whenever it
/// lists one, a package is chosen, for 32-bit and 64-bit lookups alike,
/// and it is one of those listed; it is the first listed of the wanted
/// architecture (`.i686` when the lookup is for Steam or the library's
/// name mentions `i686` or `32`, `.x86_64` otherwise) when one is listed,
/// else the first listed.
pub proof fn lemma_dnf_choice_law(output: Seq<char>, lib: Seq<char>, is_steam: bool)
    ensures
        ({
            let ps = dnf_providers(output);
            let r = dnf_package_choice(output, lib, is_steam);
            let arch = if is_steam || contains_sub(lib, "i686"@) || contains_sub(lib, "32"@) {
                ".i686"@
            } else {
                ".x86_64"@
            };
            &&& (r is Some <==> ps.len() > 0)
            &&& (r matches Some(p) ==> ps.contains(p))
            &&& ((exists|i: int| 0 <= i < ps.len() && contains_sub(#[trigger] ps[i], arch)) ==> (r
                matches Some(p) && exists|j: int|
                0 <= j < ps.len() && ps[j] == p && contains_sub(p, arch) && forall|k: int|
                    0 <= k < j ==> !contains_sub(#[trigger] ps[k], arch)))
            &&& ((ps.len() > 0 && forall|i: int|
                0 <= i < ps.len() ==> !contains_sub(#[trigger] ps[i], arch)) ==> r == Some(ps[0]))
        }),
{
    let ps = dnf_providers(output);
    let arch = if is_steam || contains_sub(lib, "i686"@) || contains_sub(lib, "32"@) {
        ".i686"@
    } else {
        ".x86_64"@
    };
    let f = |p: Seq<char>| if_contains(p, arch);
    lemma_first_some_spec(ps, f);
    assert forall|i: int| 0 <= i < ps.len() implies (f(#[trigger] ps[i]) is None <==> !contains_sub(
        ps[i],
        arch,
    )) by {}
    if ps.len() > 0 {
        assert(ps.contains(ps[0]));
        if first_some(ps, f) is Some {
            let x = first_some(ps, f)->0;
            let j = choose|j: int|
                0 <= j < ps.len() && f(#[trigger] ps[j]) == Some(x) && forall|k: int|
                    0 <= k < j ==> f(#[trigger] ps[k]) is None;
            assert(ps[j] == x);
            assert(contains_sub(x, arch));
            assert forall|k: int| 0 <= k < j implies !contains_sub(#[trigger] ps[k], arch) by {
                assert(f(ps[k]) is None);
            }
        } else {
            assert forall|i: int| 0 <= i < ps.len() implies !contains_sub(#[trigger] ps[i], arch) by {
                assert(f(ps[i]) is None);
            }
        }
    }
}

/// The package to install for a missing library, read from the output of
/// `dnf provides */LIB`.
pub fn choose_dnf_package(output: &str, lib_name: &str, is_steam: bool) -> (r: Option<String>)
    ensures
        r.deep_view() == dnf_package_choice(output@, lib_name@, is_steam),
{
    let ls = split_lines(output);
    let ghost f = |l: Seq<char>| dnf_provider_of_line(l);
    let ghost lv = ls.deep_view();
    let mut ps: Vec<String> = Vec::new();
    let mut i: usize = 0;
    while i < ls.len()
        invariant
            i <= ls@.len(),
            lv == ls.deep_view(),
            lv == lines(output@),
            f == (|l: Seq<char>| dnf_provider_of_line(l)),
            ps.deep_view() == lv.take(i as int).filter_map(f),
        decreases ls.len() - i,
    {
        proof {
            lemma_filter_map_take_step(lv, f, i as int);
        }
        assert(lv[i as int] == ls@[i as int]@);
        match dnf_line_provider(&ls[i]) {
            Some(p) => {
                let ghost old_ps = ps.deep_view();
                ps.push(p);
                assert(ps.deep_view() =~= old_ps.push(p@));
            },
            None => {},
        }
        i = i + 1;
    }
    assert(lv.take(ls@.len() as int) =~= lv);
    if ps.len() == 0 {
        return None;
    }
    let pref = if is_steam || contains_str(lib_name, "i686") || contains_str(lib_name, "32") {
        first_with(&ps, ".i686")
    } else {
        first_with(&ps, ".x86_64")
    };
    match pref {
        Some(p) => Some(p),
        None => {
            assert(ps.deep_view()[0] == ps@[0]@);
            Some(ps[0].clone())
        },
    }
}

pub open spec fn apt_owner_of_line(line: Seq<char>) -> Option<Seq<char>> {
    match find_sub(line, ":"@) {
        Some(c) => Some(trim(line.take(c))),
        None => None,
    }
}

/// The package that `apt-file search` names first: the text before the
/// first colon of the first line that has one, trimmed.
pub open spec fn apt_package_choice(output: Seq<char>) -> Option<Seq<char>> {
    first_some(lines(output), |l: Seq<char>| apt_owner_of_line(l))
}

fn apt_line_owner(line: &str) -> (r: Option<String>)
    ensures
        r.deep_view() == apt_owner_of_line(line@),
{
    match find_str(line, ":") {
        Some(c) => {
            proof {
                lemma_find_sub_occurs(line@, ":"@);
            }
            let head = substring(line, 0, c);
            assert(head@ == line@.take(c as int));
            Some(trim_str(head.as_str()))
        },
        None => None,
    }
}

/// The package to install for a missing library, read from the output of
/// `apt-file search LIB`.
pub fn choose_apt_package(output: &str) -> (r: Option<String>)
    ensures
        r.deep_view() == apt_package_choice(output@),
{
    let ls = split_lines(output);
    let ghost f = |l: Seq<char>| apt_owner_of_line(l);
    let mut i: usize = 0;
    while i < ls.len()
        invariant
            i <= ls@.len(),
            ls.deep_view() == lines(output@),
            f == (|l: Seq<char>| apt_owner_of_line(l)),
            forall|j: int| 0 <= j < i ==> f(#[trigger] ls.deep_view()[j]) is None,
        decreases ls.len() - i,
    {
        assert(ls.deep_view()[i as int] == ls@[i as int]@);
        match apt_line_owner(ls[i].as_str()) {
            Some(p) => {
                proof {
                    lemma_first_some_skip(ls.deep_view(), f, i as int);
                    assert(ls.deep_view().skip(i as int)[0] == ls@[i as int]@);
                }
                return Some(p);
            },
            None => {},
        }
        i = i + 1;
    }
    proof {
        lemma_first_some_skip(ls.deep_view(), f, i as int);
    }
    None
}

pub open spec fn owned_by_marker() -> Seq<char> {
    " is owned by "@
}

/// The text after the first " is owned by " of `line`, up to the next one.
pub open spec fn owner_field(line: Seq<char>) -> Option<Seq<char>> {
    let m = owned_by_marker();
    match find_sub(line, m) {
        Some(i) => {
            let after = line.skip(i + m.len());
            match find_sub(after, m) {
                Some(j) => Some(after.take(j)),
                None => Some(after),
            }
        },
        None => None,
    }
}

/// A repository-qualified package name without its repository.
pub open spec fn strip_repo(name: Seq<char>) -> Seq<char> {
    match find_sub(name, "/"@) {
        Some(k) => name.skip(k + 1),
        None => name,
    }
}

pub open spec fn pacman_owner_of_line(line: Seq<char>) -> Option<Seq<char>> {
    match owner_field(line) {
        Some(f) => if words(trim(f)).len() > 0 {
            Some(strip_repo(words(trim(f))[0]))
        } else {
            None
        },
        None => None,
    }
}

/// The package that `pacman -F` names first: from the first line of the
/// form "FILE is owned by REPO/PACKAGE VERSION", the package.
pub open spec fn pacman_package_choice(output: Seq<char>) -> Option<Seq<char>> {
    first_some(lines(output), |l: Seq<char>| pacman_owner_of_line(l))
}

fn pacman_line_owner(line: &str) -> (r: Option<String>)
    ensures
        r.deep_view() == pacman_owner_of_line(line@),
{
    let marker = " is owned by ";
    let n = chars_of(line).len();
    let m = chars_of(marker).len();
    match find_str(line, marker) {
        Some(i) => {
            proof {
                lemma_find_sub_occurs(line@, marker@);
            }
            let after = substring(line, i + m, n);
            assert(after@ == line@.skip(i + marker@.len()));
            let field = match find_str(after.as_str(), marker) {
                Some(j) => {
                    proof {
                        lemma_find_sub_occurs(after@, marker@);
                    }
                    substring(after.as_str(), 0, j)
                },
                None => after.clone(),
            };
            assert(owner_field(line@) == Some(field@));
            let t = trim_str(field.as_str());
            let ws = split_words(t.as_str());
            if ws.len() == 0 {
                return None;
            }
            assert(ws.deep_view()[0] == ws@[0]@);
            let name = ws[0].as_str();
            let nl = chars_of(name).len();
            match find_str(name, "/") {
                Some(k) => {
                    proof {
                        lemma_find_sub_occurs(name@, "/"@);
                        reveal_strlit("/");
                    }
                    Some(substring(name, k + 1, nl))
                },
                None => Some(ws[0].clone()),
            }
        },
        None => None,
    }
}

/// The package to install for a missing library, read from the output of
/// `pacman -F LIB`.
pub fn choose_pacman_package(output: &str) -> (r: Option<String>)
    ensures
        r.deep_view() == pacman_package_choice(output@),
{
    let ls = split_lines(output);
    let ghost f = |l: Seq<char>| pacman_owner_of_line(l);
    let mut i: usize = 0;
    while i < ls.len()
        invariant
            i <= ls@.len(),
            ls.deep_view() == lines(output@),
            f == (|l: Seq<char>| pacman_owner_of_line(l)),
            forall|j: int| 0 <= j < i ==> f(#[trigger] ls.deep_view()[j]) is None,
        decreases ls.len() - i,
    {
        assert(ls.deep_view()[i as int] == ls@[i as int]@);
        match pacman_line_owner(ls[i].as_str()) {
            Some(p) => {
                proof {
                    lemma_first_some_skip(ls.deep_view(), f, i as int);
                    assert(ls.deep_view().skip(i as int)[0] == ls@[i as int]@);
                }
                return Some(p);
            },
            None => {},
        }
        i = i + 1;
    }
    proof {
        lemma_first_some_skip(ls.deep_view(), f, i as int);
    }
    None
}

/// A downloaded file is a package of the package manager in use: an
/// `.rpm` for DNF, a `.deb` for apt, and for pacman a file whose name
/// contains `.pkg.tar.`.
pub open spec fn is_package_file_spec(pm: PackageManager, path: Seq<char>) -> bool {
    match pm {
        PackageManager::Dnf => crate::paths::file_extension(path) == Some("rpm"@),
        PackageManager::Apt => crate::paths::file_extension(path) == Some("deb"@),
        PackageManager::Pacman => crate::paths::file_name(path) matches Some(n) && contains_sub(
            n,
            ".pkg.tar."@,
        ),
    }
}

/// Whether the downloaded file at `path` is a package to unpack.
pub fn is_package_file(pm: PackageManager, path: &str) -> (r: bool)
    ensures
        r == is_package_file_spec(pm, path@),
{
    match pm {
        PackageManager::Dnf => crate::paths::has_extension(path, "rpm"),
        PackageManager::Apt => crate::paths::has_extension(path, "deb"),
        PackageManager::Pacman => match crate::paths::path_file_name(path) {
            Some(n) => contains_str(n.as_str(), ".pkg.tar."),
            None => false,
        },
    }
}

} // verus!
