//! Desktop entries of installed applications: rewriting their `Exec=`
//! lines to start the program inside its environment, resolving their
//! icons among the environment's files, and naming the copies that the
//! user's menu sees.
use vstd::prelude::*;
use crate::text::{
    chars_of, contains_str, contains_sub, ends_with, same_text, join_strings_from, join_with, split_words,
    starts_with, substring, trim, trim_str, words,
};
use crate::paths::{
    file_extension, file_name, file_stem, has_extension, join, join_path, path_extension,
    path_file_name, path_file_stem,
};

verus! {

pub open spec fn exec_key() -> Seq<char> {
    "Exec="@
}

pub open spec fn icon_key() -> Seq<char> {
    "Icon="@
}

/// The words of the command of an `Exec=` line.
pub open spec fn exec_words(line: Seq<char>) -> Seq<Seq<char>> {
    words(line.skip(exec_key().len() as int))
}

/// `line` is an `Exec=` line with a command.
pub open spec fn is_exec_line(line: Seq<char>) -> bool {
    exec_key().is_prefix_of(line) && exec_words(line).len() > 0
}

/// The program of an `Exec=` line names a file (its path does not end in
/// `..` and is not the root).
pub open spec fn exec_target_named(line: Seq<char>) -> bool {
    is_exec_line(line) ==> file_name(exec_words(line)[0]) is Some
}

/// Every `Exec=` line of an entry names its program's file.
pub open spec fn exec_targets_named(lines: Seq<Seq<char>>) -> bool {
    forall|i: int| 0 <= i < lines.len() ==> exec_target_named(#[trigger] lines[i])
}

/// An `Exec=` line rewritten to start its program's file name through the
/// tool in environment `env`, with the program's arguments.
pub open spec fn exec_rewrite(env: Seq<char>, line: Seq<char>) -> Seq<char> {
    let ws = exec_words(line);
    "Exec=izole run "@ + env + seq![' '] + file_name(ws[0])->0 + seq![' '] + join_with(
        ws.skip(1),
        seq![' '],
    )
}

/// A line of an entry after rewriting.
pub open spec fn rewritten_line(env: Seq<char>, line: Seq<char>) -> Seq<char> {
    if is_exec_line(line) {
        exec_rewrite(env, line)
    } else {
        line
    }
}

/// Where an entry names its icon: the value of its last `Icon=` line,
/// trimmed, and that line's position.
pub open spec fn icon_line(lines: Seq<Seq<char>>) -> Option<(Seq<char>, int)>
    decreases lines.len(),
{
    if lines.len() == 0 {
        None
    } else if icon_key().is_prefix_of(lines.last()) {
        Some((trim(lines.last().skip(icon_key().len() as int)), lines.len() - 1))
    } else {
        icon_line(lines.drop_last())
    }
}

/// An entry's reference to its icon.
pub struct IconRef {
    pub name: String,
    pub line: usize,
}

/// A desktop entry after its `Exec=` lines were rewritten.
pub struct DesktopRewrite {
    pub lines: Vec<String>,
    pub has_exec: bool,
    pub icon: Option<IconRef>,
}

pub open spec fn icon_view(icon: Option<IconRef>) -> Option<(Seq<char>, int)> {
    match icon {
        Some(r) => Some((r.name@, r.line as int)),
        None => None,
    }
}

/// Checks that every `Exec=` line names its program's file, which the
/// rewriting needs.
pub fn desktop_exec_targets_named(lines: &Vec<String>) -> (r: bool)
    ensures
        r == exec_targets_named(lines.deep_view()),
{
    let mut i: usize = 0;
    while i < lines.len()
        invariant
            i <= lines@.len(),
            forall|j: int| 0 <= j < i ==> exec_target_named(#[trigger] lines.deep_view()[j]),
        decreases lines.len() - i,
    {
        assert(lines.deep_view()[i as int] == lines@[i as int]@);
        let line = lines[i].as_str();
        if starts_with(line, "Exec=") {
            let n = chars_of(line).len();
            let m = chars_of("Exec=").len();
            let value = substring(line, m, n);
            let ws = split_words(value.as_str());
            if ws.len() > 0 {
                assert(ws.deep_view()[0] == ws@[0]@);
                if path_file_name(ws[0].as_str()).is_none() {
                    assert(!exec_target_named(lines.deep_view()[i as int]));
                    return false;
                }
            }
        }
        i = i + 1;
    }
    true
}

fn rewrite_line(env_name: &str, line: &str) -> (r: (String, bool))
    requires
        exec_target_named(line@),
    ensures
        r.0@ == rewritten_line(env_name@, line@),
        r.1 == is_exec_line(line@),
{
    if starts_with(line, "Exec=") {
        let n = chars_of(line).len();
        let m = chars_of("Exec=").len();
        let value = substring(line, m, n);
        assert(value@ == line@.skip(exec_key().len() as int));
        let parts = split_words(value.as_str());
        if parts.len() > 0 {
            assert(parts.deep_view()[0] == parts@[0]@);
            let bin = path_file_name(parts[0].as_str());
            let bin = match bin {
                Some(b) => b,
                None => {
                    return (String::from_str(line), false);
                },
            };
            let rest = join_strings_from(&parts, 1, " ");
            let mut out = String::from_str("Exec=izole run ");
            out.append(env_name);
            out.append(" ");
            out.append(bin.as_str());
            out.append(" ");
            out.append(rest.as_str());
            proof {
                reveal_strlit(" ");
                assert(" "@ =~= seq![' ']);
                assert(parts.deep_view() == exec_words(line@));
                assert(bin@ == file_name(exec_words(line@)[0])->0);
                assert(rest@ == join_with(exec_words(line@).skip(1), seq![' ']));
                assert(out@ =~= exec_rewrite(env_name@, line@));
            }
            return (out, true);
        }
    }
    (String::from_str(line), false)
}

proof fn lemma_exec_not_icon(line: Seq<char>)
    requires
        exec_key().is_prefix_of(line),
    ensures
        !icon_key().is_prefix_of(line),
{
    reveal_strlit("Exec=");
    reveal_strlit("Icon=");
    assert(line.subrange(0, 5)[0] == line[0]);
    assert(line[0] == 'E');
    if icon_key().is_prefix_of(line) {
        assert(line.subrange(0, 5)[0] == 'I');
    }
}

/// Rewrites the `Exec=` lines of a desktop entry so that each starts its
/// program, by file name, in environment `env_name`, and finds the
/// entry's icon reference.
pub fn rewrite_desktop_entry(env_name: &str, lines: &Vec<String>) -> (r: DesktopRewrite)
    requires
        exec_targets_named(lines.deep_view()),
    ensures
        r.lines@.len() == lines@.len(),
        forall|i: int|
            0 <= i < lines@.len() ==> #[trigger] r.lines.deep_view()[i] == rewritten_line(
                env_name@,
                lines.deep_view()[i],
            ),
        r.has_exec == exists|i: int|
            0 <= i < lines@.len() && is_exec_line(#[trigger] lines.deep_view()[i]),
        icon_view(r.icon) == icon_line(lines.deep_view()),
{
    let ghost lv = lines.deep_view();
    let mut out: Vec<String> = Vec::new();
    let mut has_exec = false;
    let mut icon: Option<IconRef> = None;
    let mut i: usize = 0;
    while i < lines.len()
        invariant
            i <= lines@.len(),
            lv == lines.deep_view(),
            exec_targets_named(lv),
            out@.len() == i,
            forall|j: int|
                0 <= j < i ==> #[trigger] out.deep_view()[j] == rewritten_line(env_name@, lv[j]),
            has_exec == exists|j: int| 0 <= j < i && is_exec_line(#[trigger] lv[j]),
            icon_view(icon) == icon_line(lv.take(i as int)),
        decreases lines.len() - i,
    {
        assert(lv[i as int] == lines@[i as int]@);
        assert(exec_target_named(lv[i as int]));
        let line = lines[i].as_str();
        let (new_line, is_exec) = rewrite_line(env_name, line);
        assert(lv.take(i + 1).drop_last() =~= lv.take(i as int));
        assert(lv.take(i + 1).last() == lv[i as int]);
        if is_exec {
            has_exec = true;
        }
        if !is_exec && starts_with(line, "Icon=") {
            let n = chars_of(line).len();
            let m = chars_of("Icon=").len();
            let value = substring(line, m, n);
            let name = trim_str(value.as_str());
            icon = Some(IconRef { name, line: i });
        } else if is_exec {
            proof {
                lemma_exec_not_icon(lv[i as int]);
            }
        }
        let ghost old_out = out.deep_view();
        out.push(new_line);
        assert(out.deep_view() =~= old_out.push(rewritten_line(env_name@, lv[i as int])));
        i = i + 1;
    }
    assert(lv.take(lines@.len() as int) =~= lv);
    DesktopRewrite { lines: out, has_exec, icon }
}

/// The icon name to look up for an entry that starts a program: a named
/// icon that is not already an absolute path.
pub open spec fn icon_to_resolve(has_exec: bool, icon: Option<(Seq<char>, int)>) -> Option<
    Seq<char>,
> {
    match icon {
        Some((name, _)) => if has_exec && !(name.len() > 0 && name[0] == '/') {
            Some(name)
        } else {
            None
        },
        None => None,
    }
}

/// The icon name that the tool must look up for a rewritten entry.
pub fn icon_lookup(rw: &DesktopRewrite) -> (r: Option<String>)
    ensures
        r.deep_view() == icon_to_resolve(rw.has_exec, icon_view(rw.icon)),
{
    match &rw.icon {
        Some(ic) => {
            let v = chars_of(ic.name.as_str());
            if rw.has_exec && !(v.len() > 0 && v[0] == '/') {
                Some(ic.name.clone())
            } else {
                None
            }
        },
        None => None,
    }
}

/// Points the entry's `Icon=` line at the icon file found for it.
pub fn set_icon_path(rw: &mut DesktopRewrite, icon_path: &str)
    ensures
        final(rw).has_exec == old(rw).has_exec,
        final(rw).icon == old(rw).icon,
        match old(rw).icon {
            Some(ic) => ic.line < old(rw).lines@.len() ==> final(rw).lines.deep_view() == old(
                rw,
            ).lines.deep_view().update(ic.line as int, "Icon="@ + icon_path@),
            None => final(rw).lines.deep_view() == old(rw).lines.deep_view(),
        },
        match old(rw).icon {
            Some(ic) => ic.line >= old(rw).lines@.len() ==> final(rw).lines.deep_view() == old(
                rw,
            ).lines.deep_view(),
            None => true,
        },
{
    let idx = match &rw.icon {
        Some(ic) => ic.line,
        None => {
            return;
        },
    };
    if idx < rw.lines.len() {
        let mut s = String::from_str("Icon=");
        s.append(icon_path);
        let ghost before = rw.lines.deep_view();
        rw.lines.set(idx, s);
        assert(rw.lines.deep_view() =~= before.update(idx as int, "Icon="@ + icon_path@));
    }
}

/// The file name under which an environment's desktop entry is installed
/// for the user: `izole-ENV-FILE`.
pub open spec fn shortcut_name(env: Seq<char>, entry_file: Seq<char>) -> Seq<char> {
    "izole-"@ + env + seq!['-'] + entry_file
}

/// Names the installed copy of desktop entry file `entry_file` of environment
/// `env_name`.
pub fn desktop_entry_name(env_name: &str, entry_file: &str) -> (r: String)
    ensures
        r@ == shortcut_name(env_name@, entry_file@),
{
    let mut s = String::from_str("izole-");
    s.append(env_name);
    s.append("-");
    proof {
        reveal_strlit("-");
    }
    s.append(entry_file);
    s
}

/// The installed name of the entry file `f` of environment `env`, when
/// `f` is a desktop entry (its extension is `desktop`).
pub open spec fn shortcut_of_entry(env: Seq<char>, f: Seq<char>) -> Option<Seq<char>> {
    if file_extension(f) == Some("desktop"@) {
        Some(shortcut_name(env, f))
    } else {
        None
    }
}

/// The installed names of the desktop entries of environment `env`, whose
/// `usr/share/applications` holds the files `entry_files`: one name for
/// each desktop entry among them, in their order.
pub open spec fn shortcut_names(env: Seq<char>, entry_files: Seq<Seq<char>>) -> Seq<Seq<char>> {
    entry_files.filter_map(|f: Seq<char>| shortcut_of_entry(env, f))
}

/// The names under which the desktop entries `entry_files` of environment
/// `env_name` are installed for the user: these, and no other, are its
/// shortcuts.
pub fn env_shortcut_names(env_name: &str, entry_files: &Vec<String>) -> (r: Vec<String>)
    ensures
        r.deep_view() == shortcut_names(env_name@, entry_files.deep_view()),
{
    let ghost f = |e: Seq<char>| shortcut_of_entry(env_name@, e);
    let ghost fv = entry_files.deep_view();
    let mut res: Vec<String> = Vec::new();
    let mut i: usize = 0;
    while i < entry_files.len()
        invariant
            i <= entry_files@.len(),
            fv == entry_files.deep_view(),
            f == (|e: Seq<char>| shortcut_of_entry(env_name@, e)),
            res.deep_view() == fv.take(i as int).filter_map(f),
        decreases entry_files.len() - i,
    {
        proof {
            crate::pkgtools::lemma_filter_map_take_step(fv, f, i as int);
        }
        assert(fv[i as int] == entry_files@[i as int]@);
        if has_extension(entry_files[i].as_str(), "desktop") {
            let n = desktop_entry_name(env_name, entry_files[i].as_str());
            let ghost old_res = res.deep_view();
            res.push(n);
            assert(res.deep_view() =~= old_res.push(n@));
        }
        i = i + 1;
    }
    assert(fv.take(entry_files@.len() as int) =~= fv);
    res
}

/// A name is a shortcut of environment `env` exactly when it is the
/// installed name of one of its desktop entries; what the environment's
/// entries do not name is never taken for one of its shortcuts.
pub proof fn lemma_shortcut_names_exact(env: Seq<char>, entry_files: Seq<Seq<char>>, n: Seq<char>)
    ensures
        shortcut_names(env, entry_files).contains(n) <==> exists|i: int|
            0 <= i < entry_files.len() && file_extension(#[trigger] entry_files[i]) == Some(
                "desktop"@,
            ) && n == shortcut_name(env, entry_files[i]),
    decreases entry_files.len(),
{
    let f = |e: Seq<char>| shortcut_of_entry(env, e);
    if entry_files.len() > 0 {
        let init = entry_files.drop_last();
        lemma_shortcut_names_exact(env, init, n);
        let last = entry_files.last();
        assert(entry_files.filter_map(f) == match f(last) {
            Some(x) => init.filter_map(f).push(x),
            None => init.filter_map(f),
        }) by {
            crate::pkgtools::lemma_filter_map_take_step(entry_files, f, entry_files.len() - 1);
            assert(entry_files.take(entry_files.len() as int) =~= entry_files);
            assert(entry_files.take(entry_files.len() - 1) =~= init);
        }
        if shortcut_names(env, entry_files).contains(n) {
            if init.filter_map(f).contains(n) {
                let i = choose|i: int|
                    0 <= i < init.len() && file_extension(#[trigger] init[i]) == Some("desktop"@)
                        && n == shortcut_name(env, init[i]);
                assert(entry_files[i] == init[i]);
            } else {
                let k = init.filter_map(f).len() as int;
                assert(f(last) is Some);
                assert(shortcut_names(env, entry_files)[k] == n);
                assert(entry_files[entry_files.len() - 1] == last);
            }
        }
        if exists|i: int|
            0 <= i < entry_files.len() && file_extension(#[trigger] entry_files[i]) == Some(
                "desktop"@,
            ) && n == shortcut_name(env, entry_files[i]) {
            let i = choose|i: int|
                0 <= i < entry_files.len() && file_extension(#[trigger] entry_files[i]) == Some(
                    "desktop"@,
                ) && n == shortcut_name(env, entry_files[i]);
            if i < entry_files.len() - 1 {
                assert(init[i] == entry_files[i]);
                assert(init.filter_map(f).contains(n));
                let j = choose|j: int| 0 <= j < init.filter_map(f).len() && init.filter_map(f)[j] == n;
                assert(shortcut_names(env, entry_files)[j] == n);
            } else {
                let k = init.filter_map(f).len() as int;
                assert(shortcut_names(env, entry_files)[k] == n);
            }
        }
    }
}

/// The installed desktop entry `name` carries the marks of environment
/// `env`: it is named `izole-ENV-...` and ends in `.desktop`.
pub open spec fn has_shortcut_prefix(env: Seq<char>, name: Seq<char>) -> bool {
    ("izole-"@ + env + seq!['-']).is_prefix_of(name) && ".desktop"@.is_suffix_of(name)
}

/// Another environment among `envs`, with a longer name than `env`, also
/// marks `name` as its own (`izole-a-b-x.desktop` is marked by `a` and by
/// `a-b`).
pub open spec fn claimed_by_longer(env: Seq<char>, envs: Seq<Seq<char>>, name: Seq<char>) -> bool {
    exists|i: int|
        0 <= i < envs.len() && envs[i].len() > env.len() && has_shortcut_prefix(
            #[trigger] envs[i],
            name,
        )
}

/// The installed desktop entry `name` is a shortcut of environment `env`,
/// whose entry files are `entry_files`, among the environments `envs`:
/// either one of its own entries is installed under that name, or the
/// name carries its marks and no environment with a longer name that also
/// fits claims it (the longest fitting name wins).
pub open spec fn is_env_shortcut(
    env: Seq<char>,
    envs: Seq<Seq<char>>,
    entry_files: Seq<Seq<char>>,
    name: Seq<char>,
) -> bool {
    shortcut_names(env, entry_files).contains(name) || (has_shortcut_prefix(env, name)
        && !claimed_by_longer(env, envs, name))
}

/// Whether `name` carries the marks of environment `env_name`.
fn shortcut_prefix_of(env_name: &str, name: &str) -> (r: bool)
    ensures
        r == has_shortcut_prefix(env_name@, name@),
{
    let mut prefix = String::from_str("izole-");
    prefix.append(env_name);
    prefix.append("-");
    proof {
        reveal_strlit("-");
    }
    starts_with(name, prefix.as_str()) && ends_with(name, ".desktop")
}

/// Whether the installed desktop entry `file_name` is a shortcut of
/// environment `env_name`, whose desktop entry files are `entry_files`,
/// when the environments are `envs`; deleting the environment removes
/// its shortcuts.
pub fn env_shortcut(
    env_name: &str,
    envs: &Vec<String>,
    entry_files: &Vec<String>,
    file_name: &str,
) -> (r: bool)
    ensures
        r == is_env_shortcut(env_name@, envs.deep_view(), entry_files.deep_view(), file_name@),
{
    let names = env_shortcut_names(env_name, entry_files);
    let mut k: usize = 0;
    while k < names.len()
        invariant
            k <= names@.len(),
            names.deep_view() == shortcut_names(env_name@, entry_files.deep_view()),
            forall|j: int| 0 <= j < k ==> names.deep_view()[j] != file_name@,
        decreases names.len() - k,
    {
        assert(names.deep_view()[k as int] == names@[k as int]@);
        if same_text(names[k].as_str(), file_name) {
            assert(names.deep_view().contains(file_name@));
            return true;
        }
        k = k + 1;
    }
    assert(!names.deep_view().contains(file_name@));
    if !shortcut_prefix_of(env_name, file_name) {
        return false;
    }
    let env_len = chars_of(env_name).len();
    let mut i: usize = 0;
    while i < envs.len()
        invariant
            i <= envs@.len(),
            env_len == env_name@.len(),
            !shortcut_names(env_name@, entry_files.deep_view()).contains(file_name@),
            has_shortcut_prefix(env_name@, file_name@),
            forall|j: int|
                0 <= j < i ==> !(envs.deep_view()[j].len() > env_name@.len() && has_shortcut_prefix(
                    #[trigger] envs.deep_view()[j],
                    file_name@,
                )),
        decreases envs.len() - i,
    {
        assert(envs.deep_view()[i as int] == envs@[i as int]@);
        if chars_of(envs[i].as_str()).len() > env_len && shortcut_prefix_of(
            envs[i].as_str(),
            file_name,
        ) {
            assert(claimed_by_longer(env_name@, envs.deep_view(), file_name@));
            return false;
        }
        i = i + 1;
    }
    true
}

/// The installed names of an environment's own desktop entries are its
/// shortcuts, whatever other environments there are.
pub proof fn lemma_own_entries_are_shortcuts(
    env: Seq<char>,
    envs: Seq<Seq<char>>,
    entry_files: Seq<Seq<char>>,
    f: Seq<char>,
)
    requires
        entry_files.contains(f),
        file_extension(f) == Some("desktop"@),
    ensures
        is_env_shortcut(env, envs, entry_files, shortcut_name(env, f)),
{
    let i = choose|i: int| 0 <= i < entry_files.len() && entry_files[i] == f;
    lemma_shortcut_names_exact(env, entry_files, shortcut_name(env, f));
}

/// A shortcut that no environment's own entries name belongs to one
/// environment at most: deleting one environment never removes such a
/// shortcut of another.
pub proof fn lemma_marked_shortcut_has_one_owner(
    envs: Seq<Seq<char>>,
    env1: Seq<char>,
    files1: Seq<Seq<char>>,
    env2: Seq<char>,
    files2: Seq<Seq<char>>,
    name: Seq<char>,
)
    requires
        envs.contains(env1),
        envs.contains(env2),
        is_env_shortcut(env1, envs, files1, name),
        is_env_shortcut(env2, envs, files2, name),
        !shortcut_names(env1, files1).contains(name),
        !shortcut_names(env2, files2).contains(name),
    ensures
        env1 == env2,
{
    let i1 = choose|i: int| 0 <= i < envs.len() && envs[i] == env1;
    let i2 = choose|i: int| 0 <= i < envs.len() && envs[i] == env2;
    if env1.len() < env2.len() {
        assert(has_shortcut_prefix(envs[i2], name));
        assert(claimed_by_longer(env1, envs, name));
    } else if env2.len() < env1.len() {
        assert(has_shortcut_prefix(envs[i1], name));
        assert(claimed_by_longer(env2, envs, name));
    } else {
        let p1 = "izole-"@ + env1 + seq!['-'];
        let p2 = "izole-"@ + env2 + seq!['-'];
        assert(p1 =~= name.subrange(0, p1.len() as int));
        assert(p2 =~= name.subrange(0, p2.len() as int));
        let k = "izole-"@.len() as int;
        assert(env1 =~= p1.subrange(k, k + env1.len()));
        assert(env2 =~= p2.subrange(k, k + env2.len()));
    }
}

/// The relative path of an environment file lies below directory `dir`.
pub open spec fn is_below(rel: Seq<char>, dir: Seq<char>) -> bool {
    (dir + seq!['/']).is_prefix_of(rel)
}

/// An image extension that desktop icons use.
pub open spec fn is_icon_extension(e: Seq<char>) -> bool {
    e == "png"@ || e == "svg"@ || e == "xpm"@
}

/// The file is the icon `icon`: its stem is the name and it is an image.
pub open spec fn is_named_icon(rel: Seq<char>, icon: Seq<char>) -> bool {
    &&& file_stem(rel) == Some(icon)
    &&& file_extension(rel) matches Some(e) && is_icon_extension(e)
}

/// The lowercase form of a text, as Unicode defines it.
pub uninterp spec fn lowercase(s: Seq<char>) -> Seq<char>;

/// `str::to_lowercase` of the standard library: the Unicode lowercase
/// mapping of `s`. Its result is named, not stated: the mapping spans the
/// Unicode tables.
#[verifier::external_body]
fn to_lowercase(s: &str) -> (r: String)
    ensures
        r@ == lowercase(s@),
{
    s.to_lowercase()
}

/// The file is an image whose lowercased name contains `pattern`.
pub open spec fn is_pattern_icon(rel: Seq<char>, pattern: Seq<char>) -> bool {
    &&& file_name(rel) matches Some(n) && contains_sub(lowercase(n), pattern)
    &&& file_extension(rel) matches Some(e) && is_icon_extension(e)
}

/// The first of `files` for which `p` holds.
pub open spec fn first_where(files: Seq<Seq<char>>, p: spec_fn(Seq<char>) -> bool) -> Option<
    Seq<char>,
>
    decreases files.len(),
{
    if files.len() == 0 {
        None
    } else if p(files[0]) {
        Some(files[0])
    } else {
        first_where(files.drop_first(), p)
    }
}

pub proof fn lemma_first_where_skip(files: Seq<Seq<char>>, p: spec_fn(Seq<char>) -> bool, i: int)
    requires
        0 <= i <= files.len(),
        forall|j: int| 0 <= j < i ==> !p(#[trigger] files[j]),
    ensures
        first_where(files, p) == first_where(files.skip(i), p),
    decreases i,
{
    if i > 0 {
        let t = files.drop_first();
        assert forall|j: int| 0 <= j < i - 1 implies !p(#[trigger] t[j]) by {
            assert(t[j] == files[j + 1]);
        }
        lemma_first_where_skip(t, p, i - 1);
        assert(t.skip(i - 1) =~= files.skip(i));
    } else {
        assert(files.skip(0) =~= files);
    }
}

pub open spec fn icons_dir() -> Seq<char> {
    "usr/share/icons"@
}

pub open spec fn pixmaps_dir() -> Seq<char> {
    "usr/share/pixmaps"@
}

/// The icon file chosen for icon `icon` among the files of an environment
/// (paths relative to its root, in the order a depth-first listing gives
/// them): an image named `icon` below `usr/share/icons`, else below
/// `usr/share/pixmaps`, else anywhere; failing that, an image whose name
/// contains `product_logo`, else `logo`, else `icon`.
pub open spec fn icon_choice(files: Seq<Seq<char>>, icon: Seq<char>) -> Option<Seq<char>> {
    let named = |rel: Seq<char>| is_named_icon(rel, icon);
    let in_icons = |rel: Seq<char>| is_below(rel, icons_dir()) && is_named_icon(rel, icon);
    let in_pixmaps = |rel: Seq<char>| is_below(rel, pixmaps_dir()) && is_named_icon(rel, icon);
    if first_where(files, in_icons) is Some {
        first_where(files, in_icons)
    } else if first_where(files, in_pixmaps) is Some {
        first_where(files, in_pixmaps)
    } else if first_where(files, named) is Some {
        first_where(files, named)
    } else if first_where(files, |rel: Seq<char>| is_pattern_icon(rel, "product_logo"@)) is Some {
        first_where(files, |rel: Seq<char>| is_pattern_icon(rel, "product_logo"@))
    } else if first_where(files, |rel: Seq<char>| is_pattern_icon(rel, "logo"@)) is Some {
        first_where(files, |rel: Seq<char>| is_pattern_icon(rel, "logo"@))
    } else {
        first_where(files, |rel: Seq<char>| is_pattern_icon(rel, "icon"@))
    }
}

fn icon_extension(rel: &str) -> (r: bool)
    ensures
        r == (file_extension(rel@) matches Some(e) && is_icon_extension(e)),
{
    match path_extension(rel) {
        Some(e) => {
            let es = e.as_str();
            crate::text::same_text(es, "png") || crate::text::same_text(es, "svg")
                || crate::text::same_text(es, "xpm")
        },
        None => false,
    }
}

fn named_icon(rel: &str, icon: &str) -> (r: bool)
    ensures
        r == is_named_icon(rel@, icon@),
{
    match path_file_stem(rel) {
        Some(st) => crate::text::same_text(st.as_str(), icon) && icon_extension(rel),
        None => false,
    }
}

fn pattern_icon(rel: &str, pattern: &str) -> (r: bool)
    ensures
        r == is_pattern_icon(rel@, pattern@),
{
    match path_file_name(rel) {
        Some(n) => {
            let low = to_lowercase(n.as_str());
            contains_str(low.as_str(), pattern) && icon_extension(rel)
        },
        None => false,
    }
}

fn below(rel: &str, dir: &str) -> (r: bool)
    ensures
        r == is_below(rel@, dir@),
{
    let mut d = String::from_str(dir);
    d.append("/");
    proof {
        reveal_strlit("/");
    }
    starts_with(rel, d.as_str())
}

/// Search modes of the icon lookup.
enum IconSearch {
    NamedIn(&'static str),
    Named,
    Pattern(&'static str),
}

spec fn search_pred(m: IconSearch, icon: Seq<char>) -> spec_fn(Seq<char>) -> bool {
    match m {
        IconSearch::NamedIn(d) => |rel: Seq<char>| is_below(rel, d@) && is_named_icon(rel, icon),
        IconSearch::Named => |rel: Seq<char>| is_named_icon(rel, icon),
        IconSearch::Pattern(p) => |rel: Seq<char>| is_pattern_icon(rel, p@),
    }
}

fn search_matches(m: &IconSearch, rel: &str, icon: &str) -> (r: bool)
    ensures
        r == search_pred(*m, icon@)(rel@),
{
    match m {
        IconSearch::NamedIn(d) => below(rel, d) && named_icon(rel, icon),
        IconSearch::Named => named_icon(rel, icon),
        IconSearch::Pattern(p) => pattern_icon(rel, p),
    }
}

fn first_file(files: &Vec<String>, m: IconSearch, icon: &str) -> (r: Option<String>)
    ensures
        r.deep_view() == first_where(files.deep_view(), search_pred(m, icon@)),
{
    let ghost p = search_pred(m, icon@);
    let mut i: usize = 0;
    while i < files.len()
        invariant
            i <= files@.len(),
            p == search_pred(m, icon@),
            forall|j: int| 0 <= j < i ==> !p(#[trigger] files.deep_view()[j]),
        decreases files.len() - i,
    {
        assert(files.deep_view()[i as int] == files@[i as int]@);
        if search_matches(&m, files[i].as_str(), icon) {
            proof {
                lemma_first_where_skip(files.deep_view(), p, i as int);
                assert(files.deep_view().skip(i as int)[0] == files@[i as int]@);
            }
            return Some(files[i].clone());
        }
        i = i + 1;
    }
    proof {
        lemma_first_where_skip(files.deep_view(), p, i as int);
    }
    None
}

/// The icon chosen for icon name `icon_name` among the files of an
/// environment (paths relative to its root `env_root`, in depth-first
/// listing order), as a path under `env_root`.
pub fn find_icon_in_env(env_root: &str, files: &Vec<String>, icon_name: &str) -> (r: Option<
    String,
>)
    ensures
        r.deep_view() == match icon_choice(files.deep_view(), icon_name@) {
            Some(rel) => Some(join_path(env_root@, rel)),
            None => None,
        },
{
    let ghost fv = files.deep_view();
    let ghost icon = icon_name@;
    proof {
        reveal_strlit("usr/share/icons");
        reveal_strlit("usr/share/pixmaps");
        assert(search_pred(IconSearch::NamedIn("usr/share/icons"), icon) =~= (|rel: Seq<char>|
            is_below(rel, icons_dir()) && is_named_icon(rel, icon)));
        assert(search_pred(IconSearch::NamedIn("usr/share/pixmaps"), icon) =~= (|rel: Seq<char>|
            is_below(rel, pixmaps_dir()) && is_named_icon(rel, icon)));
        assert(search_pred(IconSearch::Named, icon) =~= (|rel: Seq<char>|
            is_named_icon(rel, icon)));
        assert(search_pred(IconSearch::Pattern("product_logo"), icon) =~= (|rel: Seq<char>|
            is_pattern_icon(rel, "product_logo"@)));
        assert(search_pred(IconSearch::Pattern("logo"), icon) =~= (|rel: Seq<char>|
            is_pattern_icon(rel, "logo"@)));
        assert(search_pred(IconSearch::Pattern("icon"), icon) =~= (|rel: Seq<char>|
            is_pattern_icon(rel, "icon"@)));
    }
    let mut found = first_file(files, IconSearch::NamedIn("usr/share/icons"), icon_name);
    if found.is_none() {
        found = first_file(files, IconSearch::NamedIn("usr/share/pixmaps"), icon_name);
    }
    if found.is_none() {
        found = first_file(files, IconSearch::Named, icon_name);
    }
    if found.is_none() {
        found = first_file(files, IconSearch::Pattern("product_logo"), icon_name);
    }
    if found.is_none() {
        found = first_file(files, IconSearch::Pattern("logo"), icon_name);
    }
    if found.is_none() {
        found = first_file(files, IconSearch::Pattern("icon"), icon_name);
    }
    match found {
        Some(rel) => Some(join(env_root, rel.as_str())),
        None => None,
    }
}

} // verus!
