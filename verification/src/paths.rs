//! Paths as text: joining, the last component, stem and extension, and
//! the directories where environments, desktop entries and command
//! shims live.
use vstd::prelude::*;
use crate::text::{chars_of, substring, suffix_len_where, lemma_suffix_len_is, same_text};

verus! {

/// `comp` appended to `base` as a path: an absolute `comp` replaces
/// `base`; otherwise a `/` separates them unless `base` is empty or
/// already ends with one.
pub open spec fn join_path(base: Seq<char>, comp: Seq<char>) -> Seq<char> {
    if comp.len() > 0 && comp[0] == '/' {
        comp
    } else if base.len() > 0 && base.last() != '/' {
        base + seq!['/'] + comp
    } else {
        base + comp
    }
}

/// Joins `comp` onto the path `base`.
pub fn join(base: &str, comp: &str) -> (r: String)
    ensures
        r@ == join_path(base@, comp@),
{
    let b = chars_of(base);
    let c = chars_of(comp);
    if c.len() > 0 && c[0] == '/' {
        return String::from_str(comp);
    }
    let mut r = String::from_str(base);
    if b.len() > 0 && b[b.len() - 1] != '/' {
        r.append("/");
        proof {
            reveal_strlit("/");
        }
    }
    r.append(comp);
    r
}

pub open spec fn not_slash_pred() -> spec_fn(char) -> bool {
    |c: char| c != '/'
}

/// The last component of a path, as its final normal component: trailing
/// separators and `.` components are passed over; none for an empty path,
/// the root, `.`, or a path that ends in `..`.
pub open spec fn file_name(p: Seq<char>) -> Option<Seq<char>>
    decreases p.len(),
{
    if p.len() == 0 {
        None
    } else if p.last() == '/' {
        file_name(p.drop_last())
    } else {
        let k = suffix_len_where(p, not_slash_pred());
        let seg = p.skip(p.len() - k);
        let rest = p.take(p.len() - k);
        if 0 < k <= p.len() && seg == seq!['.'] {
            if rest.len() == 0 {
                None
            } else {
                file_name(rest)
            }
        } else if seg == seq!['.', '.'] {
            None
        } else {
            Some(seg)
        }
    }
}

/// The last component of the path `p`.
pub fn path_file_name(p: &str) -> (r: Option<String>)
    ensures
        r.deep_view() == file_name(p@),
{
    let v = chars_of(p);
    let mut e: usize = v.len();
    assert(v@.take(e as int) =~= v@);
    while e > 0
        invariant
            e <= v@.len(),
            v@ == p@,
            file_name(p@) == file_name(v@.take(e as int)),
        decreases e,
    {
        let ghost t = v@.take(e as int);
        if v[e - 1] == '/' {
            assert(t.drop_last() =~= v@.take(e - 1));
            e = e - 1;
        } else {
            let mut b: usize = e - 1;
            while b > 0 && v[b - 1] != '/'
                invariant
                    b < e <= v@.len(),
                    forall|j: int| b <= j < e ==> #[trigger] v@[j] != '/',
                decreases b,
            {
                b = b - 1;
            }
            proof {
                assert forall|j: int| b <= j < t.len() implies not_slash_pred()(#[trigger] t[j]) by {
                    assert(t[j] == v@[j]);
                }
                if b > 0 {
                    assert(t[b - 1] == v@[b - 1]);
                }
                lemma_suffix_len_is(t, not_slash_pred(), b as int);
                assert(t.skip(b as int) =~= v@.subrange(b as int, e as int));
                assert(t.take(b as int) =~= v@.take(b as int));
            }
            let seg = substring(p, b, e);
            if e - b == 1 && v[b] == '.' {
                assert(seg@ =~= seq!['.']);
                if b == 0 {
                    return None;
                }
                e = b;
            } else if e - b == 2 && v[b] == '.' && v[b + 1] == '.' {
                assert(seg@ =~= seq!['.', '.']);
                return None;
            } else {
                proof {
                    if seg@ == seq!['.'] {
                        assert(seg@[0] == v@[b as int]);
                    }
                    if seg@ == seq!['.', '.'] {
                        assert(seg@[0] == v@[b as int]);
                        assert(seg@[1] == v@[b + 1]);
                    }
                }
                return Some(seg);
            }
        }
    }
    assert(v@.take(0) =~= Seq::<char>::empty());
    None
}

pub open spec fn not_dot_pred() -> spec_fn(char) -> bool {
    |c: char| c != '.'
}

/// Position of the dot that starts the extension of a file name: its last
/// dot, unless that is the first character or there is none.
pub open spec fn extension_dot(name: Seq<char>) -> Option<int> {
    let k = suffix_len_where(name, not_dot_pred());
    if k < name.len() && name.len() - k - 1 > 0 {
        Some(name.len() - k - 1)
    } else {
        None
    }
}

/// The stem of a file name: the name before its extension dot.
pub open spec fn stem_of(name: Seq<char>) -> Seq<char> {
    match extension_dot(name) {
        Some(i) => name.take(i),
        None => name,
    }
}

/// The extension of a file name: the text after its extension dot.
pub open spec fn extension_of(name: Seq<char>) -> Option<Seq<char>> {
    match extension_dot(name) {
        Some(i) => Some(name.skip(i + 1)),
        None => None,
    }
}

/// The stem of the last component of a path.
pub open spec fn file_stem(p: Seq<char>) -> Option<Seq<char>> {
    match file_name(p) {
        Some(n) => Some(stem_of(n)),
        None => None,
    }
}

/// The extension of the last component of a path.
pub open spec fn file_extension(p: Seq<char>) -> Option<Seq<char>> {
    match file_name(p) {
        Some(n) => extension_of(n),
        None => None,
    }
}

fn split_extension(name: &str) -> (r: (String, Option<String>))
    ensures
        r.0@ == stem_of(name@),
        r.1.deep_view() == extension_of(name@),
{
    let v = chars_of(name);
    let n = v.len();
    let mut b: usize = n;
    while b > 0 && v[b - 1] != '.'
        invariant
            b <= n == v@.len(),
            forall|j: int| b <= j < n ==> #[trigger] v@[j] != '.',
        decreases b,
    {
        b = b - 1;
    }
    proof {
        assert forall|j: int| b <= j < v@.len() implies not_dot_pred()(#[trigger] v@[j]) by {}
        lemma_suffix_len_is(v@, not_dot_pred(), b as int);
    }
    if b >= 2 {
        (substring(name, 0, b - 1), Some(substring(name, b, n)))
    } else {
        (String::from_str(name), None)
    }
}

/// The stem of the last component of the path `p`.
pub fn path_file_stem(p: &str) -> (r: Option<String>)
    ensures
        r.deep_view() == file_stem(p@),
{
    match path_file_name(p) {
        Some(n) => {
            let (s, _e) = split_extension(n.as_str());
            Some(s)
        },
        None => None,
    }
}

/// The extension of the last component of the path `p`.
pub fn path_extension(p: &str) -> (r: Option<String>)
    ensures
        r.deep_view() == file_extension(p@),
{
    match path_file_name(p) {
        Some(n) => {
            let (_s, e) = split_extension(n.as_str());
            e
        },
        None => None,
    }
}

/// Whether the path `p` has the extension `ext`.
pub fn has_extension(p: &str, ext: &str) -> (r: bool)
    ensures
        r == (file_extension(p@) == Some(ext@)),
{
    match path_extension(p) {
        Some(e) => same_text(e.as_str(), ext),
        None => false,
    }
}

/// `dirs::data_dir`, the user's data directory (`$XDG_DATA_HOME` when it
/// is absolute, else `~/.local/share`), as text. The crate returns a
/// path only when it has one that is not empty; which path comes back
/// depends on the environment, and nothing else is stated of it.
#[verifier::external_body]
fn user_data_dir() -> (r: Option<String>)
    ensures
        r matches Some(p) ==> p@.len() > 0,
{
    match dirs::data_dir() {
        Some(p) => Some(p.to_string_lossy().into_owned()),
        None => None,
    }
}

/// `dirs::home_dir`, the user's home directory (`$HOME` when set and not
/// empty, else the password database entry), as text. The crate returns
/// a path only when it has one that is not empty; which path comes back
/// depends on the environment, and nothing else is stated of it.
#[verifier::external_body]
fn user_home_dir() -> (r: Option<String>)
    ensures
        r matches Some(p) ==> p@.len() > 0,
{
    match dirs::home_dir() {
        Some(p) => Some(p.to_string_lossy().into_owned()),
        None => None,
    }
}

/// The user's data directory, or the fixed fallback when there is none.
pub open spec fn data_dir_or_default(data: Option<Seq<char>>) -> Seq<char> {
    match data {
        Some(d) => d,
        None => "/home/ninja/.local/share"@,
    }
}

/// The directory that holds everything of the tool.
pub open spec fn base_dir(data: Option<Seq<char>>) -> Seq<char> {
    join_path(data_dir_or_default(data), "izole"@)
}

/// The directory that holds the environments.
pub open spec fn envs_dir(data: Option<Seq<char>>) -> Seq<char> {
    join_path(base_dir(data), "envs"@)
}

/// The root directory of the environment `name`.
pub open spec fn env_path(data: Option<Seq<char>>, name: Seq<char>) -> Seq<char> {
    join_path(envs_dir(data), name)
}

/// The directory where desktop entries are installed.
pub open spec fn applications_dir(data: Option<Seq<char>>) -> Seq<char> {
    join_path(data_dir_or_default(data), "applications"@)
}

/// The directory where command shims are installed.
pub open spec fn shim_dir(home: Option<Seq<char>>) -> Seq<char> {
    join_path(
        match home {
            Some(h) => h,
            None => "/home/ninja"@,
        },
        ".local/bin"@,
    )
}

/// What the data-directory lookup can give: nothing, or a non-empty path.
pub open spec fn possible_dir(d: Option<Seq<char>>) -> bool {
    d matches Some(p) ==> p.len() > 0
}

fn data_dir_text(data: &Option<String>) -> (r: String)
    ensures
        r@ == data_dir_or_default(data.deep_view()),
{
    match data {
        Some(d) => d.clone(),
        None => String::from_str("/home/ninja/.local/share"),
    }
}

/// The tool's base directory under the data directory `data`.
pub fn base_dir_in(data: &Option<String>) -> (r: String)
    ensures
        r@ == base_dir(data.deep_view()),
{
    join(data_dir_text(data).as_str(), "izole")
}

/// The environments directory under the data directory `data`.
pub fn envs_dir_in(data: &Option<String>) -> (r: String)
    ensures
        r@ == envs_dir(data.deep_view()),
{
    join(base_dir_in(data).as_str(), "envs")
}

/// The root of environment `env_name` under the data directory `data`.
pub fn env_path_in(data: &Option<String>, env_name: &str) -> (r: String)
    ensures
        r@ == env_path(data.deep_view(), env_name@),
{
    join(envs_dir_in(data).as_str(), env_name)
}

/// The tool's base directory for the current user.
pub fn get_base_dir() -> (r: String)
    ensures
        exists|d: Option<Seq<char>>| possible_dir(d) && r@ == base_dir(d),
{
    let data = user_data_dir();
    let r = base_dir_in(&data);
    assert(possible_dir(data.deep_view()) && r@ == base_dir(data.deep_view()));
    r
}

/// The environments directory for the current user.
pub fn get_envs_dir() -> (r: String)
    ensures
        exists|d: Option<Seq<char>>| possible_dir(d) && r@ == envs_dir(d),
{
    let data = user_data_dir();
    let r = envs_dir_in(&data);
    assert(possible_dir(data.deep_view()) && r@ == envs_dir(data.deep_view()));
    r
}

/// The root of environment `env_name` for the current user.
pub fn get_env_path(env_name: &str) -> (r: String)
    ensures
        exists|d: Option<Seq<char>>| possible_dir(d) && r@ == env_path(d, env_name@),
{
    let data = user_data_dir();
    let r = env_path_in(&data, env_name);
    assert(possible_dir(data.deep_view()) && r@ == env_path(data.deep_view(), env_name@));
    r
}

/// The desktop-entry directory under the data directory `data`.
pub fn applications_dir_in(data: &Option<String>) -> (r: String)
    ensures
        r@ == applications_dir(data.deep_view()),
{
    join(data_dir_text(data).as_str(), "applications")
}

/// The desktop-entry directory for the current user.
pub fn get_applications_dir() -> (r: String)
    ensures
        exists|d: Option<Seq<char>>| possible_dir(d) && r@ == applications_dir(d),
{
    let data = user_data_dir();
    let r = applications_dir_in(&data);
    assert(possible_dir(data.deep_view()) && r@ == applications_dir(data.deep_view()));
    r
}

/// The shim directory under the home directory `home`.
pub fn shim_dir_in(home: &Option<String>) -> (r: String)
    ensures
        r@ == shim_dir(home.deep_view()),
{
    let h = match home {
        Some(h) => h.clone(),
        None => String::from_str("/home/ninja"),
    };
    join(h.as_str(), ".local/bin")
}

/// The shim directory for the current user.
pub fn get_shim_dir() -> (r: String)
    ensures
        exists|h: Option<Seq<char>>| possible_dir(h) && r@ == shim_dir(h),
{
    let home = user_home_dir();
    let r = shim_dir_in(&home);
    assert(possible_dir(home.deep_view()) && r@ == shim_dir(home.deep_view()));
    r
}

/// The directories of a new environment rooted at `root`: `usr` and its
/// `bin`, `lib`, `lib64` and `share`.
pub open spec fn env_skeleton_dirs(root: Seq<char>) -> Seq<Seq<char>> {
    let usr = join_path(root, "usr"@);
    seq![
        usr,
        join_path(usr, "bin"@),
        join_path(usr, "lib"@),
        join_path(usr, "lib64"@),
        join_path(usr, "share"@),
    ]
}

/// The directories to create for a new environment rooted at `root`.
pub fn env_skeleton(root: &str) -> (r: Vec<String>)
    ensures
        r.deep_view() == env_skeleton_dirs(root@),
{
    let usr = join(root, "usr");
    let mut v: Vec<String> = Vec::new();
    v.push(join(usr.as_str(), "bin"));
    v.push(join(usr.as_str(), "lib"));
    v.push(join(usr.as_str(), "lib64"));
    v.push(join(usr.as_str(), "share"));
    v.insert(0, usr);
    assert(v.deep_view() =~= env_skeleton_dirs(root@));
    v
}

/// Where an environment records its installed packages.
pub open spec fn metadata_file(root: Seq<char>) -> Seq<char> {
    join_path(root, "installed.json"@)
}

/// The package record file of the environment rooted at `root`.
pub fn metadata_path(root: &str) -> (r: String)
    ensures
        r@ == metadata_file(root@),
{
    join(root, "installed.json")
}

} // verus!
