//! The bubblewrap sandbox that runs a program of an environment: its
//! command line, and how the program's end is read.
use vstd::prelude::*;
use crate::text::{contains_str, contains_sub};
use crate::paths::{join, join_path};

verus! {

/// One option of `bwrap` that shapes the sandbox's file system or
/// environment.
pub enum Mount {
    /// `--dev-bind DIR DIR`: the host's devices at `DIR`, writable.
    DevBind(Seq<char>),
    /// `--bind DIR DIR`: the host's `DIR`, writable.
    Bind(Seq<char>),
    /// `--ro-bind DIR DIR`: the host's `DIR`, read-only.
    RoBind(Seq<char>),
    /// `--proc DIR`: a fresh proc file system.
    Proc(Seq<char>),
    /// `--setenv NAME VALUE`.
    Setenv(Seq<char>, Seq<char>),
    /// The environment's directory laid read-only over the host's:
    /// `--overlay-src HOST --overlay-src ENV_DIR --ro-overlay HOST`.
    RoOverlay(Seq<char>, Seq<char>),
    /// `--symlink TARGET LINK`.
    Symlink(Seq<char>, Seq<char>),
}

/// The arguments that give `bwrap` the option `m`.
pub open spec fn mount_words(m: Mount) -> Seq<Seq<char>> {
    match m {
        Mount::DevBind(d) => seq!["--dev-bind"@, d, d],
        Mount::Bind(d) => seq!["--bind"@, d, d],
        Mount::RoBind(d) => seq!["--ro-bind"@, d, d],
        Mount::Proc(d) => seq!["--proc"@, d],
        Mount::Setenv(k, v) => seq!["--setenv"@, k, v],
        Mount::RoOverlay(host, env_dir) => seq![
            "--overlay-src"@,
            host,
            "--overlay-src"@,
            env_dir,
            "--ro-overlay"@,
            host,
        ],
        Mount::Symlink(target, link) => seq!["--symlink"@, target, link],
    }
}

/// The arguments that give `bwrap` the options `ms`, in order.
pub open spec fn mounts_words(ms: Seq<Mount>) -> Seq<Seq<char>>
    decreases ms.len(),
{
    if ms.len() == 0 {
        Seq::empty()
    } else {
        mounts_words(ms.drop_last()) + mount_words(ms.last())
    }
}

/// One more option appends its arguments.
pub proof fn lemma_mounts_words_push(ms: Seq<Mount>, m: Mount)
    ensures
        mounts_words(ms.push(m)) == mounts_words(ms) + mount_words(m),
{
    assert(ms.push(m).drop_last() =~= ms);
}

/// The host directories shared writably and the environment marker.
pub open spec fn host_mounts(env: Seq<char>) -> Seq<Mount> {
    seq![
        Mount::DevBind("/dev"@),
        Mount::Bind("/run"@),
        Mount::Bind("/tmp"@),
        Mount::Proc("/proc"@),
        Mount::Bind("/sys"@),
        Mount::Bind("/home"@),
        Mount::Bind("/var"@),
        Mount::Setenv("IZOLE_ENV"@, env),
    ]
}

/// How the sandbox sees `/etc`: the environment's own laid over the
/// host's when it has one, else the host's; read-only either way.
pub open spec fn etc_mount(root: Seq<char>, env_has_etc: bool) -> Mount {
    if env_has_etc {
        Mount::RoOverlay("/etc"@, join_path(root, "etc"@))
    } else {
        Mount::RoBind("/etc"@)
    }
}

/// The environment's `/usr` laid over the host's, and the usual links from
/// the root to it.
pub open spec fn usr_mounts(root: Seq<char>) -> Seq<Mount> {
    seq![
        Mount::RoOverlay("/usr"@, join_path(root, "usr"@)),
        Mount::Symlink("usr/lib"@, "/lib"@),
        Mount::Symlink("usr/lib64"@, "/lib64"@),
        Mount::Symlink("usr/bin"@, "/bin"@),
        Mount::Symlink("usr/sbin"@, "/sbin"@),
    ]
}

/// How the sandbox sees `/opt` when the host has one: the environment's
/// own laid over it when it has one too, else the host's; read-only
/// either way. Nothing when the host has none.
pub open spec fn opt_mounts(root: Seq<char>, env_has_opt: bool, host_has_opt: bool) -> Seq<Mount> {
    if env_has_opt && host_has_opt {
        seq![Mount::RoOverlay("/opt"@, join_path(root, "opt"@))]
    } else if host_has_opt {
        seq![Mount::RoBind("/opt"@)]
    } else {
        Seq::empty()
    }
}

/// The options of the sandbox of environment `env` rooted at `root`.
pub open spec fn sandbox_mounts(
    env: Seq<char>,
    root: Seq<char>,
    env_has_etc: bool,
    env_has_opt: bool,
    host_has_opt: bool,
) -> Seq<Mount> {
    host_mounts(env) + seq![etc_mount(root, env_has_etc)] + usr_mounts(root) + opt_mounts(
        root,
        env_has_opt,
        host_has_opt,
    )
}

/// The arguments of `bwrap` that run `command` with `args` in the
/// environment `env` rooted at `root`: the sandbox's options, then `--`,
/// the command and its arguments.
pub open spec fn bwrap_arguments(
    env: Seq<char>,
    root: Seq<char>,
    env_has_etc: bool,
    env_has_opt: bool,
    host_has_opt: bool,
    command: Seq<char>,
    args: Seq<Seq<char>>,
) -> Seq<Seq<char>> {
    mounts_words(sandbox_mounts(env, root, env_has_etc, env_has_opt, host_has_opt)) + seq![
        "--"@,
        command,
    ] + args
}

fn push_text(v: &mut Vec<String>, s: &str)
    ensures
        final(v).deep_view() == old(v).deep_view().push(s@),
{
    let ghost before = v.deep_view();
    v.push(String::from_str(s));
    assert(v.deep_view() =~= before.push(s@));
}

fn push_three(v: &mut Vec<String>, a: &str, b: &str, c: &str)
    ensures
        final(v).deep_view() == old(v).deep_view() + seq![a@, b@, c@],
{
    push_text(v, a);
    push_text(v, b);
    push_text(v, c);
    assert(final(v).deep_view() =~= old(v).deep_view() + seq![a@, b@, c@]);
}

fn push_overlay(v: &mut Vec<String>, host: &str, env_dir: &str)
    ensures
        final(v).deep_view() == old(v).deep_view() + mount_words(Mount::RoOverlay(host@, env_dir@)),
{
    push_text(v, "--overlay-src");
    push_text(v, host);
    push_text(v, "--overlay-src");
    push_text(v, env_dir);
    push_text(v, "--ro-overlay");
    push_text(v, host);
    assert(final(v).deep_view() =~= old(v).deep_view() + mount_words(
        Mount::RoOverlay(host@, env_dir@),
    ));
}

/// The command line of `bwrap` for running `command` with `args` in the
/// environment `env_name` rooted at `env_root`.
pub fn bwrap_args(
    env_name: &str,
    env_root: &str,
    env_has_etc: bool,
    env_has_opt: bool,
    host_has_opt: bool,
    command: &str,
    args: &Vec<String>,
) -> (r: Vec<String>)
    ensures
        r.deep_view() == bwrap_arguments(
            env_name@,
            env_root@,
            env_has_etc,
            env_has_opt,
            host_has_opt,
            command@,
            args.deep_view(),
        ),
{
    let mut v: Vec<String> = Vec::new();
    let ghost mut done: Seq<Mount> = Seq::empty();
    assert(v.deep_view() =~= mounts_words(done));
    push_three(&mut v, "--dev-bind", "/dev", "/dev");
    proof {
        lemma_mounts_words_push(done, Mount::DevBind("/dev"@));
        done = done.push(Mount::DevBind("/dev"@));
    }
    push_three(&mut v, "--bind", "/run", "/run");
    proof {
        lemma_mounts_words_push(done, Mount::Bind("/run"@));
        done = done.push(Mount::Bind("/run"@));
    }
    push_three(&mut v, "--bind", "/tmp", "/tmp");
    proof {
        lemma_mounts_words_push(done, Mount::Bind("/tmp"@));
        done = done.push(Mount::Bind("/tmp"@));
    }
    push_text(&mut v, "--proc");
    push_text(&mut v, "/proc");
    proof {
        lemma_mounts_words_push(done, Mount::Proc("/proc"@));
        assert(v.deep_view() =~= mounts_words(done) + mount_words(Mount::Proc("/proc"@)));
        done = done.push(Mount::Proc("/proc"@));
    }
    push_three(&mut v, "--bind", "/sys", "/sys");
    proof {
        lemma_mounts_words_push(done, Mount::Bind("/sys"@));
        done = done.push(Mount::Bind("/sys"@));
    }
    push_three(&mut v, "--bind", "/home", "/home");
    proof {
        lemma_mounts_words_push(done, Mount::Bind("/home"@));
        done = done.push(Mount::Bind("/home"@));
    }
    push_three(&mut v, "--bind", "/var", "/var");
    proof {
        lemma_mounts_words_push(done, Mount::Bind("/var"@));
        done = done.push(Mount::Bind("/var"@));
    }
    push_three(&mut v, "--setenv", "IZOLE_ENV", env_name);
    proof {
        lemma_mounts_words_push(done, Mount::Setenv("IZOLE_ENV"@, env_name@));
        done = done.push(Mount::Setenv("IZOLE_ENV"@, env_name@));
        assert(done =~= host_mounts(env_name@));
    }
    if env_has_etc {
        let etc = join(env_root, "etc");
        push_overlay(&mut v, "/etc", etc.as_str());
    } else {
        push_three(&mut v, "--ro-bind", "/etc", "/etc");
    }
    proof {
        lemma_mounts_words_push(done, etc_mount(env_root@, env_has_etc));
        done = done.push(etc_mount(env_root@, env_has_etc));
    }
    let usr = join(env_root, "usr");
    push_overlay(&mut v, "/usr", usr.as_str());
    proof {
        lemma_mounts_words_push(done, Mount::RoOverlay("/usr"@, usr@));
        done = done.push(Mount::RoOverlay("/usr"@, usr@));
    }
    push_three(&mut v, "--symlink", "usr/lib", "/lib");
    proof {
        lemma_mounts_words_push(done, Mount::Symlink("usr/lib"@, "/lib"@));
        done = done.push(Mount::Symlink("usr/lib"@, "/lib"@));
    }
    push_three(&mut v, "--symlink", "usr/lib64", "/lib64");
    proof {
        lemma_mounts_words_push(done, Mount::Symlink("usr/lib64"@, "/lib64"@));
        done = done.push(Mount::Symlink("usr/lib64"@, "/lib64"@));
    }
    push_three(&mut v, "--symlink", "usr/bin", "/bin");
    proof {
        lemma_mounts_words_push(done, Mount::Symlink("usr/bin"@, "/bin"@));
        done = done.push(Mount::Symlink("usr/bin"@, "/bin"@));
    }
    push_three(&mut v, "--symlink", "usr/sbin", "/sbin");
    proof {
        lemma_mounts_words_push(done, Mount::Symlink("usr/sbin"@, "/sbin"@));
        done = done.push(Mount::Symlink("usr/sbin"@, "/sbin"@));
    }
    if env_has_opt && host_has_opt {
        let opt = join(env_root, "opt");
        push_overlay(&mut v, "/opt", opt.as_str());
        proof {
            lemma_mounts_words_push(done, Mount::RoOverlay("/opt"@, opt@));
            done = done.push(Mount::RoOverlay("/opt"@, opt@));
        }
    } else if host_has_opt {
        push_three(&mut v, "--ro-bind", "/opt", "/opt");
        proof {
            lemma_mounts_words_push(done, Mount::RoBind("/opt"@));
            done = done.push(Mount::RoBind("/opt"@));
        }
    }
    assert(done =~= sandbox_mounts(env_name@, env_root@, env_has_etc, env_has_opt, host_has_opt));
    push_text(&mut v, "--");
    push_text(&mut v, command);
    let ghost before_args = v.deep_view();
    let mut i: usize = 0;
    while i < args.len()
        invariant
            i <= args@.len(),
            v.deep_view() == before_args + args.deep_view().take(i as int),
        decreases args.len() - i,
    {
        let ghost b = v.deep_view();
        v.push(args[i].clone());
        assert(args.deep_view()[i as int] == args@[i as int]@);
        assert(v.deep_view() =~= b.push(args@[i as int]@));
        assert(args.deep_view().take(i + 1) =~= args.deep_view().take(i as int).push(
            args.deep_view()[i as int],
        ));
        assert(before_args + args.deep_view().take(i + 1) =~= (before_args
            + args.deep_view().take(i as int)).push(args.deep_view()[i as int]));
        i = i + 1;
    }
    assert(args.deep_view().take(args@.len() as int) =~= args.deep_view());
    assert(v.deep_view() =~= bwrap_arguments(
        env_name@,
        env_root@,
        env_has_etc,
        env_has_opt,
        host_has_opt,
        command@,
        args.deep_view(),
    ));
    v
}

/// `/usr`, `/etc` and `/opt`: the system directories that programs of an
/// environment must not change.
pub open spec fn is_system_dir(d: Seq<char>) -> bool {
    d == "/usr"@ || d == "/etc"@ || d == "/opt"@
}

/// The option shares one of the host's system directories writably.
pub open spec fn writes_system_dir(m: Mount) -> bool {
    match m {
        Mount::DevBind(d) => is_system_dir(d),
        Mount::Bind(d) => is_system_dir(d),
        _ => false,
    }
}

proof fn lemma_host_dirs_not_system()
    ensures
        !is_system_dir("/dev"@),
        !is_system_dir("/run"@),
        !is_system_dir("/tmp"@),
        !is_system_dir("/sys"@),
        !is_system_dir("/home"@),
        !is_system_dir("/var"@),
{
    reveal_strlit("/usr");
    reveal_strlit("/etc");
    reveal_strlit("/opt");
    reveal_strlit("/dev");
    reveal_strlit("/run");
    reveal_strlit("/tmp");
    reveal_strlit("/sys");
    reveal_strlit("/home");
    reveal_strlit("/var");
    assert("/dev"@[1] != "/usr"@[1] && "/dev"@[1] != "/etc"@[1] && "/dev"@[2] != "/opt"@[2]);
    assert("/run"@[1] != "/usr"@[1] && "/run"@[1] != "/etc"@[1] && "/run"@[1] != "/opt"@[1]);
    assert("/tmp"@[1] != "/usr"@[1] && "/tmp"@[1] != "/etc"@[1] && "/tmp"@[1] != "/opt"@[1]);
    assert("/sys"@[1] != "/usr"@[1] && "/sys"@[1] != "/etc"@[1] && "/sys"@[1] != "/opt"@[1]);
    assert("/var"@[1] != "/usr"@[1] && "/var"@[1] != "/etc"@[1] && "/var"@[1] != "/opt"@[1]);
}

/// Whatever the environment holds, the sandbox never shares `/usr`, `/etc`
/// or `/opt` writably: `/usr` is always the environment's laid read-only
/// over the host's, `/etc` and (when the host has one) `/opt` are that
/// too when the environment has its own, else the host's bound
/// read-only. The host's devices, `/tmp` and the user's home are shared
/// writably, the environment is named in `IZOLE_ENV`, and the command
/// line ends with `--`, the command and its arguments.
pub proof fn lemma_sandbox_shape(
    env: Seq<char>,
    root: Seq<char>,
    env_has_etc: bool,
    env_has_opt: bool,
    host_has_opt: bool,
    command: Seq<char>,
    args: Seq<Seq<char>>,
)
    ensures
        ({
            let ms = sandbox_mounts(env, root, env_has_etc, env_has_opt, host_has_opt);
            &&& forall|i: int| 0 <= i < ms.len() ==> !writes_system_dir(#[trigger] ms[i])
            &&& ms.contains(Mount::RoOverlay("/usr"@, join_path(root, "usr"@)))
            &&& ms.contains(
                if env_has_etc {
                    Mount::RoOverlay("/etc"@, join_path(root, "etc"@))
                } else {
                    Mount::RoBind("/etc"@)
                },
            )
            &&& host_has_opt ==> ms.contains(
                if env_has_opt {
                    Mount::RoOverlay("/opt"@, join_path(root, "opt"@))
                } else {
                    Mount::RoBind("/opt"@)
                },
            )
            &&& ms.contains(Mount::DevBind("/dev"@))
            &&& ms.contains(Mount::Bind("/tmp"@))
            &&& ms.contains(Mount::Bind("/home"@))
            &&& ms.contains(Mount::Setenv("IZOLE_ENV"@, env))
            &&& bwrap_arguments(env, root, env_has_etc, env_has_opt, host_has_opt, command, args)
                == mounts_words(ms) + seq!["--"@, command] + args
        }),
{
    let ms = sandbox_mounts(env, root, env_has_etc, env_has_opt, host_has_opt);
    lemma_host_dirs_not_system();
    let h = host_mounts(env);
    let u = usr_mounts(root);
    let o = opt_mounts(root, env_has_opt, host_has_opt);
    assert(ms.len() == 14 + o.len());
    assert forall|i: int| 0 <= i < ms.len() implies !writes_system_dir(#[trigger] ms[i]) by {
        if i < 8 {
            assert(ms[i] == h[i]);
        } else if i == 8 {
            assert(ms[i] == etc_mount(root, env_has_etc));
        } else if i < 14 {
            assert(ms[i] == u[i - 9]);
        } else {
            assert(ms[i] == o[i - 14]);
        }
    }
    assert(ms[9] == Mount::RoOverlay("/usr"@, join_path(root, "usr"@)));
    assert(ms[8] == etc_mount(root, env_has_etc));
    if host_has_opt {
        assert(ms[14] == o[0]);
    }
    assert(ms[0] == Mount::DevBind("/dev"@));
    assert(ms[2] == Mount::Bind("/tmp"@));
    assert(ms[5] == Mount::Bind("/home"@));
    assert(ms[7] == Mount::Setenv("IZOLE_ENV"@, env));
}

/// The exit code reported for a finished program: its own exit code, or
/// 128 plus the number of the signal that ended it, else 1.
pub open spec fn exit_code_of(code: Option<i32>, signal: Option<i32>) -> int {
    match code {
        Some(c) => c as int,
        None => match signal {
            Some(s) => 128 + s,
            None => 1,
        },
    }
}

/// The exit code to report for a finished program.
pub fn exit_code(code: Option<i32>, signal: Option<i32>) -> (r: i32)
    requires
        signal matches Some(s) ==> s <= i32::MAX - 128,
    ensures
        r as int == exit_code_of(code, signal),
{
    match code {
        Some(c) => c,
        None => match signal {
            Some(s) => 128 + s,
            None => 1,
        },
    }
}

/// The command or one of its arguments mentions Steam, whose libraries
/// are 32-bit.
pub open spec fn mentions_steam_spec(command: Seq<char>, args: Seq<Seq<char>>) -> bool {
    contains_sub(command, "steam"@) || exists|i: int|
        0 <= i < args.len() && contains_sub(#[trigger] args[i], "steam"@)
}

/// Whether a command line mentions Steam.
pub fn mentions_steam(command: &str, args: &Vec<String>) -> (r: bool)
    ensures
        r == mentions_steam_spec(command@, args.deep_view()),
{
    if contains_str(command, "steam") {
        return true;
    }
    let mut i: usize = 0;
    while i < args.len()
        invariant
            i <= args@.len(),
            forall|j: int| 0 <= j < i ==> !contains_sub(#[trigger] args.deep_view()[j], "steam"@),
        decreases args.len() - i,
    {
        assert(args.deep_view()[i as int] == args@[i as int]@);
        if contains_str(args[i].as_str(), "steam") {
            return true;
        }
        i = i + 1;
    }
    false
}

} // verus!
