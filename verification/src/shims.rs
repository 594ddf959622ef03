//! Command shims: small shell scripts in the user's `~/.local/bin` that
//! start a program of an environment by a name of the user's choice.
use vstd::prelude::*;
use crate::text::{chars_of, contains_str, contains_sub, occurs_at, trim_str, trim};

verus! {

/// The script of a shim that runs `binary` of environment `env` through
/// the tool at `exe`, passing on its arguments.
pub open spec fn shim_script(exe: Seq<char>, env: Seq<char>, binary: Seq<char>) -> Seq<char> {
    "#!/bin/bash\nexec "@ + exe + " run "@ + env + " "@ + binary + " \"$@\"\n"@
}

/// Writes the script of a shim for `binary` of environment `env_name`.
pub fn shim_script_text(exe: &str, env_name: &str, binary: &str) -> (r: String)
    ensures
        r@ == shim_script(exe@, env_name@, binary@),
{
    let mut s = String::from_str("#!/bin/bash\nexec ");
    s.append(exe);
    s.append(" run ");
    s.append(env_name);
    s.append(" ");
    s.append(binary);
    s.append(" \"$@\"\n");
    s
}

/// The name a shim gets: the alias when one is given, else the binary's.
pub fn shim_name(binary: &str, alias: Option<&str>) -> (r: String)
    ensures
        r@ == match alias {
            Some(a) => a@,
            None => binary@,
        },
{
    match alias {
        Some(a) => String::from_str(a),
        None => String::from_str(binary),
    }
}

/// An alias typed by the user: none when it is blank, else trimmed.
pub open spec fn typed_alias(input: Seq<char>) -> Option<Seq<char>> {
    if trim(input).len() == 0 {
        None
    } else {
        Some(trim(input))
    }
}

/// Reads the alias that the user typed.
pub fn alias_from_input(input: &str) -> (r: Option<String>)
    ensures
        r.deep_view() == typed_alias(input@),
{
    let t = trim_str(input);
    if chars_of(t.as_str()).len() == 0 {
        None
    } else {
        Some(t)
    }
}

/// The pattern by which a shim of environment `env` is recognised.
pub open spec fn shim_pattern(env: Seq<char>) -> Seq<char> {
    "run "@ + env + " "@
}

/// A file's content is a shim of environment `env`: a bash script that
/// contains `run ENV `.
pub open spec fn is_env_shim(env: Seq<char>, content: Seq<char>) -> bool {
    contains_sub(content, "#!/bin/bash"@) && contains_sub(content, shim_pattern(env))
}

/// Whether the file content `content` is a shim of environment `env_name`,
/// to be removed with the environment.
pub fn env_shim(env_name: &str, content: &str) -> (r: bool)
    ensures
        r == is_env_shim(env_name@, content@),
{
    let mut pattern = String::from_str("run ");
    pattern.append(env_name);
    pattern.append(" ");
    contains_str(content, "#!/bin/bash") && contains_str(content, pattern.as_str())
}

/// Every shim made for environment `env`, whatever the tool's path and
/// the binary, is recognised as one of `env`, so deleting `env` removes
/// it.
pub proof fn lemma_shim_belongs_to_env(exe: Seq<char>, env: Seq<char>, binary: Seq<char>)
    ensures
        is_env_shim(env, shim_script(exe, env, binary)),
{
    let s = shim_script(exe, env, binary);
    reveal_strlit("#!/bin/bash\nexec ");
    reveal_strlit("#!/bin/bash");
    reveal_strlit(" run ");
    reveal_strlit("run ");
    reveal_strlit(" ");
    let head = "#!/bin/bash\nexec "@;
    let shebang = "#!/bin/bash"@;
    assert(s.subrange(0, shebang.len() as int) =~= shebang);
    assert(occurs_at(s, shebang, 0));
    let at: int = (head.len() + exe.len() + 1) as int;
    let p = shim_pattern(env);
    assert(s.subrange(at, at + p.len()) =~= p);
    assert(occurs_at(s, p, at));
}

} // verus!
