use izole::sandbox::{bwrap_args, exit_code, mentions_steam};

fn s(v: &[&str]) -> Vec<String> {
    v.iter().map(|x| x.to_string()).collect()
}

#[test]
fn bwrap_command_line() {
    let args = bwrap_args("tools", "/e", true, true, true, "btop", &s(&["-x", "y"]));
    let expected = s(&[
        "--dev-bind", "/dev", "/dev", "--bind", "/run", "/run", "--bind", "/tmp", "/tmp", "--proc",
        "/proc", "--bind", "/sys", "/sys", "--bind", "/home", "/home", "--bind", "/var", "/var",
        "--setenv", "IZOLE_ENV", "tools", "--overlay-src", "/etc", "--overlay-src", "/e/etc",
        "--ro-overlay", "/etc", "--overlay-src", "/usr", "--overlay-src", "/e/usr", "--ro-overlay",
        "/usr", "--symlink", "usr/lib", "/lib", "--symlink", "usr/lib64", "/lib64", "--symlink",
        "usr/bin", "/bin", "--symlink", "usr/sbin", "/sbin", "--overlay-src", "/opt",
        "--overlay-src", "/e/opt", "--ro-overlay", "/opt", "--", "btop", "-x", "y",
    ]);
    assert_eq!(args, expected);
}

#[test]
fn bwrap_without_env_etc_or_opt() {
    let args = bwrap_args("t", "/e", false, false, true, "sh", &Vec::new());
    assert_eq!(&args[23..26], &s(&["--ro-bind", "/etc", "/etc"])[..]);
    assert_eq!(&args[args.len() - 5..], &s(&["--ro-bind", "/opt", "/opt", "--", "sh"])[..]);
    // nothing of /usr, /etc or /opt is bound writably
    for i in 0..args.len() - 2 {
        if args[i] == "--bind" || args[i] == "--dev-bind" {
            assert!(!["/usr", "/etc", "/opt"].contains(&args[i + 1].as_str()));
        }
    }
    let args = bwrap_args("t", "/e", false, true, false, "sh", &Vec::new());
    assert_eq!(&args[args.len() - 3..], &s(&["/sbin", "--", "sh"])[..]);
}

#[test]
fn exit_codes() {
    assert_eq!(exit_code(Some(3), None), 3);
    assert_eq!(exit_code(None, Some(9)), 137);
    assert_eq!(exit_code(None, None), 1);
}

#[test]
fn steam_detection() {
    assert!(mentions_steam("/usr/bin/steam", &Vec::new()));
    assert!(mentions_steam("sh", &s(&["-c", "steamcmd"])));
    assert!(!mentions_steam("btop", &s(&["x"])));
}
