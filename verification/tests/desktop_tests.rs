use izole::desktop::{
    desktop_entry_name, desktop_exec_targets_named, env_shortcut, env_shortcut_names, find_icon_in_env, icon_lookup,
    rewrite_desktop_entry, set_icon_path,
};

fn s(v: &[&str]) -> Vec<String> {
    v.iter().map(|x| x.to_string()).collect()
}

#[test]
fn exec_lines_run_through_the_tool() {
    let lines = s(&[
        "[Desktop Entry]",
        "Name=Btop",
        "Exec=/usr/bin/btop --utf-force %u",
        "Icon=btop",
        "TryExec=btop",
    ]);
    assert!(desktop_exec_targets_named(&lines));
    let rw = rewrite_desktop_entry("tools", &lines);
    assert!(rw.has_exec);
    assert_eq!(rw.lines[2], "Exec=izole run tools btop --utf-force %u");
    assert_eq!(rw.lines[0], "[Desktop Entry]");
    assert_eq!(rw.lines[4], "TryExec=btop");
    let icon = rw.icon.as_ref().unwrap();
    assert_eq!(icon.name, "btop");
    assert_eq!(icon.line, 3);
    assert_eq!(icon_lookup(&rw), Some("btop".to_string()));
}

#[test]
fn exec_without_arguments_keeps_trailing_space() {
    let rw = rewrite_desktop_entry("e", &s(&["Exec=app"]));
    assert_eq!(rw.lines[0], "Exec=izole run e app ");
}

#[test]
fn entries_without_exec_or_with_absolute_icon() {
    let rw = rewrite_desktop_entry("e", &s(&["Name=x", "Icon=x", "Exec="]));
    assert!(!rw.has_exec);
    assert_eq!(icon_lookup(&rw), None);
    let rw = rewrite_desktop_entry("e", &s(&["Exec=a", "Icon= /opt/a.png ", "Icon=b"]));
    assert_eq!(rw.icon.as_ref().unwrap().name, "b");
    let rw = rewrite_desktop_entry("e", &s(&["Exec=a", "Icon=/opt/a.png"]));
    assert_eq!(icon_lookup(&rw), None);
}

#[test]
fn unnamed_exec_target_is_refused() {
    assert!(!desktop_exec_targets_named(&s(&["Exec=/ x"])));
    assert!(!desktop_exec_targets_named(&s(&["Exec=foo/.. x"])));
    assert!(desktop_exec_targets_named(&s(&["Exec=", "Name=a"])));
}

#[test]
fn icon_line_is_replaced() {
    let mut rw = rewrite_desktop_entry("e", &s(&["Exec=a", "Icon=a"]));
    set_icon_path(&mut rw, "/env/usr/share/icons/a.png");
    assert_eq!(rw.lines, s(&["Exec=izole run e a ", "Icon=/env/usr/share/icons/a.png"]));
}

#[test]
fn icon_search_order() {
    let files = s(&[
        "opt/app/icon.png",
        "opt/app/a.png",
        "usr/share/pixmaps/a.xpm",
        "usr/share/icons/hicolor/48x48/apps/a.svg",
    ]);
    assert_eq!(
        find_icon_in_env("/env", &files, "a"),
        Some("/env/usr/share/icons/hicolor/48x48/apps/a.svg".to_string())
    );
    let files = s(&["opt/app/a.png", "usr/share/pixmaps/a.xpm"]);
    assert_eq!(find_icon_in_env("/env", &files, "a"), Some("/env/usr/share/pixmaps/a.xpm".to_string()));
    let files = s(&["opt/app/a.txt", "opt/app/a.png"]);
    assert_eq!(find_icon_in_env("/env", &files, "a"), Some("/env/opt/app/a.png".to_string()));
    let files = s(&["opt/x/Icon_big.png", "opt/x/Logo.svg", "opt/x/product_logo_48.png"]);
    assert_eq!(
        find_icon_in_env("/env", &files, "zzz"),
        Some("/env/opt/x/product_logo_48.png".to_string())
    );
    let files = s(&["opt/x/Icon_big.png", "opt/x/Logo.svg"]);
    assert_eq!(find_icon_in_env("/env", &files, "zzz"), Some("/env/opt/x/Logo.svg".to_string()));
    let files = s(&["opt/x/Icon_big.png", "opt/x/logo.txt"]);
    assert_eq!(find_icon_in_env("/env", &files, "zzz"), Some("/env/opt/x/Icon_big.png".to_string()));
    assert_eq!(find_icon_in_env("/env", &s(&["a.txt"]), "a"), None);
}

#[test]
fn shortcut_names() {
    assert_eq!(desktop_entry_name("tools", "btop.desktop"), "izole-tools-btop.desktop");
    let files = s(&["btop.desktop", "README", "x.desktop.bak", "htop.desktop"]);
    assert_eq!(
        env_shortcut_names("tools", &files),
        s(&["izole-tools-btop.desktop", "izole-tools-htop.desktop"])
    );
    // environment "a" with no entries never names "izole-a-b-x.desktop" of environment "a-b"
    let of_a = env_shortcut_names("a", &s(&["y.desktop"]));
    assert_eq!(of_a, s(&["izole-a-y.desktop"]));
    assert!(!of_a.contains(&desktop_entry_name("a-b", "x.desktop")));
    assert_eq!(env_shortcut_names("a", &Vec::new()), Vec::<String>::new());
}

#[test]
fn shortcut_selection() {
    let envs = s(&["a", "a-b", "tools"]);
    let none: Vec<String> = Vec::new();
    // every izole-ENV-*.desktop, also one whose entry left the environment
    assert!(env_shortcut("tools", &envs, &none, "izole-tools-btop.desktop"));
    assert!(!env_shortcut("tool", &envs, &none, "izole-tools-btop.desktop"));
    assert!(!env_shortcut("tools", &envs, &none, "izole-tools-btop.desktop.bak"));
    assert!(!env_shortcut("tools", &envs, &none, "other.desktop"));
    // the longest fitting environment name owns a marked entry
    assert!(!env_shortcut("a", &envs, &none, "izole-a-b-x.desktop"));
    assert!(env_shortcut("a-b", &envs, &none, "izole-a-b-x.desktop"));
    assert!(env_shortcut("a", &envs, &none, "izole-a-y.desktop"));
    // unless the entry is the environment's own
    assert!(env_shortcut("a", &envs, &s(&["b-x.desktop"]), "izole-a-b-x.desktop"));
    // without an environment "a-b", "a" owns it
    assert!(env_shortcut("a", &s(&["a"]), &none, "izole-a-b-x.desktop"));
}
