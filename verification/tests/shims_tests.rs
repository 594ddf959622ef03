use izole::shims::{alias_from_input, env_shim, shim_name, shim_script_text};

#[test]
fn shim_script_and_recognition() {
    let script = shim_script_text("/home/u/.local/bin/izole", "tools", "btop");
    assert_eq!(script, "#!/bin/bash\nexec /home/u/.local/bin/izole run tools btop \"$@\"\n");
    assert!(env_shim("tools", &script));
    assert!(!env_shim("tool", &script));
    assert!(!env_shim("tools", "exec izole run tools btop"));
    // a shim of "a" is not one of "a-b"
    let of_a = shim_script_text("/bin/izole", "a", "x");
    assert!(env_shim("a", &of_a));
    assert!(!env_shim("a-b", &of_a));
    // a script without the bash line is left alone
    assert!(!env_shim("tools", "echo run tools now\n"));
    // shims whose parts hold spaces are recognised too
    let spaced = shim_script_text("/my dir/izole", "my env", "my bin");
    assert!(env_shim("my env", &spaced));
}

#[test]
fn shim_names() {
    assert_eq!(shim_name("btop", None), "btop");
    assert_eq!(shim_name("btop", Some("top")), "top");
    assert_eq!(alias_from_input("   "), None);
    assert_eq!(alias_from_input(" top "), Some("top".to_string()));
}
