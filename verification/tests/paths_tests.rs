use izole::paths::{
    applications_dir_in, base_dir_in, env_path_in, env_skeleton, envs_dir_in, get_env_path, get_envs_dir, has_extension,
    join, metadata_path, path_extension, path_file_name, path_file_stem, shim_dir_in,
};
use std::path::{Path, PathBuf};

#[test]
fn join_matches_pathbuf() {
    for (b, c) in [("a", "b"), ("a/", "b"), ("", "b"), ("a", "/b"), ("/x/y", "z/w"), ("a", "")] {
        let expected = PathBuf::from(b).join(c).to_string_lossy().into_owned();
        assert_eq!(join(b, c), expected, "{:?} {:?}", b, c);
    }
}

#[test]
fn file_parts_match_path() {
    for p in [
        "", "/", ".", "..", "a", "a/", "a/.", "a/..", "./a", "./.", "a//b//", "/usr/bin/steam",
        ".hidden", "foo.tar.gz", "foo.", "dir.d/", "x/.png", "icon.PNG", "a/./", "a/b/.//",
    ] {
        let path = Path::new(p);
        let name = path.file_name().map(|s| s.to_string_lossy().into_owned());
        let stem = path.file_stem().map(|s| s.to_string_lossy().into_owned());
        let ext = path.extension().map(|s| s.to_string_lossy().into_owned());
        assert_eq!(path_file_name(p), name, "name {:?}", p);
        assert_eq!(path_file_stem(p), stem, "stem {:?}", p);
        assert_eq!(path_extension(p), ext, "ext {:?}", p);
    }
    assert!(has_extension("x/y.rpm", "rpm"));
    assert!(!has_extension("x/y.rpm.part", "rpm"));
}

#[test]
fn environment_layout() {
    let d = Some("/home/u/.local/share".to_string());
    assert_eq!(base_dir_in(&d), "/home/u/.local/share/izole");
    assert_eq!(envs_dir_in(&d), "/home/u/.local/share/izole/envs");
    assert_eq!(env_path_in(&d, "btop"), "/home/u/.local/share/izole/envs/btop");
    assert_eq!(env_path_in(&None, "x"), "/home/ninja/.local/share/izole/envs/x");
    assert_eq!(shim_dir_in(&Some("/home/u".into())), "/home/u/.local/bin");
    assert_eq!(shim_dir_in(&None), "/home/ninja/.local/bin");
    assert_eq!(
        env_skeleton("/e"),
        vec!["/e/usr", "/e/usr/bin", "/e/usr/lib", "/e/usr/lib64", "/e/usr/share"]
    );
    assert_eq!(metadata_path("/e"), "/e/installed.json");
}

#[test]
fn current_user_paths() {
    let envs = get_envs_dir();
    assert!(envs.ends_with("/izole/envs"));
    assert_eq!(get_env_path("demo"), format!("{}/demo", envs));
}

#[test]
fn applications_dir_under_data_dir() {
    assert_eq!(
        applications_dir_in(&Some("/home/u/.local/share".to_string())),
        "/home/u/.local/share/applications"
    );
    assert_eq!(applications_dir_in(&Some("/d".to_string())), "/d/applications");
}
