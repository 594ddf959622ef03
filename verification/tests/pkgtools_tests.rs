use izole::pkgtools::{
    apt_download_set, choose_apt_package, choose_dnf_package, choose_package_manager,
    choose_pacman_package, dedup, is_package_file, nvidia_library_mismatch, package_manager_name,
    parse_apt_dependencies, parse_missing_library, parse_nvidia_version, parse_pacman_urls,
    push_unique, PackageManager,
};

fn s(v: &[&str]) -> Vec<String> {
    v.iter().map(|x| x.to_string()).collect()
}

#[test]
fn missing_library_from_loader_error() {
    let err = "/usr/bin/app: error while loading shared libraries: libfoo.so.1: cannot open shared object file";
    assert_eq!(parse_missing_library(err), Some("libfoo.so.1".to_string()));
    assert_eq!(
        parse_missing_library("x error while loading shared libraries:  libGL.so : y"),
        Some("libGL.so".to_string())
    );
    assert_eq!(parse_missing_library("error while loading shared libraries: nocolon"), None);
    assert_eq!(parse_missing_library("Segmentation fault"), None);
    assert_eq!(parse_missing_library(""), None);
}

#[test]
fn package_manager_preference() {
    assert_eq!(choose_package_manager(true, true, true), PackageManager::Dnf);
    assert_eq!(choose_package_manager(false, true, true), PackageManager::Apt);
    assert_eq!(choose_package_manager(false, false, true), PackageManager::Pacman);
    assert_eq!(choose_package_manager(false, false, false), PackageManager::Dnf);
    assert_eq!(package_manager_name(PackageManager::Apt), "APT");
    assert_eq!(package_manager_name(PackageManager::Pacman), "Pacman");
    assert_eq!(package_manager_name(PackageManager::Dnf), "DNF");
}

#[test]
fn nvidia_version_from_proc() {
    let content = "NVRM version: NVIDIA UNIX x86_64 Kernel Module  550.78  Sun Apr 14 06:35:45 UTC 2024\nGCC version:  gcc version 13.2.1";
    assert_eq!(parse_nvidia_version(content), Some("550.78".to_string()));
    assert_eq!(parse_nvidia_version("no version here 12 a.b"), None);
    assert_eq!(parse_nvidia_version(""), None);
}

#[test]
fn nvidia_mismatch_detection() {
    let names = s(&["libc.so.6", "libGLX_nvidia.so.535.10", "libGLX_nvidia.so.0"]);
    assert_eq!(nvidia_library_mismatch(&names, "550.78"), Some("0".to_string()));
    let names = s(&["libGLX_nvidia.so.550.78", "libGLX_nvidia.so.0"]);
    assert_eq!(nvidia_library_mismatch(&names, "550.78"), None);
    assert_eq!(nvidia_library_mismatch(&s(&["libc.so.6"]), "550.78"), None);
}

#[test]
fn apt_dependencies_listing() {
    let out = "bash\n  Depends: libc6\n  PreDepends: libtinfo6\n  Depends: <debconf-2.0>\n  Depends: x>\n Recommends: foo\n";
    assert_eq!(parse_apt_dependencies(out), s(&["libc6", "libtinfo6"]));
    assert_eq!(parse_apt_dependencies(""), Vec::<String>::new());
}

#[test]
fn apt_download_set_is_union_without_repetition() {
    let pkgs = s(&["a", "b"]);
    let listings = vec![Some("a\n Depends: c\n Depends: b\n".to_string()), None];
    let mut r = apt_download_set(&pkgs, &listings);
    r.sort();
    assert_eq!(r, s(&["a", "b", "c"]));
    let mut v = s(&["x"]);
    push_unique(&mut v, "x".to_string());
    push_unique(&mut v, "y".to_string());
    assert_eq!(v, s(&["x", "y"]));
    assert_eq!(dedup(&s(&["q", "p", "q"])), s(&["q", "p"]));
}

#[test]
fn pacman_download_urls() {
    let out = "  https://mirror/a.pkg.tar.zst\nwarning: x\nfile:///c.pkg.tar.xz\nhttp://m/b\nftp://f/g\n";
    assert_eq!(
        parse_pacman_urls(out),
        s(&["https://mirror/a.pkg.tar.zst", "file:///c.pkg.tar.xz", "http://m/b", "ftp://f/g"])
    );
}

#[test]
fn dnf_provider_choice() {
    let out = "Last metadata expiration check\nmesa-libGL-24.0.5-1.fc40.x86_64 : Mesa libGL runtime libraries\nRepo        : fedora\nMatched from:\nFilename    : /usr/lib64/libGL.so.1\n\nmesa-libGL-24.0.5-1.fc40.i686 : Mesa libGL runtime libraries\nRepo        : fedora\n";
    assert_eq!(
        choose_dnf_package(out, "libGL.so.1", false),
        Some("mesa-libGL-24.0.5-1.fc40.x86_64".to_string())
    );
    assert_eq!(
        choose_dnf_package(out, "libGL.so.1", true),
        Some("mesa-libGL-24.0.5-1.fc40.i686".to_string())
    );
    assert_eq!(
        choose_dnf_package(out, "lib32GL.so", false),
        Some("mesa-libGL-24.0.5-1.fc40.i686".to_string())
    );
    let only_noarch = "foo-1.noarch : x\n";
    assert_eq!(choose_dnf_package(only_noarch, "a", false), Some("foo-1.noarch".to_string()));
    assert_eq!(choose_dnf_package("nothing here\n", "a", false), None);
}

#[test]
fn apt_file_choice() {
    let out = "libgl1:i386: /usr/lib/i386-linux-gnu/libGL.so.1\nlibgl1: /usr/lib/x86_64-linux-gnu/libGL.so.1\n";
    assert_eq!(choose_apt_package(out), Some("libgl1".to_string()));
    assert_eq!(choose_apt_package("no colon\n"), None);
}

#[test]
fn pacman_owner_choice() {
    let out = "usr/lib/libGL.so.1 is owned by extra/libglvnd 1.7.0-1\n";
    assert_eq!(choose_pacman_package(out), Some("libglvnd".to_string()));
    assert_eq!(
        choose_pacman_package("x is owned by   \ny is owned by local/pkg 1\n"),
        Some("pkg".to_string())
    );
    assert_eq!(choose_pacman_package("a is owned by b is owned by c\n"), Some("b".to_string()));
    assert_eq!(choose_pacman_package("nothing\n"), None);
}

#[test]
fn downloaded_package_files() {
    assert!(is_package_file(PackageManager::Dnf, "/t/a-1.x86_64.rpm"));
    assert!(!is_package_file(PackageManager::Dnf, "/t/a.deb"));
    assert!(is_package_file(PackageManager::Apt, "/t/a_1_amd64.deb"));
    assert!(is_package_file(PackageManager::Pacman, "/t/a-1-x86_64.pkg.tar.zst"));
    assert!(!is_package_file(PackageManager::Pacman, "/t/a.sig"));
}

#[test]
fn missing_library_unchanged_by_later_output() {
    let err = "app: error while loading shared libraries: libfoo.so.1: cannot open";
    let more = format!("{}\nlater error while loading shared libraries: libbar.so: x", err);
    assert_eq!(parse_missing_library(err), parse_missing_library(&more));
    assert_eq!(parse_missing_library(&more), Some("libfoo.so.1".to_string()));
}
