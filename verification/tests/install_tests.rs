use izole::install::{install_step, start_install, InstallAction, InstallEvent, InstallFailure, InstallOutcome};
use izole::pkgtools::PackageManager;

fn s(v: &[&str]) -> Vec<String> {
    v.iter().map(|x| x.to_string()).collect()
}

#[test]
fn dnf_installation_records_and_cleans_up() {
    let (st, a) = start_install(PackageManager::Dnf, s(&["btop"]), false);
    assert!(matches!(a, InstallAction::CreateEnv));
    let (st, a) = install_step(st, InstallEvent::Done);
    assert!(matches!(a, InstallAction::PrepareDownloads));
    let (st, a) = install_step(st, InstallEvent::Done);
    match a {
        InstallAction::Download { packages } => assert_eq!(packages, s(&["btop"])),
        _ => panic!("download expected"),
    }
    let (st, a) = install_step(st, InstallEvent::Status(true));
    assert!(matches!(a, InstallAction::ListDownloads));
    let (st, a) = install_step(st, InstallEvent::Files(s(&["/t/btop-1.x86_64.rpm", "/t/notes.txt"])));
    match a {
        InstallAction::Extract { files } => assert_eq!(files, s(&["/t/btop-1.x86_64.rpm"])),
        _ => panic!("extract expected"),
    }
    let (st, a) = install_step(st, InstallEvent::Done);
    assert!(matches!(a, InstallAction::IntegrateDesktop));
    let (st, a) = install_step(st, InstallEvent::Done);
    assert!(matches!(a, InstallAction::ReadRecord));
    let (st, a) = install_step(st, InstallEvent::Record(Some(s(&["htop", "btop"]))));
    match a {
        InstallAction::WriteRecord { packages } => assert_eq!(packages, s(&["htop", "btop"])),
        _ => panic!("record expected"),
    }
    let (st, a) = install_step(st, InstallEvent::Done);
    assert!(matches!(a, InstallAction::RemoveDownloads { outcome: InstallOutcome::Installed }));
    let (_st, a) = install_step(st, InstallEvent::Done);
    assert!(matches!(a, InstallAction::Finish { outcome: InstallOutcome::Installed }));
}

#[test]
fn failed_download_and_nothing_new() {
    let (st, _) = start_install(PackageManager::Apt, s(&["a"]), true);
    let (st, a) = install_step(st, InstallEvent::Done);
    assert!(matches!(a, InstallAction::QueryDependencies { .. }));
    let (st, a) = install_step(st, InstallEvent::Listings(vec![Some(" Depends: b\n".to_string())]));
    match a {
        InstallAction::Download { mut packages } => {
            packages.sort();
            assert_eq!(packages, s(&["a", "b"]));
        }
        _ => panic!("download expected"),
    }
    let (_st, a) = install_step(st, InstallEvent::Status(false));
    assert!(matches!(a, InstallAction::RemoveDownloads { outcome: InstallOutcome::Failed(InstallFailure::AptDownload) }));

    let (st, _) = start_install(PackageManager::Dnf, s(&["a"]), true);
    let (st, _) = install_step(st, InstallEvent::Done);
    let (st, _) = install_step(st, InstallEvent::Status(true));
    let (_st, a) = install_step(st, InstallEvent::Files(s(&["/t/a.deb"])));
    assert!(matches!(a, InstallAction::RemoveDownloads { outcome: InstallOutcome::NothingNew }));
}

#[test]
fn pacman_fetches_each_url() {
    let (st, _) = start_install(PackageManager::Pacman, s(&["a"]), true);
    let (st, a) = install_step(st, InstallEvent::Done);
    assert!(matches!(a, InstallAction::QueryUrls { .. }));
    let (st, a) = install_step(st, InstallEvent::UrlOutput(Some("https://m/a.pkg.tar.zst\nhttps://m/b.pkg.tar.zst\n".to_string())));
    match a {
        InstallAction::Fetch { url } => assert_eq!(url, "https://m/a.pkg.tar.zst"),
        _ => panic!("fetch expected"),
    }
    let (st, a) = install_step(st, InstallEvent::Status(true));
    match a {
        InstallAction::Fetch { url } => assert_eq!(url, "https://m/b.pkg.tar.zst"),
        _ => panic!("fetch expected"),
    }
    let (st, a) = install_step(st, InstallEvent::Status(true));
    assert!(matches!(a, InstallAction::ListDownloads));
    let (_st, a) = install_step(st, InstallEvent::Files(s(&["/t/a.pkg.tar.zst", "/t/b.pkg.tar.zst"])));
    assert!(matches!(a, InstallAction::Extract { .. }));

    let (st, _) = start_install(PackageManager::Pacman, s(&["a"]), true);
    let (st, _) = install_step(st, InstallEvent::Done);
    let (_st, a) = install_step(st, InstallEvent::UrlOutput(None));
    assert!(matches!(a, InstallAction::RemoveDownloads { outcome: InstallOutcome::Failed(InstallFailure::NoPacmanUrls) }));

    let (st, _) = start_install(PackageManager::Pacman, s(&["a"]), true);
    let (st, _) = install_step(st, InstallEvent::Done);
    let (st, _) = install_step(st, InstallEvent::UrlOutput(Some("https://m/a\n".to_string())));
    let (_st, a) = install_step(st, InstallEvent::Status(false));
    assert!(matches!(a, InstallAction::RemoveDownloads { outcome: InstallOutcome::Failed(InstallFailure::Fetch) }));
}
