use izole::healing::{diagnosis_prompt, run_finished, run_step, start_run, AiDiagnosis, RunAction, RunEvent};
use izole::pkgtools::PackageManager;

const LIB_ERR: &str = "app: error while loading shared libraries: libfoo.so.1: cannot open shared object file";

fn exited(code: i32, err: &str) -> RunEvent {
    RunEvent::Exited { exit_code: code, stderr: err.to_string() }
}

#[test]
fn success_finishes_at_once() {
    let (s, a) = start_run("btop", &Vec::new());
    assert!(matches!(a, RunAction::Launch));
    let (s, a) = run_step(s, exited(0, "whatever"));
    assert!(matches!(a, RunAction::Finish { exit_code: 0, retry_limit: None }));
    assert!(run_finished(&s));
}

#[test]
fn missing_library_is_installed_and_retried_three_times() {
    let (mut s, _) = start_run("steam", &Vec::new());
    for round in 0..3 {
        let (s1, a) = run_step(s, exited(127, LIB_ERR));
        match a {
            RunAction::FindPackage { library, is_steam } => {
                assert_eq!(library, "libfoo.so.1");
                assert!(is_steam);
            }
            _ => panic!("round {}: lookup expected", round),
        }
        let (s2, a) = run_step(s1, RunEvent::PackageFound(Some("foo".to_string())));
        match a {
            RunAction::Install { package, required } => {
                assert_eq!(package, "foo");
                assert!(required);
            }
            _ => panic!("install expected"),
        }
        let (s3, a) = run_step(s2, RunEvent::InstallDone(true));
        assert!(matches!(a, RunAction::Launch));
        s = s3;
    }
    let (s, a) = run_step(s, exited(127, LIB_ERR));
    match a {
        RunAction::Finish { exit_code, retry_limit } => {
            assert_eq!(exit_code, 127);
            assert_eq!(retry_limit, Some("libfoo.so.1".to_string()));
        }
        _ => panic!("finish expected"),
    }
    assert!(run_finished(&s));
}

#[test]
fn failed_required_install_fails_the_run() {
    let (s, _) = start_run("app", &Vec::new());
    let (s, _) = run_step(s, exited(1, LIB_ERR));
    let (s, _) = run_step(s, RunEvent::PackageFound(Some("foo".to_string())));
    let (s, a) = run_step(s, RunEvent::InstallDone(false));
    assert!(matches!(a, RunAction::Fail));
    assert!(run_finished(&s));
}

fn diag(action: &str, pkg: Option<&str>, cmd: Option<&str>) -> AiDiagnosis {
    AiDiagnosis {
        explanation: "x".to_string(),
        fix_action: action.to_string(),
        package_name: pkg.map(|p| p.to_string()),
        command_to_run: cmd.map(|c| c.to_string()),
    }
}

#[test]
fn model_proposals_need_consent() {
    let (s, _) = start_run("app", &Vec::new());
    let (s, a) = run_step(s, exited(2, "boom"));
    assert!(matches!(a, RunAction::Diagnose));
    let (s, a) = run_step(s, RunEvent::Diagnosed(Some(diag("install_container_package", Some("fontconfig"), None))));
    match a {
        RunAction::AskInstall { package } => assert_eq!(package, "fontconfig"),
        _ => panic!("question expected"),
    }
    let (s, a) = run_step(s, RunEvent::Consent(true));
    assert!(matches!(a, RunAction::Install { required: false, .. }));
    let (s, a) = run_step(s, RunEvent::InstallDone(false));
    assert!(matches!(a, RunAction::Finish { exit_code: 2, retry_limit: None }));
    assert!(run_finished(&s));

    let (s, _) = start_run("app", &Vec::new());
    let (s, _) = run_step(s, exited(2, "boom"));
    let (s, a) = run_step(s, RunEvent::Diagnosed(Some(diag("run_command", None, Some("mkdir -p /x")))));
    assert!(matches!(a, RunAction::AskCommand { .. }));
    let (s, a) = run_step(s, RunEvent::Consent(false));
    assert!(matches!(a, RunAction::Finish { exit_code: 2, .. }));
    assert!(run_finished(&s));

    let (s, _) = start_run("app", &Vec::new());
    let (s, _) = run_step(s, exited(2, "boom"));
    let (s, a) = run_step(s, RunEvent::Diagnosed(Some(diag("run_command", None, Some("true")))));
    assert!(matches!(a, RunAction::AskCommand { .. }));
    let (s, a) = run_step(s, RunEvent::Consent(true));
    assert!(matches!(a, RunAction::RunCommand { .. }));
    let (_s, a) = run_step(s, RunEvent::CommandDone(true));
    assert!(matches!(a, RunAction::Launch));
}

#[test]
fn unusable_diagnosis_ends_the_run() {
    let (s, _) = start_run("app", &Vec::new());
    let (s, _) = run_step(s, exited(5, "boom"));
    let (s, a) = run_step(s, RunEvent::Diagnosed(Some(diag("install_container_package", None, None))));
    assert!(matches!(a, RunAction::Finish { exit_code: 5, .. }));
    assert!(run_finished(&s));
    let (s, _) = start_run("app", &Vec::new());
    let (s, _) = run_step(s, exited(5, "boom"));
    let (_s, a) = run_step(s, RunEvent::Diagnosed(None));
    assert!(matches!(a, RunAction::Finish { exit_code: 5, .. }));
}

#[test]
fn unexpected_events_change_nothing() {
    let (s, _) = start_run("app", &Vec::new());
    let (s, a) = run_step(s, RunEvent::Consent(true));
    assert!(matches!(a, RunAction::Unexpected));
    let (_s, a) = run_step(s, exited(0, ""));
    assert!(matches!(a, RunAction::Finish { exit_code: 0, .. }));
}

#[test]
fn prompt_text() {
    let command = "btop";
    let stderr = "boom";
    let (pm_desc, pm_cmd_example) = ("DNF paket adı", "sudo dnf install ...");
    let expected = format!(
        "Sen bir Linux ve Bubblewrap sandbox uzmanı yapay zeka asistanısın. \
        İzole ortamda çalıştırılan '{}' komutu şu hata çıktısıyla sonlandı:\n\n{}\n\n\
        Lütfen bu hatayı analiz et ve çözmek için ne yapılması gerektiğini bul. \
        Cevabını MUTLAKA aşağıdaki JSON formatında ver. JSON dışında hiçbir metin, markdown veya açıklama yazma.\n\n\
        Format:\n\
        {{\n\
          \"explanation\": \"Hatanın kısa Türkçe açıklaması (maksimum 2 cümle).\",\n\
          \"fix_action\": \"install_container_package\" veya \"run_command\" veya \"none\",\n\
          \"package_name\": \"Eğer kurulması gereken bir {} varsa yaz, yoksa null\",\n\
          \"command_to_run\": \"Eğer çalıştırılması gereken bir komut varsa (örn: {} veya mkdir ...), yoksa null\"\n\
        }}",
        command, stderr, pm_desc, pm_cmd_example
    );
    assert_eq!(diagnosis_prompt(command, stderr, PackageManager::Dnf), expected);
    assert!(diagnosis_prompt("a", "b", PackageManager::Pacman).contains("sudo pacman -S ..."));
    assert!(diagnosis_prompt("a", "b", PackageManager::Apt).contains("APT (deb) paket adı"));
}
