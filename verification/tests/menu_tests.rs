use izole::menu::{
    menu_finished, menu_step, start_menu, EnvTask, MenuAction, MenuEvent, MenuPhase, Notice,
    PauseKind, SelectPrompt, TextPrompt,
};

fn s(v: &[&str]) -> Vec<String> {
    v.iter().map(|x| x.to_string()).collect()
}

fn step(p: MenuPhase, e: MenuEvent) -> (MenuPhase, MenuAction) {
    menu_step(p, e)
}

#[test]
fn create_environment_flow() {
    let (p, a) = start_menu();
    assert!(matches!(a, MenuAction::ShowMenu));
    let (p, a) = step(p, MenuEvent::Selected(Some(1)));
    assert!(matches!(a, MenuAction::PromptText(TextPrompt::NewEnvName)));
    let (p, a) = step(p, MenuEvent::Text("  demo ".to_string()));
    match a {
        MenuAction::CreateEnv { name } => assert_eq!(name, "demo"),
        _ => panic!("create expected"),
    }
    let (p, a) = step(p, MenuEvent::Done);
    assert!(matches!(a, MenuAction::Pause { notice: None, kind: PauseKind::Continue }));
    let (p, a) = step(p, MenuEvent::Acknowledged);
    assert!(matches!(a, MenuAction::ShowMenu));
    let (p, a) = step(p, MenuEvent::Selected(Some(1)));
    assert!(matches!(a, MenuAction::PromptText(_)));
    let (_p, a) = step(p, MenuEvent::Text("   ".to_string()));
    assert!(matches!(a, MenuAction::Pause { notice: Some(Notice::InvalidEnvName), .. }));
}

#[test]
fn install_flow_offers_new_environment() {
    let (p, _) = start_menu();
    let (p, a) = step(p, MenuEvent::Selected(Some(2)));
    assert!(matches!(a, MenuAction::LoadEnvs));
    let (p, a) = step(p, MenuEvent::Envs(s(&["a", "b"])));
    match a {
        MenuAction::PromptSelect { prompt: SelectPrompt::InstallEnv, items } => {
            assert_eq!(items, s(&["a", "b", "[Yeni Ortam Oluştur]"]))
        }
        _ => panic!("selection expected"),
    }
    let (p, a) = step(p, MenuEvent::Selected(Some(1)));
    assert!(matches!(a, MenuAction::PromptText(TextPrompt::Packages)));
    let (p, a) = step(p, MenuEvent::Text(" vim  git ".to_string()));
    match a {
        MenuAction::InstallPackages { env, packages } => {
            assert_eq!(env, "b");
            assert_eq!(packages, s(&["vim", "git"]));
        }
        _ => panic!("install expected"),
    }
    let (_p, a) = step(p, MenuEvent::Done);
    assert!(matches!(a, MenuAction::Pause { .. }));

    let (p, _) = start_menu();
    let (p, _) = step(p, MenuEvent::Selected(Some(2)));
    let (p, a) = step(p, MenuEvent::Envs(Vec::new()));
    assert!(matches!(a, MenuAction::PromptText(TextPrompt::EnvNameNoEnvs)));
    let (_p, a) = step(p, MenuEvent::Text("  ".to_string()));
    assert!(matches!(a, MenuAction::ShowMenu));
}

#[test]
fn run_flow_with_custom_command() {
    let (p, _) = start_menu();
    let (p, _) = step(p, MenuEvent::Selected(Some(3)));
    let (p, a) = step(p, MenuEvent::Envs(s(&["tools"])));
    assert!(matches!(a, MenuAction::PromptSelect { prompt: SelectPrompt::RunEnv, .. }));
    let (p, a) = step(p, MenuEvent::Selected(Some(0)));
    assert!(matches!(a, MenuAction::LoadBinaries { .. }));
    let (p, a) = step(p, MenuEvent::Binaries(s(&["btop"])));
    match a {
        MenuAction::PromptSelect { prompt: SelectPrompt::RunBinary, items } => {
            assert_eq!(items, s(&["btop", "[Özel Komut Yaz]"]))
        }
        _ => panic!("selection expected"),
    }
    let (p, a) = step(p, MenuEvent::Selected(Some(1)));
    assert!(matches!(a, MenuAction::PromptText(TextPrompt::Command)));
    let (p, a) = step(p, MenuEvent::Text(" bash ".to_string()));
    assert!(matches!(a, MenuAction::PromptText(TextPrompt::Arguments)));
    let (p, a) = step(p, MenuEvent::Text("-c  ls".to_string()));
    match a {
        MenuAction::RunApp { env, command, typed, args } => {
            assert_eq!(env, "tools");
            assert_eq!(command, "bash");
            assert_eq!(typed, " bash ");
            assert_eq!(args, s(&["-c", "ls"]));
        }
        _ => panic!("run expected"),
    }
    let (_p, a) = step(p, MenuEvent::Done);
    assert!(matches!(a, MenuAction::Pause { kind: PauseKind::AppEnded, .. }));
}

#[test]
fn no_environments_and_cancel() {
    let (p, _) = start_menu();
    let (p, _) = step(p, MenuEvent::Selected(Some(3)));
    let (_p, a) = step(p, MenuEvent::Envs(Vec::new()));
    assert!(matches!(a, MenuAction::Pause { notice: Some(Notice::NoEnvsToRun), .. }));
    let (p, _) = start_menu();
    let (p, _) = step(p, MenuEvent::Selected(Some(5)));
    let (p, a) = step(p, MenuEvent::Envs(s(&["x"])));
    assert!(matches!(a, MenuAction::PromptSelect { prompt: SelectPrompt::InfoEnv, .. }));
    let (_p, a) = step(p, MenuEvent::Selected(None));
    assert!(matches!(a, MenuAction::ShowMenu));
}

#[test]
fn delete_only_after_confirmation() {
    let (p, _) = start_menu();
    let (p, _) = step(p, MenuEvent::Selected(Some(8)));
    let (p, _) = step(p, MenuEvent::Envs(s(&["old"])));
    let (p, a) = step(p, MenuEvent::Selected(Some(0)));
    match a {
        MenuAction::ConfirmDelete { env } => assert_eq!(env, "old"),
        _ => panic!("confirmation expected"),
    }
    let (_q, a) = step(p, MenuEvent::Confirmed(false));
    assert!(matches!(a, MenuAction::Pause { notice: Some(Notice::DeleteCancelled), .. }));

    let (p, _) = start_menu();
    let (p, _) = step(p, MenuEvent::Selected(Some(8)));
    let (p, _) = step(p, MenuEvent::Envs(s(&["old"])));
    let (p, _) = step(p, MenuEvent::Selected(Some(0)));
    let (_p, a) = step(p, MenuEvent::Confirmed(true));
    match a {
        MenuAction::DeleteEnv { env } => assert_eq!(env, "old"),
        _ => panic!("delete expected"),
    }
}

#[test]
fn alias_and_register_flows() {
    let (p, _) = start_menu();
    let (p, _) = step(p, MenuEvent::Selected(Some(6)));
    let (p, _) = step(p, MenuEvent::Envs(s(&["e"])));
    let (p, _) = step(p, MenuEvent::Selected(Some(0)));
    let (p, a) = step(p, MenuEvent::Binaries(Vec::new()));
    assert!(matches!(a, MenuAction::PromptText(TextPrompt::AliasBinary)));
    let (p, a) = step(p, MenuEvent::Text("btop".to_string()));
    match a {
        MenuAction::PromptText(TextPrompt::AliasName(b)) => assert_eq!(b, "btop"),
        _ => panic!("alias name expected"),
    }
    let (_p, a) = step(p, MenuEvent::Text("  ".to_string()));
    match a {
        MenuAction::CreateAlias { env, binary, alias } => {
            assert_eq!(env, "e");
            assert_eq!(binary, "btop");
            assert_eq!(alias, None);
        }
        _ => panic!("alias expected"),
    }

    let (p, _) = start_menu();
    let (p, _) = step(p, MenuEvent::Selected(Some(7)));
    let (p, _) = step(p, MenuEvent::Envs(s(&["e"])));
    let (p, a) = step(p, MenuEvent::Selected(Some(0)));
    assert!(matches!(a, MenuAction::PromptText(TextPrompt::BinaryPath)));
    let (_p, a) = step(p, MenuEvent::Text(" /tmp/tool ".to_string()));
    match a {
        MenuAction::RegisterBinary { env, path } => {
            assert_eq!(env, "e");
            assert_eq!(path, "/tmp/tool");
        }
        _ => panic!("register expected"),
    }
}

#[test]
fn quitting() {
    let (p, _) = start_menu();
    let (p, a) = step(p, MenuEvent::Selected(Some(9)));
    assert!(matches!(a, MenuAction::Goodbye));
    assert!(menu_finished(&p));
    let (p, _) = start_menu();
    let (p, a) = step(p, MenuEvent::Selected(None));
    assert!(menu_finished(&p));
    assert!(matches!(a, MenuAction::Leave));
    let (p, _) = start_menu();
    let (p, a) = step(p, MenuEvent::Selected(Some(42)));
    assert!(matches!(a, MenuAction::ShowMenu));
    assert!(!menu_finished(&p));
    let _ = EnvTask::Run;
}
