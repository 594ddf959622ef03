//! The interactive menu: a state machine that decides, from what the user
//! chose or typed, which question to ask next and which operation to
//! perform. The caller asks the questions, performs the operations and
//! hands back the answers as events.
use vstd::prelude::*;
use crate::text::{chars_of, split_words, trim, trim_str, words};
use crate::shims::{alias_from_input, typed_alias};

verus! {

/// An operation that first needs an environment to be chosen.
#[derive(Clone, Copy, PartialEq, Eq, Structural)]
pub enum EnvTask {
    Run,
    Enter,
    Info,
    Alias,
    Register,
    Delete,
}

/// The texts that the menu asks for.
pub enum TextPrompt {
    NewEnvName,
    EnvNameNoEnvs,
    Packages,
    CommandExample,
    Command,
    Arguments,
    AliasBinary,
    AliasName(String),
    BinaryPath,
}

/// The lists that the menu offers.
pub enum SelectPrompt {
    Menu,
    InstallEnv,
    RunEnv,
    EnterEnv,
    InfoEnv,
    AliasEnv,
    RegisterEnv,
    DeleteEnv,
    RunBinary,
    AliasBinary,
}

/// What is said before the pause that follows an operation.
#[derive(Clone, Copy, PartialEq, Eq, Structural)]
pub enum Notice {
    InvalidEnvName,
    NoPackages,
    NoEnvsToRun,
    NoEnvs,
    DeleteCancelled,
}

/// The kind of pause after an operation.
#[derive(Clone, Copy, PartialEq, Eq, Structural)]
pub enum PauseKind {
    Continue,
    AppEnded,
    ShellEnded,
}

/// Where the menu stands.
pub enum MenuPhase {
    Main,
    Paused,
    Working { pause: PauseKind },
    CreateName,
    InstallEnvs,
    InstallPick { envs: Vec<String> },
    InstallName,
    InstallPackages { env: String },
    ChooseEnvs { task: EnvTask },
    PickEnv { task: EnvTask, envs: Vec<String> },
    LoadBinaries { env: String, for_alias: bool },
    PickBinary { env: String, binaries: Vec<String>, for_alias: bool },
    TypeCommand { env: String },
    RunArgs { env: String, command: String },
    TypeAliasBinary { env: String },
    AliasName { env: String, binary: String },
    RegisterPath { env: String },
    DeleteConfirm { env: String },
    Exited,
}

/// What the user or an operation answered.
pub enum MenuEvent {
    Selected(Option<usize>),
    Text(String),
    Envs(Vec<String>),
    Binaries(Vec<String>),
    Confirmed(bool),
    Done,
    Acknowledged,
}

/// What the caller does next.
pub enum MenuAction {
    ShowMenu,
    PromptText(TextPrompt),
    PromptSelect { prompt: SelectPrompt, items: Vec<String> },
    ConfirmDelete { env: String },
    LoadEnvs,
    LoadBinaries { env: String },
    ListEnvs,
    CreateEnv { name: String },
    InstallPackages { env: String, packages: Vec<String> },
    RunApp { env: String, command: String, typed: String, args: Vec<String> },
    EnterEnv { env: String },
    ShowInfo { env: String },
    CreateAlias { env: String, binary: String, alias: Option<String> },
    RegisterBinary { env: String, path: String },
    DeleteEnv { env: String },
    Pause { notice: Option<Notice>, kind: PauseKind },
    Goodbye,
    /// Close the menu without a word (the user left the main menu).
    Leave,
    Unexpected,
}

pub enum TextPromptV {
    NewEnvName,
    EnvNameNoEnvs,
    Packages,
    CommandExample,
    Command,
    Arguments,
    AliasBinary,
    AliasName(Seq<char>),
    BinaryPath,
}

pub enum MenuPhaseV {
    Main,
    Paused,
    Working { pause: PauseKind },
    CreateName,
    InstallEnvs,
    InstallPick { envs: Seq<Seq<char>> },
    InstallName,
    InstallPackages { env: Seq<char> },
    ChooseEnvs { task: EnvTask },
    PickEnv { task: EnvTask, envs: Seq<Seq<char>> },
    LoadBinaries { env: Seq<char>, for_alias: bool },
    PickBinary { env: Seq<char>, binaries: Seq<Seq<char>>, for_alias: bool },
    TypeCommand { env: Seq<char> },
    RunArgs { env: Seq<char>, command: Seq<char> },
    TypeAliasBinary { env: Seq<char> },
    AliasName { env: Seq<char>, binary: Seq<char> },
    RegisterPath { env: Seq<char> },
    DeleteConfirm { env: Seq<char> },
    Exited,
}

pub enum MenuEventV {
    Selected(Option<usize>),
    Text(Seq<char>),
    Envs(Seq<Seq<char>>),
    Binaries(Seq<Seq<char>>),
    Confirmed(bool),
    Done,
    Acknowledged,
}

pub enum MenuActionV {
    ShowMenu,
    PromptText(TextPromptV),
    PromptSelect { prompt: SelectPrompt, items: Seq<Seq<char>> },
    ConfirmDelete { env: Seq<char> },
    LoadEnvs,
    LoadBinaries { env: Seq<char> },
    ListEnvs,
    CreateEnv { name: Seq<char> },
    InstallPackages { env: Seq<char>, packages: Seq<Seq<char>> },
    RunApp { env: Seq<char>, command: Seq<char>, typed: Seq<char>, args: Seq<Seq<char>> },
    EnterEnv { env: Seq<char> },
    ShowInfo { env: Seq<char> },
    CreateAlias { env: Seq<char>, binary: Seq<char>, alias: Option<Seq<char>> },
    RegisterBinary { env: Seq<char>, path: Seq<char> },
    DeleteEnv { env: Seq<char> },
    Pause { notice: Option<Notice>, kind: PauseKind },
    Goodbye,
    /// Close the menu without a word (the user left the main menu).
    Leave,
    Unexpected,
}

impl View for TextPrompt {
    type V = TextPromptV;

    open spec fn view(&self) -> TextPromptV {
        match self {
            TextPrompt::NewEnvName => TextPromptV::NewEnvName,
            TextPrompt::EnvNameNoEnvs => TextPromptV::EnvNameNoEnvs,
            TextPrompt::Packages => TextPromptV::Packages,
            TextPrompt::CommandExample => TextPromptV::CommandExample,
            TextPrompt::Command => TextPromptV::Command,
            TextPrompt::Arguments => TextPromptV::Arguments,
            TextPrompt::AliasBinary => TextPromptV::AliasBinary,
            TextPrompt::AliasName(b) => TextPromptV::AliasName(b@),
            TextPrompt::BinaryPath => TextPromptV::BinaryPath,
        }
    }
}

impl View for MenuPhase {
    type V = MenuPhaseV;

    open spec fn view(&self) -> MenuPhaseV {
        match self {
            MenuPhase::Main => MenuPhaseV::Main,
            MenuPhase::Paused => MenuPhaseV::Paused,
            MenuPhase::Working { pause } => MenuPhaseV::Working { pause: *pause },
            MenuPhase::CreateName => MenuPhaseV::CreateName,
            MenuPhase::InstallEnvs => MenuPhaseV::InstallEnvs,
            MenuPhase::InstallPick { envs } => MenuPhaseV::InstallPick { envs: envs.deep_view() },
            MenuPhase::InstallName => MenuPhaseV::InstallName,
            MenuPhase::InstallPackages { env } => MenuPhaseV::InstallPackages { env: env@ },
            MenuPhase::ChooseEnvs { task } => MenuPhaseV::ChooseEnvs { task: *task },
            MenuPhase::PickEnv { task, envs } => MenuPhaseV::PickEnv {
                task: *task,
                envs: envs.deep_view(),
            },
            MenuPhase::LoadBinaries { env, for_alias } => MenuPhaseV::LoadBinaries {
                env: env@,
                for_alias: *for_alias,
            },
            MenuPhase::PickBinary { env, binaries, for_alias } => MenuPhaseV::PickBinary {
                env: env@,
                binaries: binaries.deep_view(),
                for_alias: *for_alias,
            },
            MenuPhase::TypeCommand { env } => MenuPhaseV::TypeCommand { env: env@ },
            MenuPhase::RunArgs { env, command } => MenuPhaseV::RunArgs {
                env: env@,
                command: command@,
            },
            MenuPhase::TypeAliasBinary { env } => MenuPhaseV::TypeAliasBinary { env: env@ },
            MenuPhase::AliasName { env, binary } => MenuPhaseV::AliasName {
                env: env@,
                binary: binary@,
            },
            MenuPhase::RegisterPath { env } => MenuPhaseV::RegisterPath { env: env@ },
            MenuPhase::DeleteConfirm { env } => MenuPhaseV::DeleteConfirm { env: env@ },
            MenuPhase::Exited => MenuPhaseV::Exited,
        }
    }
}

impl View for MenuEvent {
    type V = MenuEventV;

    open spec fn view(&self) -> MenuEventV {
        match self {
            MenuEvent::Selected(i) => MenuEventV::Selected(*i),
            MenuEvent::Text(t) => MenuEventV::Text(t@),
            MenuEvent::Envs(v) => MenuEventV::Envs(v.deep_view()),
            MenuEvent::Binaries(v) => MenuEventV::Binaries(v.deep_view()),
            MenuEvent::Confirmed(b) => MenuEventV::Confirmed(*b),
            MenuEvent::Done => MenuEventV::Done,
            MenuEvent::Acknowledged => MenuEventV::Acknowledged,
        }
    }
}

impl View for MenuAction {
    type V = MenuActionV;

    open spec fn view(&self) -> MenuActionV {
        match self {
            MenuAction::ShowMenu => MenuActionV::ShowMenu,
            MenuAction::PromptText(p) => MenuActionV::PromptText(p@),
            MenuAction::PromptSelect { prompt, items } => MenuActionV::PromptSelect {
                prompt: *prompt,
                items: items.deep_view(),
            },
            MenuAction::ConfirmDelete { env } => MenuActionV::ConfirmDelete { env: env@ },
            MenuAction::LoadEnvs => MenuActionV::LoadEnvs,
            MenuAction::LoadBinaries { env } => MenuActionV::LoadBinaries { env: env@ },
            MenuAction::ListEnvs => MenuActionV::ListEnvs,
            MenuAction::CreateEnv { name } => MenuActionV::CreateEnv { name: name@ },
            MenuAction::InstallPackages { env, packages } => MenuActionV::InstallPackages {
                env: env@,
                packages: packages.deep_view(),
            },
            MenuAction::RunApp { env, command, typed, args } => MenuActionV::RunApp {
                env: env@,
                command: command@,
                typed: typed@,
                args: args.deep_view(),
            },
            MenuAction::EnterEnv { env } => MenuActionV::EnterEnv { env: env@ },
            MenuAction::ShowInfo { env } => MenuActionV::ShowInfo { env: env@ },
            MenuAction::CreateAlias { env, binary, alias } => MenuActionV::CreateAlias {
                env: env@,
                binary: binary@,
                alias: alias.deep_view(),
            },
            MenuAction::RegisterBinary { env, path } => MenuActionV::RegisterBinary {
                env: env@,
                path: path@,
            },
            MenuAction::DeleteEnv { env } => MenuActionV::DeleteEnv { env: env@ },
            MenuAction::Pause { notice, kind } => MenuActionV::Pause {
                notice: *notice,
                kind: *kind,
            },
            MenuAction::Goodbye => MenuActionV::Goodbye,
            MenuAction::Leave => MenuActionV::Leave,
            MenuAction::Unexpected => MenuActionV::Unexpected,
        }
    }
}

pub open spec fn new_env_item() -> Seq<char> {
    "[Yeni Ortam Oluştur]"@
}

pub open spec fn custom_command_item() -> Seq<char> {
    "[Özel Komut Yaz]"@
}

pub open spec fn pause(kind: PauseKind) -> (MenuPhaseV, MenuActionV) {
    (MenuPhaseV::Paused, MenuActionV::Pause { notice: None, kind })
}

pub open spec fn notice(n: Notice) -> (MenuPhaseV, MenuActionV) {
    (MenuPhaseV::Paused, MenuActionV::Pause { notice: Some(n), kind: PauseKind::Continue })
}

pub open spec fn back_to_menu() -> (MenuPhaseV, MenuActionV) {
    (MenuPhaseV::Main, MenuActionV::ShowMenu)
}

/// The list prompt that picks an environment for a task.
pub open spec fn env_prompt(task: EnvTask) -> SelectPrompt {
    match task {
        EnvTask::Run => SelectPrompt::RunEnv,
        EnvTask::Enter => SelectPrompt::EnterEnv,
        EnvTask::Info => SelectPrompt::InfoEnv,
        EnvTask::Alias => SelectPrompt::AliasEnv,
        EnvTask::Register => SelectPrompt::RegisterEnv,
        EnvTask::Delete => SelectPrompt::DeleteEnv,
    }
}

/// The choice made in the main menu.
pub open spec fn menu_choice(i: usize) -> (MenuPhaseV, MenuActionV) {
    if i == 0 {
        (MenuPhaseV::Working { pause: PauseKind::Continue }, MenuActionV::ListEnvs)
    } else if i == 1 {
        (MenuPhaseV::CreateName, MenuActionV::PromptText(TextPromptV::NewEnvName))
    } else if i == 2 {
        (MenuPhaseV::InstallEnvs, MenuActionV::LoadEnvs)
    } else if i == 3 {
        (MenuPhaseV::ChooseEnvs { task: EnvTask::Run }, MenuActionV::LoadEnvs)
    } else if i == 4 {
        (MenuPhaseV::ChooseEnvs { task: EnvTask::Enter }, MenuActionV::LoadEnvs)
    } else if i == 5 {
        (MenuPhaseV::ChooseEnvs { task: EnvTask::Info }, MenuActionV::LoadEnvs)
    } else if i == 6 {
        (MenuPhaseV::ChooseEnvs { task: EnvTask::Alias }, MenuActionV::LoadEnvs)
    } else if i == 7 {
        (MenuPhaseV::ChooseEnvs { task: EnvTask::Register }, MenuActionV::LoadEnvs)
    } else if i == 8 {
        (MenuPhaseV::ChooseEnvs { task: EnvTask::Delete }, MenuActionV::LoadEnvs)
    } else if i == 9 {
        (MenuPhaseV::Exited, MenuActionV::Goodbye)
    } else {
        back_to_menu()
    }
}

/// The environment for an installation is known: ask for the packages,
/// unless the name is empty.
pub open spec fn install_into(env: Seq<char>) -> (MenuPhaseV, MenuActionV) {
    if env.len() == 0 {
        back_to_menu()
    } else {
        (MenuPhaseV::InstallPackages { env }, MenuActionV::PromptText(TextPromptV::Packages))
    }
}

/// The environment for a task is chosen.
pub open spec fn env_chosen(task: EnvTask, env: Seq<char>) -> (MenuPhaseV, MenuActionV) {
    match task {
        EnvTask::Run => (
            MenuPhaseV::LoadBinaries { env, for_alias: false },
            MenuActionV::LoadBinaries { env },
        ),
        EnvTask::Enter => (
            MenuPhaseV::Working { pause: PauseKind::ShellEnded },
            MenuActionV::EnterEnv { env },
        ),
        EnvTask::Info => (
            MenuPhaseV::Working { pause: PauseKind::Continue },
            MenuActionV::ShowInfo { env },
        ),
        EnvTask::Alias => (
            MenuPhaseV::LoadBinaries { env, for_alias: true },
            MenuActionV::LoadBinaries { env },
        ),
        EnvTask::Register => (
            MenuPhaseV::RegisterPath { env },
            MenuActionV::PromptText(TextPromptV::BinaryPath),
        ),
        EnvTask::Delete => (MenuPhaseV::DeleteConfirm { env }, MenuActionV::ConfirmDelete { env }),
    }
}

/// The command to run is known: ask for its arguments, unless it is blank.
pub open spec fn command_chosen(env: Seq<char>, command: Seq<char>) -> (MenuPhaseV, MenuActionV) {
    if trim(command).len() == 0 {
        back_to_menu()
    } else {
        (MenuPhaseV::RunArgs { env, command }, MenuActionV::PromptText(TextPromptV::Arguments))
    }
}

/// The binary to alias is known: ask for the alias, unless it is blank.
pub open spec fn alias_binary_chosen(env: Seq<char>, binary: Seq<char>) -> (
    MenuPhaseV,
    MenuActionV,
) {
    if trim(binary).len() == 0 {
        back_to_menu()
    } else {
        (
            MenuPhaseV::AliasName { env, binary },
            MenuActionV::PromptText(TextPromptV::AliasName(binary)),
        )
    }
}

/// The next phase and action of the menu after event `e`; an event that
/// does not answer what the menu waits for changes nothing.
pub open spec fn menu_next(p: MenuPhaseV, e: MenuEventV) -> (MenuPhaseV, MenuActionV) {
    let unexpected = (p, MenuActionV::Unexpected);
    match p {
        MenuPhaseV::Main => match e {
            MenuEventV::Selected(None) => (MenuPhaseV::Exited, MenuActionV::Leave),
            MenuEventV::Selected(Some(i)) => menu_choice(i),
            _ => unexpected,
        },
        MenuPhaseV::Paused => match e {
            MenuEventV::Acknowledged => back_to_menu(),
            _ => unexpected,
        },
        MenuPhaseV::Working { pause: k } => match e {
            MenuEventV::Done => pause(k),
            _ => unexpected,
        },
        MenuPhaseV::CreateName => match e {
            MenuEventV::Text(t) => if trim(t).len() == 0 {
                notice(Notice::InvalidEnvName)
            } else {
                (
                    MenuPhaseV::Working { pause: PauseKind::Continue },
                    MenuActionV::CreateEnv { name: trim(t) },
                )
            },
            _ => unexpected,
        },
        MenuPhaseV::InstallEnvs => match e {
            MenuEventV::Envs(envs) => if envs.len() == 0 {
                (MenuPhaseV::InstallName, MenuActionV::PromptText(TextPromptV::EnvNameNoEnvs))
            } else {
                (
                    MenuPhaseV::InstallPick { envs },
                    MenuActionV::PromptSelect {
                        prompt: SelectPrompt::InstallEnv,
                        items: envs.push(new_env_item()),
                    },
                )
            },
            _ => unexpected,
        },
        MenuPhaseV::InstallPick { envs } => match e {
            MenuEventV::Selected(None) => back_to_menu(),
            MenuEventV::Selected(Some(s)) => if s == envs.len() {
                (MenuPhaseV::InstallName, MenuActionV::PromptText(TextPromptV::NewEnvName))
            } else if s < envs.len() {
                install_into(envs[s as int])
            } else {
                unexpected
            },
            _ => unexpected,
        },
        MenuPhaseV::InstallName => match e {
            MenuEventV::Text(t) => install_into(trim(t)),
            _ => unexpected,
        },
        MenuPhaseV::InstallPackages { env } => match e {
            MenuEventV::Text(t) => if words(t).len() == 0 {
                notice(Notice::NoPackages)
            } else {
                (
                    MenuPhaseV::Working { pause: PauseKind::Continue },
                    MenuActionV::InstallPackages { env, packages: words(t) },
                )
            },
            _ => unexpected,
        },
        MenuPhaseV::ChooseEnvs { task } => match e {
            MenuEventV::Envs(envs) => if envs.len() == 0 {
                notice(
                    if task == EnvTask::Run {
                        Notice::NoEnvsToRun
                    } else {
                        Notice::NoEnvs
                    },
                )
            } else {
                (
                    MenuPhaseV::PickEnv { task, envs },
                    MenuActionV::PromptSelect { prompt: env_prompt(task), items: envs },
                )
            },
            _ => unexpected,
        },
        MenuPhaseV::PickEnv { task, envs } => match e {
            MenuEventV::Selected(None) => back_to_menu(),
            MenuEventV::Selected(Some(s)) => if s < envs.len() {
                env_chosen(task, envs[s as int])
            } else {
                unexpected
            },
            _ => unexpected,
        },
        MenuPhaseV::LoadBinaries { env, for_alias } => match e {
            MenuEventV::Binaries(bins) => if bins.len() == 0 {
                if for_alias {
                    (
                        MenuPhaseV::TypeAliasBinary { env },
                        MenuActionV::PromptText(TextPromptV::AliasBinary),
                    )
                } else {
                    (
                        MenuPhaseV::TypeCommand { env },
                        MenuActionV::PromptText(TextPromptV::CommandExample),
                    )
                }
            } else if for_alias {
                (
                    MenuPhaseV::PickBinary { env, binaries: bins, for_alias },
                    MenuActionV::PromptSelect { prompt: SelectPrompt::AliasBinary, items: bins },
                )
            } else {
                (
                    MenuPhaseV::PickBinary { env, binaries: bins, for_alias },
                    MenuActionV::PromptSelect {
                        prompt: SelectPrompt::RunBinary,
                        items: bins.push(custom_command_item()),
                    },
                )
            },
            _ => unexpected,
        },
        MenuPhaseV::PickBinary { env, binaries, for_alias } => match e {
            MenuEventV::Selected(None) => back_to_menu(),
            MenuEventV::Selected(Some(s)) => if s < binaries.len() {
                if for_alias {
                    alias_binary_chosen(env, binaries[s as int])
                } else {
                    command_chosen(env, binaries[s as int])
                }
            } else if s == binaries.len() && !for_alias {
                (MenuPhaseV::TypeCommand { env }, MenuActionV::PromptText(TextPromptV::Command))
            } else {
                unexpected
            },
            _ => unexpected,
        },
        MenuPhaseV::TypeCommand { env } => match e {
            MenuEventV::Text(t) => command_chosen(env, t),
            _ => unexpected,
        },
        MenuPhaseV::RunArgs { env, command } => match e {
            MenuEventV::Text(t) => (
                MenuPhaseV::Working { pause: PauseKind::AppEnded },
                MenuActionV::RunApp { env, command: trim(command), typed: command, args: words(t) },
            ),
            _ => unexpected,
        },
        MenuPhaseV::TypeAliasBinary { env } => match e {
            MenuEventV::Text(t) => alias_binary_chosen(env, t),
            _ => unexpected,
        },
        MenuPhaseV::AliasName { env, binary } => match e {
            MenuEventV::Text(t) => (
                MenuPhaseV::Working { pause: PauseKind::Continue },
                MenuActionV::CreateAlias { env, binary, alias: typed_alias(t) },
            ),
            _ => unexpected,
        },
        MenuPhaseV::RegisterPath { env } => match e {
            MenuEventV::Text(t) => if trim(t).len() == 0 {
                back_to_menu()
            } else {
                (
                    MenuPhaseV::Working { pause: PauseKind::Continue },
                    MenuActionV::RegisterBinary { env, path: trim(t) },
                )
            },
            _ => unexpected,
        },
        MenuPhaseV::DeleteConfirm { env } => match e {
            MenuEventV::Confirmed(true) => (
                MenuPhaseV::Working { pause: PauseKind::Continue },
                MenuActionV::DeleteEnv { env },
            ),
            MenuEventV::Confirmed(false) => notice(Notice::DeleteCancelled),
            _ => unexpected,
        },
        MenuPhaseV::Exited => unexpected,
    }
}

/// The menu as it starts: the main menu is shown.
pub fn start_menu() -> (r: (MenuPhase, MenuAction))
    ensures
        r.0@ == MenuPhaseV::Main,
        r.1@ == MenuActionV::ShowMenu,
{
    (MenuPhase::Main, MenuAction::ShowMenu)
}

/// Whether the menu has ended.
pub fn menu_finished(p: &MenuPhase) -> (r: bool)
    ensures
        r == (p@ is Exited),
{
    match p {
        MenuPhase::Exited => true,
        _ => false,
    }
}

fn back() -> (r: (MenuPhase, MenuAction))
    ensures
        (r.0@, r.1@) == back_to_menu(),
{
    (MenuPhase::Main, MenuAction::ShowMenu)
}

fn with_item(list: &Vec<String>, item: &str) -> (r: Vec<String>)
    ensures
        r.deep_view() == list.deep_view().push(item@),
{
    let mut v = list.clone();
    proof {
        vstd::std_specs::vec::vec_clone_deep_view_proof(*list, v);
    }
    let ghost before = v.deep_view();
    v.push(String::from_str(item));
    assert(v.deep_view() =~= before.push(item@));
    v
}

fn is_blank(s: &str) -> (r: bool)
    ensures
        r == (trim(s@).len() == 0),
{
    let t = trim_str(s);
    chars_of(t.as_str()).len() == 0
}

fn install_step(env: String) -> (r: (MenuPhase, MenuAction))
    ensures
        (r.0@, r.1@) == install_into(env@),
{
    if chars_of(env.as_str()).len() == 0 {
        back()
    } else {
        (MenuPhase::InstallPackages { env }, MenuAction::PromptText(TextPrompt::Packages))
    }
}

fn env_step(task: EnvTask, env: String) -> (r: (MenuPhase, MenuAction))
    ensures
        (r.0@, r.1@) == env_chosen(task, env@),
{
    match task {
        EnvTask::Run => (
            MenuPhase::LoadBinaries { env: env.clone(), for_alias: false },
            MenuAction::LoadBinaries { env },
        ),
        EnvTask::Enter => (
            MenuPhase::Working { pause: PauseKind::ShellEnded },
            MenuAction::EnterEnv { env },
        ),
        EnvTask::Info => (
            MenuPhase::Working { pause: PauseKind::Continue },
            MenuAction::ShowInfo { env },
        ),
        EnvTask::Alias => (
            MenuPhase::LoadBinaries { env: env.clone(), for_alias: true },
            MenuAction::LoadBinaries { env },
        ),
        EnvTask::Register => (
            MenuPhase::RegisterPath { env },
            MenuAction::PromptText(TextPrompt::BinaryPath),
        ),
        EnvTask::Delete => (
            MenuPhase::DeleteConfirm { env: env.clone() },
            MenuAction::ConfirmDelete { env },
        ),
    }
}

fn command_step(env: String, command: String) -> (r: (MenuPhase, MenuAction))
    ensures
        (r.0@, r.1@) == command_chosen(env@, command@),
{
    if is_blank(command.as_str()) {
        back()
    } else {
        (MenuPhase::RunArgs { env, command }, MenuAction::PromptText(TextPrompt::Arguments))
    }
}

fn alias_step(env: String, binary: String) -> (r: (MenuPhase, MenuAction))
    ensures
        (r.0@, r.1@) == alias_binary_chosen(env@, binary@),
{
    if is_blank(binary.as_str()) {
        back()
    } else {
        (
            MenuPhase::AliasName { env, binary: binary.clone() },
            MenuAction::PromptText(TextPrompt::AliasName(binary)),
        )
    }
}

fn choice_step(i: usize) -> (r: (MenuPhase, MenuAction))
    ensures
        (r.0@, r.1@) == menu_choice(i),
{
    if i == 0 {
        (MenuPhase::Working { pause: PauseKind::Continue }, MenuAction::ListEnvs)
    } else if i == 1 {
        (MenuPhase::CreateName, MenuAction::PromptText(TextPrompt::NewEnvName))
    } else if i == 2 {
        (MenuPhase::InstallEnvs, MenuAction::LoadEnvs)
    } else if i == 3 {
        (MenuPhase::ChooseEnvs { task: EnvTask::Run }, MenuAction::LoadEnvs)
    } else if i == 4 {
        (MenuPhase::ChooseEnvs { task: EnvTask::Enter }, MenuAction::LoadEnvs)
    } else if i == 5 {
        (MenuPhase::ChooseEnvs { task: EnvTask::Info }, MenuAction::LoadEnvs)
    } else if i == 6 {
        (MenuPhase::ChooseEnvs { task: EnvTask::Alias }, MenuAction::LoadEnvs)
    } else if i == 7 {
        (MenuPhase::ChooseEnvs { task: EnvTask::Register }, MenuAction::LoadEnvs)
    } else if i == 8 {
        (MenuPhase::ChooseEnvs { task: EnvTask::Delete }, MenuAction::LoadEnvs)
    } else if i == 9 {
        (MenuPhase::Exited, MenuAction::Goodbye)
    } else {
        back()
    }
}

fn env_select_prompt(task: EnvTask) -> (r: SelectPrompt)
    ensures
        r == env_prompt(task),
{
    match task {
        EnvTask::Run => SelectPrompt::RunEnv,
        EnvTask::Enter => SelectPrompt::EnterEnv,
        EnvTask::Info => SelectPrompt::InfoEnv,
        EnvTask::Alias => SelectPrompt::AliasEnv,
        EnvTask::Register => SelectPrompt::RegisterEnv,
        EnvTask::Delete => SelectPrompt::DeleteEnv,
    }
}

/// Advances the menu by the event `e`.
pub fn menu_step(p: MenuPhase, e: MenuEvent) -> (r: (MenuPhase, MenuAction))
    ensures
        (r.0@, r.1@) == menu_next(p@, e@),
{
    match p {
        MenuPhase::Main => match e {
            MenuEvent::Selected(None) => (MenuPhase::Exited, MenuAction::Leave),
            MenuEvent::Selected(Some(i)) => choice_step(i),
            _ => (MenuPhase::Main, MenuAction::Unexpected),
        },
        MenuPhase::Paused => match e {
            MenuEvent::Acknowledged => back(),
            _ => (MenuPhase::Paused, MenuAction::Unexpected),
        },
        MenuPhase::Working { pause: k } => match e {
            MenuEvent::Done => (MenuPhase::Paused, MenuAction::Pause { notice: None, kind: k }),
            _ => (MenuPhase::Working { pause: k }, MenuAction::Unexpected),
        },
        MenuPhase::CreateName => match e {
            MenuEvent::Text(t) => {
                let name = trim_str(t.as_str());
                if chars_of(name.as_str()).len() == 0 {
                    (
                        MenuPhase::Paused,
                        MenuAction::Pause {
                            notice: Some(Notice::InvalidEnvName),
                            kind: PauseKind::Continue,
                        },
                    )
                } else {
                    (
                        MenuPhase::Working { pause: PauseKind::Continue },
                        MenuAction::CreateEnv { name },
                    )
                }
            },
            _ => (MenuPhase::CreateName, MenuAction::Unexpected),
        },
        MenuPhase::InstallEnvs => match e {
            MenuEvent::Envs(envs) => {
                if envs.len() == 0 {
                    (MenuPhase::InstallName, MenuAction::PromptText(TextPrompt::EnvNameNoEnvs))
                } else {
                    let items = with_item(&envs, "[Yeni Ortam Oluştur]");
                    (
                        MenuPhase::InstallPick { envs },
                        MenuAction::PromptSelect { prompt: SelectPrompt::InstallEnv, items },
                    )
                }
            },
            _ => (MenuPhase::InstallEnvs, MenuAction::Unexpected),
        },
        MenuPhase::InstallPick { envs } => match e {
            MenuEvent::Selected(None) => back(),
            MenuEvent::Selected(Some(s)) => {
                if s == envs.len() {
                    (MenuPhase::InstallName, MenuAction::PromptText(TextPrompt::NewEnvName))
                } else if s < envs.len() {
                    assert(envs.deep_view()[s as int] == envs@[s as int]@);
                    install_step(envs[s].clone())
                } else {
                    (MenuPhase::InstallPick { envs }, MenuAction::Unexpected)
                }
            },
            _ => (MenuPhase::InstallPick { envs }, MenuAction::Unexpected),
        },
        MenuPhase::InstallName => match e {
            MenuEvent::Text(t) => install_step(trim_str(t.as_str())),
            _ => (MenuPhase::InstallName, MenuAction::Unexpected),
        },
        MenuPhase::InstallPackages { env } => match e {
            MenuEvent::Text(t) => {
                let packages = split_words(t.as_str());
                if packages.len() == 0 {
                    (
                        MenuPhase::Paused,
                        MenuAction::Pause {
                            notice: Some(Notice::NoPackages),
                            kind: PauseKind::Continue,
                        },
                    )
                } else {
                    (
                        MenuPhase::Working { pause: PauseKind::Continue },
                        MenuAction::InstallPackages { env, packages },
                    )
                }
            },
            _ => (MenuPhase::InstallPackages { env }, MenuAction::Unexpected),
        },
        MenuPhase::ChooseEnvs { task } => match e {
            MenuEvent::Envs(envs) => {
                if envs.len() == 0 {
                    let n = if task == EnvTask::Run {
                        Notice::NoEnvsToRun
                    } else {
                        Notice::NoEnvs
                    };
                    (
                        MenuPhase::Paused,
                        MenuAction::Pause { notice: Some(n), kind: PauseKind::Continue },
                    )
                } else {
                    let items = envs.clone();
                    proof {
                        vstd::std_specs::vec::vec_clone_deep_view_proof(envs, items);
                    }
                    (
                        MenuPhase::PickEnv { task, envs },
                        MenuAction::PromptSelect { prompt: env_select_prompt(task), items },
                    )
                }
            },
            _ => (MenuPhase::ChooseEnvs { task }, MenuAction::Unexpected),
        },
        MenuPhase::PickEnv { task, envs } => match e {
            MenuEvent::Selected(None) => back(),
            MenuEvent::Selected(Some(s)) => {
                if s < envs.len() {
                    assert(envs.deep_view()[s as int] == envs@[s as int]@);
                    env_step(task, envs[s].clone())
                } else {
                    (MenuPhase::PickEnv { task, envs }, MenuAction::Unexpected)
                }
            },
            _ => (MenuPhase::PickEnv { task, envs }, MenuAction::Unexpected),
        },
        MenuPhase::LoadBinaries { env, for_alias } => match e {
            MenuEvent::Binaries(bins) => {
                if bins.len() == 0 {
                    if for_alias {
                        (
                            MenuPhase::TypeAliasBinary { env },
                            MenuAction::PromptText(TextPrompt::AliasBinary),
                        )
                    } else {
                        (
                            MenuPhase::TypeCommand { env },
                            MenuAction::PromptText(TextPrompt::CommandExample),
                        )
                    }
                } else if for_alias {
                    let items = bins.clone();
                    proof {
                        vstd::std_specs::vec::vec_clone_deep_view_proof(bins, items);
                    }
                    (
                        MenuPhase::PickBinary { env, binaries: bins, for_alias },
                        MenuAction::PromptSelect { prompt: SelectPrompt::AliasBinary, items },
                    )
                } else {
                    let items = with_item(&bins, "[Özel Komut Yaz]");
                    (
                        MenuPhase::PickBinary { env, binaries: bins, for_alias },
                        MenuAction::PromptSelect { prompt: SelectPrompt::RunBinary, items },
                    )
                }
            },
            _ => (MenuPhase::LoadBinaries { env, for_alias }, MenuAction::Unexpected),
        },
        MenuPhase::PickBinary { env, binaries, for_alias } => match e {
            MenuEvent::Selected(None) => back(),
            MenuEvent::Selected(Some(s)) => {
                if s < binaries.len() {
                    assert(binaries.deep_view()[s as int] == binaries@[s as int]@);
                    let b = binaries[s].clone();
                    if for_alias {
                        alias_step(env, b)
                    } else {
                        command_step(env, b)
                    }
                } else if s == binaries.len() && !for_alias {
                    (MenuPhase::TypeCommand { env }, MenuAction::PromptText(TextPrompt::Command))
                } else {
                    (MenuPhase::PickBinary { env, binaries, for_alias }, MenuAction::Unexpected)
                }
            },
            _ => (MenuPhase::PickBinary { env, binaries, for_alias }, MenuAction::Unexpected),
        },
        MenuPhase::TypeCommand { env } => match e {
            MenuEvent::Text(t) => command_step(env, t),
            _ => (MenuPhase::TypeCommand { env }, MenuAction::Unexpected),
        },
        MenuPhase::RunArgs { env, command } => match e {
            MenuEvent::Text(t) => {
                let args = split_words(t.as_str());
                let trimmed = trim_str(command.as_str());
                (
                    MenuPhase::Working { pause: PauseKind::AppEnded },
                    MenuAction::RunApp { env, command: trimmed, typed: command, args },
                )
            },
            _ => (MenuPhase::RunArgs { env, command }, MenuAction::Unexpected),
        },
        MenuPhase::TypeAliasBinary { env } => match e {
            MenuEvent::Text(t) => alias_step(env, t),
            _ => (MenuPhase::TypeAliasBinary { env }, MenuAction::Unexpected),
        },
        MenuPhase::AliasName { env, binary } => match e {
            MenuEvent::Text(t) => {
                let alias = alias_from_input(t.as_str());
                (
                    MenuPhase::Working { pause: PauseKind::Continue },
                    MenuAction::CreateAlias { env, binary, alias },
                )
            },
            _ => (MenuPhase::AliasName { env, binary }, MenuAction::Unexpected),
        },
        MenuPhase::RegisterPath { env } => match e {
            MenuEvent::Text(t) => {
                let path = trim_str(t.as_str());
                if chars_of(path.as_str()).len() == 0 {
                    back()
                } else {
                    (
                        MenuPhase::Working { pause: PauseKind::Continue },
                        MenuAction::RegisterBinary { env, path },
                    )
                }
            },
            _ => (MenuPhase::RegisterPath { env }, MenuAction::Unexpected),
        },
        MenuPhase::DeleteConfirm { env } => match e {
            MenuEvent::Confirmed(true) => (
                MenuPhase::Working { pause: PauseKind::Continue },
                MenuAction::DeleteEnv { env },
            ),
            MenuEvent::Confirmed(false) => (
                MenuPhase::Paused,
                MenuAction::Pause {
                    notice: Some(Notice::DeleteCancelled),
                    kind: PauseKind::Continue,
                },
            ),
            _ => (MenuPhase::DeleteConfirm { env }, MenuAction::Unexpected),
        },
        MenuPhase::Exited => (MenuPhase::Exited, MenuAction::Unexpected),
    }
}

/// An environment is deleted only when the user confirmed the deletion
/// of that very environment.
pub proof fn lemma_delete_needs_confirmation(p: MenuPhaseV, e: MenuEventV, env: Seq<char>)
    requires
        menu_next(p, e).1 == (MenuActionV::DeleteEnv { env }),
    ensures
        p == (MenuPhaseV::DeleteConfirm { env }),
        e == MenuEventV::Confirmed(true),
{
}

/// The alias the user types is the shim's name: a non-blank text names
/// the shim, trimmed; only a blank text leaves the binary's own name.
pub proof fn lemma_alias_is_typed(env: Seq<char>, binary: Seq<char>, t: Seq<char>)
    ensures
        menu_next(MenuPhaseV::AliasName { env, binary }, MenuEventV::Text(t)) == (
            MenuPhaseV::Working { pause: PauseKind::Continue },
            MenuActionV::CreateAlias {
                env,
                binary,
                alias: if trim(t).len() == 0 {
                    None
                } else {
                    Some(trim(t))
                },
            },
        ),
{
}

/// Cancelling a choice goes back to the main menu and does nothing.
pub proof fn lemma_cancel_returns_to_menu(p: MenuPhaseV)
    requires
        p is InstallPick || p is PickEnv || p is PickBinary,
    ensures
        menu_next(p, MenuEventV::Selected(None)) == back_to_menu(),
{
}

/// Every operation is followed by a pause before the menu shows again.
pub proof fn lemma_operation_then_pause(p: MenuPhaseV)
    requires
        p is Working,
    ensures
        menu_next(p, MenuEventV::Done).0 is Paused,
        menu_next(p, MenuEventV::Done).1 is Pause,
        menu_next(menu_next(p, MenuEventV::Done).0, MenuEventV::Acknowledged) == back_to_menu(),
{
}

/// What the menu keeps of the user's answers is never blank: the
/// environment for an installation, the command to run, the binary to
/// alias.
pub open spec fn menu_inv(p: MenuPhaseV) -> bool {
    match p {
        MenuPhaseV::InstallPackages { env } => env.len() > 0,
        MenuPhaseV::RunArgs { command, .. } => trim(command).len() > 0,
        MenuPhaseV::AliasName { binary, .. } => trim(binary).len() > 0,
        _ => true,
    }
}

/// Every step keeps that.
pub proof fn lemma_menu_inv_preserved(p: MenuPhaseV, e: MenuEventV)
    requires
        menu_inv(p),
    ensures
        menu_inv(menu_next(p, e).0),
{
}

/// What the menu hands to an operation is never blank: a new environment
/// has a trimmed, non-empty name, an installation a named environment and
/// at least one package, a program run a non-blank command (trimmed from
/// what was chosen), a registration a non-blank path, and an alias a
/// non-blank binary.
pub proof fn lemma_operations_get_nonblank_names(p: MenuPhaseV, e: MenuEventV)
    requires
        menu_inv(p),
    ensures
        menu_next(p, e).1 matches MenuActionV::CreateEnv { name } ==> name.len() > 0,
        menu_next(p, e).1 matches MenuActionV::InstallPackages { env, packages } ==> packages.len()
            > 0 && env.len() > 0,
        menu_next(p, e).1 matches MenuActionV::RunApp { command, typed, .. } ==> command == trim(
            typed,
        ) && command.len() > 0,
        menu_next(p, e).1 matches MenuActionV::RegisterBinary { path, .. } ==> path.len() > 0,
        menu_next(p, e).1 matches MenuActionV::CreateAlias { binary, .. } ==> trim(binary).len()
            > 0,
{
}

} // verus!
