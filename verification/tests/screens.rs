use polygone::installer::{
    Effect, InstallAction, InstallEvent, InstallPhase, InstallState, Installer, Key, KeyKind, Lang, NodeChoice,
};
use polygone::tui::{App, MessageKind, ModuleCard, ModuleStatus, Tab, TAB_COUNT};

fn installer() -> Installer {
    Installer::new(Lang::EN, "lev".to_string(), NodeChoice::Passive)
}

#[test]
fn tabs_wrap_around() {
    let mut a = App::new();
    assert_eq!(a.current_view, Tab::Dashboard);
    a.handle_key(Key::Left, false);
    assert_eq!(a.current_view, Tab::Settings);
    a.handle_key(Key::Right, false);
    assert_eq!(a.current_view, Tab::Dashboard);
    a.handle_key(Key::Char('3'), false);
    assert_eq!(a.current_view, Tab::Services);
    assert_eq!(Tab::from_idx(6), Tab::Services);
    assert_eq!(Tab::Settings.index(), TAB_COUNT - 1);
}

#[test]
fn quit_keys() {
    let mut a = App::new();
    a.handle_key(Key::Char('c'), false);
    assert!(!a.should_quit);
    a.handle_key(Key::Char('c'), true);
    assert!(a.should_quit);
    let mut b = App::new();
    b.handle_key(Key::Esc, false);
    assert!(b.should_quit);
}

#[test]
fn module_toggles_log_their_state() {
    let mut a = App::new();
    let before = a.messages.len();
    a.handle_key(Key::Char('m'), false);
    assert_eq!(a.modules[0].status, ModuleStatus::Off);
    assert_eq!(a.messages.len(), before + 1);
    assert_eq!(a.messages.last().unwrap().1, "Msg d\u{e9}sactiv\u{e9}");
    assert_eq!(a.messages.last().unwrap().0, MessageKind::Info);
    a.handle_key(Key::Char('M'), false);
    assert_eq!(a.modules[0].status, ModuleStatus::Running);
    assert_eq!(a.messages.last().unwrap().1, "Msg activ\u{e9}");
}

#[test]
fn drive_and_mesh_keep_error_states() {
    let mut a = App::new();
    a.modules[2].status = ModuleStatus::Error;
    a.handle_key(Key::Char('d'), false);
    assert_eq!(a.modules[2].status, ModuleStatus::Error);
    assert_eq!(a.messages.last().unwrap().1, "Drive d\u{e9}sactiv\u{e9}");
    a.modules[1].status = ModuleStatus::ComingSoon;
    a.handle_key(Key::Char('h'), false);
    assert_eq!(a.modules[1].status, ModuleStatus::Running);
}

#[test]
fn log_keeps_fifty() {
    let mut a = App::new();
    for i in 0..60u32 {
        a.push_msg(MessageKind::Warn, format!("m{i}"));
    }
    assert_eq!(a.messages.len(), 50);
    assert_eq!(a.messages[49].1, "m59");
    assert_eq!(a.messages[49].2, 1080);
}

#[test]
fn labels_and_cards() {
    assert_eq!(ModuleStatus::Running.label(), "Running");
    assert_eq!(ModuleStatus::ComingSoon.label(), "\u{1F51C}");
    assert_eq!(MessageKind::Success.symbol(), "\u{2714}");
    assert_eq!(Tab::Favorites.label(), "\u{2B50} Favoris");
    let cards = ModuleCard::all();
    let names: Vec<&str> = cards.iter().map(|c| c.name).collect();
    assert_eq!(names, vec!["Msg", "Hide", "Drive", "Mesh", "Brain"]);
}

#[test]
fn installer_welcome_navigation() {
    let mut i = installer();
    assert_eq!(i.handle_key(KeyKind::Press, Key::Down, false), Effect::Nothing);
    assert_eq!(i.welcome_idx, 1);
    i.handle_key(KeyKind::Release, Key::Down, false);
    assert_eq!(i.welcome_idx, 1);
    i.handle_key(KeyKind::Press, Key::Up, false);
    i.handle_key(KeyKind::Press, Key::Enter, true);
    assert_eq!(i.state, InstallState::AlreadyInstalled);
    assert_eq!(i.menu_actions.len(), 4);
}

#[test]
fn install_by_download() {
    let mut i = installer();
    assert_eq!(i.install_step(InstallEvent::Begin), InstallAction::Download);
    assert_eq!(i.install_status, "[1/4] Downloading Polygone...");
    assert_eq!(i.install_percent, 15);
    assert_eq!(i.install_step(InstallEvent::Downloaded(true)), InstallAction::CopyDownloaded);
    assert_eq!(i.install_step(InstallEvent::Copied(true)), InstallAction::SaveConfig);
    assert_eq!(i.install_status, "[4/4] Done!");
    assert_eq!(i.install_percent, 100);
    assert_eq!(i.install_phase, InstallPhase::Finished);
    assert_eq!(i.state, InstallState::ConfigureServices);
    assert_eq!(
        i.install_log,
        vec![
            "[1/4] Downloading Polygone...".to_string(),
            "[2/4] Installing...".to_string(),
            "[3/4] Configuring...".to_string(),
            "Done!".to_string(),
        ]
    );
}

#[test]
fn install_from_source_in_french() {
    let mut i = Installer::new(Lang::FR, String::new(), NodeChoice::Active);
    i.install_step(InstallEvent::Begin);
    assert_eq!(i.install_step(InstallEvent::Downloaded(false)), InstallAction::CheckSource);
    assert_eq!(i.install_status, "[1/4] Compilation depuis les sources...");
    assert_eq!(i.install_step(InstallEvent::SourcePresent(false)), InstallAction::CloneSource);
    assert_eq!(i.install_step(InstallEvent::Cloned), InstallAction::Build);
    assert_eq!(i.install_percent, 50);
    assert_eq!(i.install_step(InstallEvent::Built(true)), InstallAction::CopyBuilt);
    assert_eq!(i.install_step(InstallEvent::Copied(true)), InstallAction::SaveConfig);
    assert_eq!(i.install_status, "[4/4] Termin\u{e9}!");
    assert_eq!(i.state, InstallState::Configure);
}

#[test]
fn failed_build_stops_with_error() {
    let mut i = installer();
    i.install_step(InstallEvent::Begin);
    i.install_step(InstallEvent::Downloaded(false));
    i.install_step(InstallEvent::SourcePresent(true));
    assert_eq!(i.install_step(InstallEvent::Built(false)), InstallAction::Wait);
    assert_eq!(i.install_phase, InstallPhase::Failed);
    assert_eq!(i.install_error.as_deref(), Some("Build failed. Install Rust: curl https://sh.rustup.rs | sh"));
    // Events out of order change nothing.
    assert_eq!(i.install_step(InstallEvent::Copied(true)), InstallAction::Wait);
    assert_eq!(i.install_phase, InstallPhase::Failed);
}

#[test]
fn failed_copy_stops_with_error() {
    let mut i = installer();
    i.install_step(InstallEvent::Begin);
    i.install_step(InstallEvent::Downloaded(true));
    assert_eq!(i.install_step(InstallEvent::Copied(false)), InstallAction::Wait);
    assert_eq!(i.install_error.as_deref(), Some("Copy failed"));
}

#[test]
fn language_and_node_names() {
    assert_eq!(Lang::from_config_str("fr"), Lang::FR);
    assert_eq!(Lang::from_config_str("de"), Lang::EN);
    assert_eq!(Lang::EN.toggled(), Lang::FR);
    assert_eq!(NodeChoice::Active.config_str(), "active");
    assert_eq!(NodeChoice::from_config_str("passive"), NodeChoice::Passive);
}
