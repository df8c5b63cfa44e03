//! The installer's screens and what each key does on them.
//!
//! The full-screen installer moves between screens (welcome, install,
//! configuration, services, dashboard) on key presses. [`Installer`] holds
//! what the keys act on; [`Installer::handle_key`] applies one key and
//! says what the caller must do outside (save the configuration or the
//! service choices, remove the installed files). Drawing, downloading and
//! running commands are the caller's.

use vstd::prelude::*;
use crate::text::{owned, pop_char, push_char, push_str};

verus! {

/// Number of ecosystem services; the first (the core network) is always on.
pub const SERVICE_COUNT: usize = 8;

/// The installer's screens.
#[derive(Clone, Copy, Debug, PartialEq, Eq, Structural)]
pub enum InstallState {
    Welcome,
    AlreadyInstalled,
    Installing,
    Configure,
    UsernameInput,
    NodeModeSelect,
    ConfigureServices,
    Dashboard,
    DashboardOutput,
    Done,
}

/// How the local node takes part in the network.
#[derive(Clone, Copy, Debug, PartialEq, Eq, Structural)]
pub enum NodeChoice {
    /// No sharing.
    Disabled,
    Passive,
    Active,
}

/// Interface language.
#[derive(Clone, Copy, Debug, PartialEq, Eq, Structural)]
pub enum Lang {
    EN,
    FR,
}

/// What can be done to an existing installation.
#[derive(Clone, Copy, Debug, PartialEq, Eq, Structural)]
pub enum MenuAction {
    /// No action.
    NoAction,
    Update,
    Reinstall,
    Uninstall,
    Launch,
}

/// Whether a key went down, repeated, or went up.
#[derive(Clone, Copy, Debug, PartialEq, Eq, Structural)]
pub enum KeyKind {
    Press,
    Repeat,
    Release,
}

/// The keys the installer reads.
#[derive(Clone, Copy, Debug, PartialEq, Eq, Structural)]
pub enum Key {
    Up,
    Down,
    Left,
    Right,
    Enter,
    Esc,
    Backspace,
    Char(char),
    Other,
}

/// What the caller must do after a key.
#[derive(Clone, Copy, Debug, PartialEq, Eq, Structural)]
pub enum Effect {
    Nothing,
    /// Write the configuration (language, user name, node mode).
    SaveConfig,
    /// Write the service choices.
    SaveServices,
    /// Remove the installed binary and the configuration file.
    Uninstall,
}

/// The text for the current language.
pub open spec fn tr_spec(lang: Lang, en: Seq<char>, fr: Seq<char>) -> Seq<char> {
    match lang {
        Lang::EN => en,
        Lang::FR => fr,
    }
}

/// The text for the current language.
pub fn tr(lang: Lang, en: &str, fr: &str) -> (res: String)
    ensures
        res@ == tr_spec(lang, en@, fr@),
{
    match lang {
        Lang::FR => owned(fr),
        Lang::EN => owned(en),
    }
}

impl Lang {
    /// The language's name in itself.
    pub fn label(&self) -> (res: String)
        ensures
            res@ == (match *self {
                Lang::FR => "Français"@,
                Lang::EN => "English"@,
            }),
    {
        match self {
            Lang::FR => owned("Français"),
            Lang::EN => owned("English"),
        }
    }

    /// The value stored in the configuration file.
    pub fn config_str(&self) -> (res: &'static str)
        ensures
            res@ == (match *self {
                Lang::FR => "fr"@,
                Lang::EN => "en"@,
            }),
    {
        match self {
            Lang::FR => "fr",
            Lang::EN => "en",
        }
    }

    /// Reads the stored value: `fr` is French, anything else English.
    pub fn from_config_str(s: &str) -> (res: Lang)
        ensures
            res == (if s@ == "fr"@ { Lang::FR } else { Lang::EN }),
    {
        if crate::text::str_eq(s, "fr") {
            Lang::FR
        } else {
            Lang::EN
        }
    }

    /// The other language.
    pub fn toggled(&self) -> (res: Lang)
        ensures
            res == (match *self {
                Lang::EN => Lang::FR,
                Lang::FR => Lang::EN,
            }),
    {
        match self {
            Lang::EN => Lang::FR,
            Lang::FR => Lang::EN,
        }
    }
}

impl NodeChoice {
    /// The value stored in the configuration file.
    pub fn config_str(&self) -> (res: &'static str)
        ensures
            res@ == (match *self {
                NodeChoice::Disabled => "none"@,
                NodeChoice::Passive => "passive"@,
                NodeChoice::Active => "active"@,
            }),
    {
        match self {
            NodeChoice::Disabled => "none",
            NodeChoice::Passive => "passive",
            NodeChoice::Active => "active",
        }
    }

    /// Reads the stored value: `passive`, `active`, anything else none.
    pub fn from_config_str(s: &str) -> (res: NodeChoice)
        ensures
            res == (if s@ == "passive"@ {
                NodeChoice::Passive
            } else if s@ == "active"@ {
                NodeChoice::Active
            } else {
                NodeChoice::Disabled
            }),
    {
        if crate::text::str_eq(s, "passive") {
            NodeChoice::Passive
        } else if crate::text::str_eq(s, "active") {
            NodeChoice::Active
        } else {
            NodeChoice::Disabled
        }
    }

    /// The position of this mode in the node-mode list.
    pub fn index(&self) -> (res: usize)
        ensures
            res == node_index(*self),
    {
        match self {
            NodeChoice::Disabled => 0,
            NodeChoice::Passive => 1,
            NodeChoice::Active => 2,
        }
    }
}

/// The position of a node mode in the node-mode list.
pub open spec fn node_index(n: NodeChoice) -> usize {
    match n {
        NodeChoice::Disabled => 0,
        NodeChoice::Passive => 1,
        NodeChoice::Active => 2,
    }
}

/// The node mode at a position of the list.
pub open spec fn node_at(i: usize) -> NodeChoice {
    if i == 1 {
        NodeChoice::Passive
    } else if i == 2 {
        NodeChoice::Active
    } else {
        NodeChoice::Disabled
    }
}

/// Where an installation stands.
#[derive(Clone, Copy, Debug, PartialEq, Eq, Structural)]
pub enum InstallPhase {
    /// Not started.
    Idle,
    /// Fetching the released binary.
    Downloading,
    /// Copying the fetched binary into place.
    CopyingDownload,
    /// Looking for a source checkout to build from.
    CheckingSource,
    /// Cloning the sources.
    Cloning,
    /// Compiling.
    Building,
    /// Copying the compiled binary into place.
    CopyingBuild,
    /// Installed.
    Finished,
    /// Stopped on an error.
    Failed,
}

/// What the caller reports of the work it did for an installation.
#[derive(Clone, Copy, Debug, PartialEq, Eq, Structural)]
pub enum InstallEvent {
    /// The user asked to install.
    Begin,
    /// The download ended (true when it succeeded).
    Downloaded(bool),
    /// Whether a source checkout is already there.
    SourcePresent(bool),
    /// The clone ended.
    Cloned,
    /// The build ended (true when it succeeded).
    Built(bool),
    /// The binary copy ended (true when it succeeded).
    Copied(bool),
}

/// What the caller must do next for an installation.
#[derive(Clone, Copy, Debug, PartialEq, Eq, Structural)]
pub enum InstallAction {
    /// Download the released binary.
    Download,
    /// Copy the downloaded binary into place (and make it executable).
    CopyDownloaded,
    /// Look for a source checkout.
    CheckSource,
    /// Clone the sources.
    CloneSource,
    /// Build the binary from the sources.
    Build,
    /// Copy the compiled binary into place (and make it executable).
    CopyBuilt,
    /// Write the configuration file; the installation is done.
    SaveConfig,
    /// Nothing to do.
    Wait,
}

/// The installer's state as the keys see it.
pub struct Installer {
    pub state: InstallState,
    pub lang: Lang,
    pub username: String,
    pub node: NodeChoice,
    pub menu_idx: usize,
    pub menu_actions: Vec<MenuAction>,
    pub install_error: Option<String>,
    pub install_log: Vec<String>,
    /// The current installation step, as shown.
    pub install_status: String,
    /// How far the installation is, in percent.
    pub install_percent: u8,
    /// Where the installation stands.
    pub install_phase: InstallPhase,
    pub dash_tab: usize,
    pub dash_item: usize,
    pub services_enabled: Vec<bool>,
    pub services_step: usize,
    pub config_step: usize,
    pub username_input: String,
    pub node_idx: usize,
    pub welcome_idx: usize,
    pub dash_output: String,
    pub dash_output_title: String,
    pub dash_running: bool,
}

/// The log lines as text.
pub open spec fn log_text(l: Seq<String>) -> Seq<Seq<char>> {
    l.map_values(|s: String| s@)
}

/// The log after adding a line: at most the last eight lines are kept.
pub open spec fn log_after(l: Seq<Seq<char>>, m: Seq<char>) -> Seq<Seq<char>> {
    let p = l.push(m);
    if p.len() > 8 {
        p.drop_first()
    } else {
        p
    }
}

/// The number of items on each dashboard tab.
pub open spec fn tab_items(tab: usize) -> usize {
    if tab == 0 {
        3
    } else if tab == 1 {
        SERVICE_COUNT
    } else if tab == 2 {
        3
    } else if tab == 3 {
        4
    } else {
        1
    }
}

/// `min(i + 1, max)`.
pub open spec fn step_up(i: usize, max: usize) -> usize {
    if i + 1 <= max {
        (i + 1) as usize
    } else {
        max
    }
}

/// `i.saturating_sub(1)`.
pub open spec fn step_down(i: usize) -> usize {
    if i > 0 {
        (i - 1) as usize
    } else {
        0
    }
}

pub open spec fn is_up(k: Key) -> bool {
    k == Key::Up || k == Key::Char('k')
}

pub open spec fn is_down(k: Key) -> bool {
    k == Key::Down || k == Key::Char('j')
}

/// The service list with service `i` switched.
pub open spec fn toggled_at(s: Seq<bool>, i: int) -> Seq<bool> {
    s.update(i, !s[i])
}

/// The dashboard's output screen showing a title and a text.
pub open spec fn shows_output(a: Installer, b: Installer, title: Seq<char>, text: Seq<char>, running: bool) -> bool {
    &&& b == Installer {
        state: InstallState::DashboardOutput,
        dash_running: running,
        dash_output_title: b.dash_output_title,
        dash_output: b.dash_output,
        ..a
    }
    &&& b.dash_output_title@ == title
    &&& b.dash_output@ == text
}

/// What one key does on the welcome screen.
pub open spec fn welcome_step(a: Installer, b: Installer, key: Key, installed: bool, eff: Effect) -> bool {
    &&& eff == Effect::Nothing
    &&& if is_down(key) {
        b == Installer { welcome_idx: step_up(a.welcome_idx, 5), ..a }
    } else if is_up(key) {
        b == Installer { welcome_idx: step_down(a.welcome_idx), ..a }
    } else if key == Key::Enter || key == Key::Char(' ') {
        if a.welcome_idx == 0 {
            if installed {
                &&& b == Installer { state: InstallState::AlreadyInstalled, menu_idx: 0, menu_actions: b.menu_actions, ..a }
                &&& b.menu_actions@ == seq![MenuAction::Update, MenuAction::Reinstall, MenuAction::Uninstall, MenuAction::Launch]
            } else {
                b == Installer { state: InstallState::Installing, ..a }
            }
        } else if a.welcome_idx == 1 {
            b == Installer { state: InstallState::Dashboard, ..a }
        } else if a.welcome_idx == 2 {
            b == Installer { state: InstallState::ConfigureServices, dash_tab: 1, ..a }
        } else if a.welcome_idx == 3 {
            b == Installer { state: InstallState::Dashboard, dash_tab: 2, ..a }
        } else if a.welcome_idx == 4 {
            shows_output(a, b, tr_spec(a.lang, "Self-Test"@, "Auto-Test"@), Seq::empty(), true)
        } else {
            b == Installer { state: InstallState::Done, ..a }
        }
    } else if key == Key::Char('q') {
        b == Installer { state: InstallState::Done, ..a }
    } else {
        b == a
    }
}

/// What one key does on the screen offered when already installed.
pub open spec fn already_installed_step(a: Installer, b: Installer, key: Key, eff: Effect) -> bool {
    if is_up(key) {
        eff == Effect::Nothing && b == Installer { menu_idx: step_down(a.menu_idx), ..a }
    } else if is_down(key) {
        &&& eff == Effect::Nothing
        &&& b == Installer {
            menu_idx: step_up(a.menu_idx, if a.menu_actions@.len() > 0 { (a.menu_actions@.len() - 1) as usize } else { 0 }),
            ..a
        }
    } else if key == Key::Enter {
        if a.menu_idx < a.menu_actions@.len() {
            let act = a.menu_actions@[a.menu_idx as int];
            if act == MenuAction::Update || act == MenuAction::Reinstall {
                eff == Effect::Nothing && b == Installer { state: InstallState::Installing, ..a }
            } else if act == MenuAction::Uninstall {
                &&& eff == Effect::Uninstall
                &&& b == Installer { state: InstallState::Done, install_log: b.install_log, ..a }
                &&& log_text(b.install_log@) == log_after(log_text(a.install_log@), "Uninstalled Polygone"@)
            } else if act == MenuAction::Launch {
                eff == Effect::Nothing && b == Installer { state: InstallState::Dashboard, ..a }
            } else {
                eff == Effect::Nothing && b == a
            }
        } else {
            eff == Effect::Nothing && b == a
        }
    } else if key == Key::Esc {
        eff == Effect::Nothing && b == Installer { state: InstallState::Welcome, ..a }
    } else {
        eff == Effect::Nothing && b == a
    }
}

/// What one key does on the configuration screen.
pub open spec fn configure_step(a: Installer, b: Installer, key: Key, eff: Effect) -> bool {
    if is_up(key) {
        eff == Effect::Nothing && b == Installer { config_step: step_down(a.config_step), ..a }
    } else if is_down(key) {
        eff == Effect::Nothing && b == Installer { config_step: step_up(a.config_step, 3), ..a }
    } else if key == Key::Enter {
        if a.config_step == 0 {
            eff == Effect::Nothing && b == Installer {
                lang: match a.lang {
                    Lang::EN => Lang::FR,
                    Lang::FR => Lang::EN,
                },
                ..a
            }
        } else if a.config_step == 1 {
            &&& eff == Effect::Nothing
            &&& b == Installer { state: InstallState::UsernameInput, username_input: b.username_input, ..a }
            &&& b.username_input@ == a.username@
        } else if a.config_step == 2 {
            eff == Effect::Nothing && b == Installer { state: InstallState::NodeModeSelect, ..a }
        } else {
            eff == Effect::SaveConfig && b == Installer { state: InstallState::ConfigureServices, ..a }
        }
    } else {
        eff == Effect::Nothing && b == a
    }
}

/// What one key does while typing the user name.
pub open spec fn username_step(a: Installer, b: Installer, key: Key, eff: Effect) -> bool {
    &&& eff == Effect::Nothing
    &&& if key == Key::Enter {
        &&& b == Installer { state: InstallState::Configure, username: b.username, ..a }
        &&& b.username@ == a.username_input@
    } else if key == Key::Esc {
        b == Installer { state: InstallState::Configure, ..a }
    } else if key is Char {
        &&& b == Installer { username_input: b.username_input, ..a }
        &&& b.username_input@ == a.username_input@.push(key->0)
    } else if key == Key::Backspace {
        &&& b == Installer { username_input: b.username_input, ..a }
        &&& b.username_input@ == if a.username_input@.len() > 0 {
            a.username_input@.drop_last()
        } else {
            a.username_input@
        }
    } else {
        b == a
    }
}

/// What one key does on the node-mode screen.
pub open spec fn node_mode_step(a: Installer, b: Installer, key: Key, eff: Effect) -> bool {
    &&& eff == Effect::Nothing
    &&& if key == Key::Left || is_up(key) {
        b == Installer { node_idx: step_down(a.node_idx), ..a }
    } else if key == Key::Right || is_down(key) {
        b == Installer { node_idx: step_up(a.node_idx, 2), ..a }
    } else if key == Key::Enter {
        b == Installer { node: node_at(a.node_idx), state: InstallState::Configure, ..a }
    } else if key == Key::Esc {
        b == Installer { state: InstallState::Configure, ..a }
    } else {
        b == a
    }
}

/// What one key does on the service-choice screen (the core service
/// cannot be switched off).
pub open spec fn services_step_spec(a: Installer, b: Installer, key: Key, eff: Effect) -> bool {
    &&& eff == Effect::Nothing
    &&& if is_up(key) {
        b == Installer { services_step: step_down(a.services_step), ..a }
    } else if is_down(key) {
        b == Installer { services_step: step_up(a.services_step, (SERVICE_COUNT - 1) as usize), ..a }
    } else if key == Key::Left || key == Key::Right || key == Key::Char(' ') {
        if a.services_step > 0 {
            &&& b == Installer { services_enabled: b.services_enabled, ..a }
            &&& b.services_enabled@ == toggled_at(a.services_enabled@, a.services_step as int)
        } else {
            b == a
        }
    } else if key == Key::Enter {
        b == Installer { state: InstallState::Dashboard, ..a }
    } else {
        b == a
    }
}

/// What Enter does on the dashboard.
pub open spec fn dashboard_enter(a: Installer, b: Installer, eff: Effect) -> bool {
    if a.dash_tab == 0 && a.dash_item == 0 {
        eff == Effect::Nothing && shows_output(a, b, tr_spec(a.lang, "Self-Test"@, "Auto-Test"@), Seq::empty(), true)
    } else if a.dash_tab == 0 && a.dash_item == 1 {
        eff == Effect::Nothing && shows_output(
            a,
            b,
            tr_spec(a.lang, "Key Generation"@, "Génération de clés"@),
            Seq::empty(),
            true,
        )
    } else if a.dash_tab == 2 && a.dash_item == 0 {
        eff == Effect::Nothing && shows_output(
            a,
            b,
            tr_spec(a.lang, "Node Paused"@, "Noeud en pause"@),
            tr_spec(
                a.lang,
                "Node paused for 1 hour. Resume anytime from Dashboard > Nodes."@,
                "Noeud mis en pause pour 1 heure. Reprenez à tout moment depuis Dashboard > Noeuds."@,
            ),
            false,
        )
    } else if a.dash_tab == 2 && a.dash_item == 1 {
        eff == Effect::Nothing && shows_output(
            a,
            b,
            tr_spec(a.lang, "Node Paused"@, "Noeud en pause"@),
            tr_spec(
                a.lang,
                "Node paused for 4 hours. Resume anytime from Dashboard > Nodes."@,
                "Noeud mis en pause pour 4 heures. Reprenez à tout moment depuis Dashboard > Noeuds."@,
            ),
            false,
        )
    } else if a.dash_tab == 2 && a.dash_item == 2 {
        eff == Effect::SaveConfig && shows_output(
            Installer { node: NodeChoice::Disabled, ..a },
            b,
            tr_spec(a.lang, "Node Disabled"@, "Noeud désactivé"@),
            tr_spec(
                a.lang,
                "Node has been disabled. You can re-enable it from Settings > Node."@,
                "Le noeud a été désactivé. Vous pouvez le réactiver depuis Paramètres > Noeud."@,
            ),
            false,
        )
    } else if a.dash_tab == 3 && a.dash_item == 0 {
        eff == Effect::SaveConfig && b == Installer {
            lang: match a.lang {
                Lang::EN => Lang::FR,
                Lang::FR => Lang::EN,
            },
            ..a
        }
    } else if a.dash_tab == 3 && a.dash_item == 1 {
        &&& eff == Effect::Nothing
        &&& b == Installer { state: InstallState::UsernameInput, username_input: b.username_input, ..a }
        &&& b.username_input@ == a.username@
    } else if a.dash_tab == 3 && a.dash_item == 2 {
        eff == Effect::Nothing && b == Installer {
            state: InstallState::NodeModeSelect,
            node_idx: node_index(a.node),
            ..a
        }
    } else if a.dash_tab == 3 {
        eff == Effect::Nothing && b == Installer { state: InstallState::Welcome, ..a }
    } else {
        eff == Effect::Nothing && b == a
    }
}

/// Switching a service from the dashboard's service tab (not the core).
pub open spec fn dashboard_toggle(a: Installer, b: Installer, eff: Effect) -> bool {
    if a.dash_item > 0 {
        &&& eff == Effect::SaveServices
        &&& b == Installer { services_enabled: b.services_enabled, ..a }
        &&& b.services_enabled@ == toggled_at(a.services_enabled@, a.dash_item as int)
    } else {
        eff == Effect::Nothing && b == a
    }
}

/// What one key does on the dashboard.
pub open spec fn dashboard_step(a: Installer, b: Installer, key: Key, eff: Effect) -> bool {
    if key == Key::Left || key == Key::Char('h') {
        eff == Effect::Nothing && b == Installer { dash_tab: ((a.dash_tab + 3) % 4) as usize, dash_item: 0, ..a }
    } else if key == Key::Right || key == Key::Char('l') {
        if a.dash_tab == 1 {
            dashboard_toggle(a, b, eff)
        } else {
            eff == Effect::Nothing && b == Installer { dash_tab: ((a.dash_tab + 1) % 4) as usize, dash_item: 0, ..a }
        }
    } else if is_up(key) {
        eff == Effect::Nothing && b == Installer { dash_item: step_down(a.dash_item), ..a }
    } else if is_down(key) {
        eff == Effect::Nothing && b == Installer {
            dash_item: step_up(a.dash_item, (tab_items(a.dash_tab) - 1) as usize),
            ..a
        }
    } else if key == Key::Char(' ') {
        if a.dash_tab == 1 {
            dashboard_toggle(a, b, eff)
        } else {
            eff == Effect::Nothing && b == a
        }
    } else if key == Key::Enter {
        dashboard_enter(a, b, eff)
    } else if key == Key::Esc || key == Key::Char('q') {
        eff == Effect::Nothing && b == Installer { state: InstallState::Done, ..a }
    } else {
        eff == Effect::Nothing && b == a
    }
}

/// What one key does, on whichever screen is showing.
pub open spec fn key_step(a: Installer, b: Installer, kind: KeyKind, key: Key, installed: bool, eff: Effect) -> bool {
    if kind == KeyKind::Release {
        eff == Effect::Nothing && b == a
    } else {
        match a.state {
            InstallState::Welcome => welcome_step(a, b, key, installed, eff),
            InstallState::AlreadyInstalled => already_installed_step(a, b, key, eff),
            InstallState::Installing => eff == Effect::Nothing && if a.install_error is Some && key
                == Key::Enter {
                b == Installer { state: InstallState::Done, ..a }
            } else {
                b == a
            },
            InstallState::Configure => configure_step(a, b, key, eff),
            InstallState::UsernameInput => username_step(a, b, key, eff),
            InstallState::NodeModeSelect => node_mode_step(a, b, key, eff),
            InstallState::ConfigureServices => services_step_spec(a, b, key, eff),
            InstallState::Dashboard => dashboard_step(a, b, key, eff),
            InstallState::DashboardOutput => eff == Effect::Nothing && if key == Key::Enter || key
                == Key::Esc || key == Key::Char('q') {
                b == Installer { state: InstallState::Dashboard, dash_running: false, ..a }
            } else {
                b == a
            },
            InstallState::Done => eff == Effect::Nothing && b == a,
        }
    }
}

impl Installer {
    /// Indices stay within their lists, the core service stays on, and the
    /// log keeps at most eight lines.
    pub open spec fn wf(&self) -> bool {
        &&& self.services_enabled@.len() == SERVICE_COUNT
        &&& self.services_enabled@[0]
        &&& self.dash_tab < 4
        &&& self.dash_item < SERVICE_COUNT
        &&& self.services_step < SERVICE_COUNT
        &&& self.install_log@.len() <= 8
        &&& self.menu_actions@.len() <= 4
        &&& self.menu_idx <= 4
    }

    /// The welcome screen, with the stored settings.
    pub fn new(lang: Lang, username: String, node: NodeChoice) -> (res: Installer)
        ensures
            res.wf(),
            res.state == InstallState::Welcome,
            res.lang == lang,
            res.username@ == username@,
            res.node == node,
            res.services_enabled@ == seq![true, false, false, false, false, false, false, false],
            res.menu_actions@.len() == 0,
            res.install_log@.len() == 0,
            res.install_error is None,
            res.install_phase == InstallPhase::Idle,
            res.install_percent == 0,
            res.welcome_idx == 0 && res.menu_idx == 0 && res.dash_tab == 0 && res.dash_item == 0,
            res.services_step == 0 && res.config_step == 0 && res.node_idx == 0,
            !res.dash_running,
    {
        let services_enabled = vec![true, false, false, false, false, false, false, false];
        Installer {
            state: InstallState::Welcome,
            lang,
            username,
            node,
            menu_idx: 0,
            menu_actions: Vec::new(),
            install_error: None,
            install_log: Vec::new(),
            install_status: String::new(),
            install_percent: 0,
            install_phase: InstallPhase::Idle,
            dash_tab: 0,
            dash_item: 0,
            services_enabled,
            services_step: 0,
            config_step: 0,
            username_input: String::new(),
            node_idx: 0,
            welcome_idx: 0,
            dash_output: String::new(),
            dash_output_title: String::new(),
            dash_running: false,
        }
    }

    /// Adds a line to the install log, keeping the last eight.
    pub fn push_log(&mut self, msg: String)
        requires
            old(self).install_log@.len() <= 8,
        ensures
            final(self).install_log@.len() <= 8,
            log_text(final(self).install_log@) == log_after(log_text(old(self).install_log@), msg@),
            *final(self) == (Installer { install_log: final(self).install_log, ..*old(self) }),
    {
        let ghost m = msg@;
        let ghost l0 = log_text(self.install_log@);
        self.install_log.push(msg);
        proof {
            assert(log_text(self.install_log@) =~= l0.push(m));
        }
        if self.install_log.len() > 8 {
            let ghost l1 = self.install_log@;
            self.install_log.remove(0);
            proof {
                assert(log_text(self.install_log@) =~= log_text(l1).drop_first());
            }
        }
    }

    fn show_output(&mut self, title: String, text: String, running: bool)
        ensures
            shows_output(*old(self), *final(self), title@, text@, running),
    {
        self.dash_output_title = title;
        self.dash_output = text;
        self.dash_running = running;
        self.state = InstallState::DashboardOutput;
    }

    fn toggle_service(&mut self, i: usize)
        requires
            i < old(self).services_enabled@.len(),
        ensures
            *final(self) == (Installer { services_enabled: final(self).services_enabled, ..*old(self) }),
            final(self).services_enabled@ == toggled_at(old(self).services_enabled@, i as int),
    {
        let v = self.services_enabled[i];
        self.services_enabled.set(i, !v);
    }

    /// Applies one key; `installed` says whether the binary is already in
    /// place. Returns what the caller must do outside.
    pub fn handle_key(&mut self, kind: KeyKind, key: Key, installed: bool) -> (res: Effect)
        requires
            old(self).wf(),
        ensures
            final(self).wf(),
            key_step(*old(self), *final(self), kind, key, installed, res),
    {
        if kind == KeyKind::Release {
            return Effect::Nothing;
        }
        let up = key == Key::Up || key == Key::Char('k');
        let down = key == Key::Down || key == Key::Char('j');
        match self.state {
            InstallState::Welcome => {
                if down {
                    self.welcome_idx = if self.welcome_idx < 5 { self.welcome_idx + 1 } else { 5 };
                } else if up {
                    self.welcome_idx = if self.welcome_idx > 0 { self.welcome_idx - 1 } else { 0 };
                } else if key == Key::Enter || key == Key::Char(' ') {
                    if self.welcome_idx == 0 {
                        if installed {
                            self.menu_actions = vec![MenuAction::Update, MenuAction::Reinstall, MenuAction::Uninstall, MenuAction::Launch];
                            self.menu_idx = 0;
                            self.state = InstallState::AlreadyInstalled;
                        } else {
                            self.state = InstallState::Installing;
                        }
                    } else if self.welcome_idx == 1 {
                        self.state = InstallState::Dashboard;
                    } else if self.welcome_idx == 2 {
                        self.state = InstallState::ConfigureServices;
                        self.dash_tab = 1;
                    } else if self.welcome_idx == 3 {
                        self.dash_tab = 2;
                        self.state = InstallState::Dashboard;
                    } else if self.welcome_idx == 4 {
                        let title = tr(self.lang, "Self-Test", "Auto-Test");
                        self.show_output(title, String::new(), true);
                    } else {
                        self.state = InstallState::Done;
                    }
                } else if key == Key::Char('q') {
                    self.state = InstallState::Done;
                }
                Effect::Nothing
            },
            InstallState::AlreadyInstalled => {
                if up {
                    self.menu_idx = if self.menu_idx > 0 { self.menu_idx - 1 } else { 0 };
                    Effect::Nothing
                } else if down {
                    let last = if self.menu_actions.len() > 0 { self.menu_actions.len() - 1 } else { 0 };
                    self.menu_idx = if self.menu_idx + 1 <= last { self.menu_idx + 1 } else { last };
                    Effect::Nothing
                } else if key == Key::Enter {
                    if self.menu_idx < self.menu_actions.len() {
                        let act = self.menu_actions[self.menu_idx];
                        if act == MenuAction::Update || act == MenuAction::Reinstall {
                            self.state = InstallState::Installing;
                            Effect::Nothing
                        } else if act == MenuAction::Uninstall {
                            self.push_log(owned("Uninstalled Polygone"));
                            self.state = InstallState::Done;
                            Effect::Uninstall
                        } else if act == MenuAction::Launch {
                            self.state = InstallState::Dashboard;
                            Effect::Nothing
                        } else {
                            Effect::Nothing
                        }
                    } else {
                        Effect::Nothing
                    }
                } else if key == Key::Esc {
                    self.state = InstallState::Welcome;
                    Effect::Nothing
                } else {
                    Effect::Nothing
                }
            },
            InstallState::Installing => {
                if self.install_error.is_some() && key == Key::Enter {
                    self.state = InstallState::Done;
                }
                Effect::Nothing
            },
            InstallState::Configure => {
                if up {
                    self.config_step = if self.config_step > 0 { self.config_step - 1 } else { 0 };
                    Effect::Nothing
                } else if down {
                    self.config_step = if self.config_step < 3 { self.config_step + 1 } else { 3 };
                    Effect::Nothing
                } else if key == Key::Enter {
                    if self.config_step == 0 {
                        self.lang = self.lang.toggled();
                        Effect::Nothing
                    } else if self.config_step == 1 {
                        self.username_input = self.username.clone();
                        self.state = InstallState::UsernameInput;
                        Effect::Nothing
                    } else if self.config_step == 2 {
                        self.state = InstallState::NodeModeSelect;
                        Effect::Nothing
                    } else {
                        self.state = InstallState::ConfigureServices;
                        Effect::SaveConfig
                    }
                } else {
                    Effect::Nothing
                }
            },
            InstallState::UsernameInput => {
                if key == Key::Enter {
                    self.username = self.username_input.clone();
                    self.state = InstallState::Configure;
                } else if key == Key::Esc {
                    self.state = InstallState::Configure;
                } else {
                    match key {
                        Key::Char(c) => {
                            push_char(&mut self.username_input, c);
                        },
                        Key::Backspace => {
                            pop_char(&mut self.username_input);
                        },
                        _ => {},
                    }
                }
                Effect::Nothing
            },
            InstallState::NodeModeSelect => {
                if key == Key::Left || up {
                    self.node_idx = if self.node_idx > 0 { self.node_idx - 1 } else { 0 };
                } else if key == Key::Right || down {
                    self.node_idx = if self.node_idx < 2 { self.node_idx + 1 } else { 2 };
                } else if key == Key::Enter {
                    self.node = if self.node_idx == 1 {
                        NodeChoice::Passive
                    } else if self.node_idx == 2 {
                        NodeChoice::Active
                    } else {
                        NodeChoice::Disabled
                    };
                    self.state = InstallState::Configure;
                } else if key == Key::Esc {
                    self.state = InstallState::Configure;
                }
                Effect::Nothing
            },
            InstallState::ConfigureServices => {
                if up {
                    if self.services_step > 0 {
                        self.services_step = self.services_step - 1;
                    }
                } else if down {
                    if self.services_step < SERVICE_COUNT - 1 {
                        self.services_step = self.services_step + 1;
                    }
                } else if key == Key::Left || key == Key::Right || key == Key::Char(' ') {
                    if self.services_step > 0 {
                        let i = self.services_step;
                        self.toggle_service(i);
                    }
                } else if key == Key::Enter {
                    self.state = InstallState::Dashboard;
                }
                Effect::Nothing
            },
            InstallState::Dashboard => self.dashboard_key(key, up, down),
            InstallState::DashboardOutput => {
                if key == Key::Enter || key == Key::Esc || key == Key::Char('q') {
                    self.dash_running = false;
                    self.state = InstallState::Dashboard;
                }
                Effect::Nothing
            },
            InstallState::Done => Effect::Nothing,
        }
    }

    fn dashboard_key(&mut self, key: Key, up: bool, down: bool) -> (res: Effect)
        requires
            old(self).wf(),
            old(self).state == InstallState::Dashboard,
            up == is_up(key),
            down == is_down(key),
        ensures
            final(self).wf(),
            dashboard_step(*old(self), *final(self), key, res),
    {
        if key == Key::Left || key == Key::Char('h') {
            self.dash_tab = (self.dash_tab + 3) % 4;
            self.dash_item = 0;
            Effect::Nothing
        } else if key == Key::Right || key == Key::Char('l') {
            if self.dash_tab == 1 {
                if self.dash_item > 0 {
                    let i = self.dash_item;
                    self.toggle_service(i);
                    Effect::SaveServices
                } else {
                    Effect::Nothing
                }
            } else {
                self.dash_tab = (self.dash_tab + 1) % 4;
                self.dash_item = 0;
                Effect::Nothing
            }
        } else if up {
            self.dash_item = if self.dash_item > 0 { self.dash_item - 1 } else { 0 };
            Effect::Nothing
        } else if down {
            let max: usize = if self.dash_tab == 0 {
                3
            } else if self.dash_tab == 1 {
                SERVICE_COUNT
            } else if self.dash_tab == 2 {
                3
            } else {
                4
            };
            self.dash_item = if self.dash_item + 1 <= max - 1 { self.dash_item + 1 } else { max - 1 };
            Effect::Nothing
        } else if key == Key::Char(' ') {
            if self.dash_tab == 1 && self.dash_item > 0 {
                let i = self.dash_item;
                self.toggle_service(i);
                Effect::SaveServices
            } else {
                Effect::Nothing
            }
        } else if key == Key::Enter {
            self.dashboard_enter_key()
        } else if key == Key::Esc || key == Key::Char('q') {
            self.state = InstallState::Done;
            Effect::Nothing
        } else {
            Effect::Nothing
        }
    }

    fn dashboard_enter_key(&mut self) -> (res: Effect)
        requires
            old(self).wf(),
        ensures
            final(self).wf(),
            dashboard_enter(*old(self), *final(self), res),
    {
        let lang = self.lang;
        if self.dash_tab == 0 && self.dash_item == 0 {
            let t = tr(lang, "Self-Test", "Auto-Test");
            self.show_output(t, String::new(), true);
            Effect::Nothing
        } else if self.dash_tab == 0 && self.dash_item == 1 {
            let t = tr(lang, "Key Generation", "Génération de clés");
            self.show_output(t, String::new(), true);
            Effect::Nothing
        } else if self.dash_tab == 2 && self.dash_item == 0 {
            let t = tr(lang, "Node Paused", "Noeud en pause");
            let m = tr(
                lang,
                "Node paused for 1 hour. Resume anytime from Dashboard > Nodes.",
                "Noeud mis en pause pour 1 heure. Reprenez à tout moment depuis Dashboard > Noeuds.",
            );
            self.show_output(t, m, false);
            Effect::Nothing
        } else if self.dash_tab == 2 && self.dash_item == 1 {
            let t = tr(lang, "Node Paused", "Noeud en pause");
            let m = tr(
                lang,
                "Node paused for 4 hours. Resume anytime from Dashboard > Nodes.",
                "Noeud mis en pause pour 4 heures. Reprenez à tout moment depuis Dashboard > Noeuds.",
            );
            self.show_output(t, m, false);
            Effect::Nothing
        } else if self.dash_tab == 2 && self.dash_item == 2 {
            let t = tr(lang, "Node Disabled", "Noeud désactivé");
            let m = tr(
                lang,
                "Node has been disabled. You can re-enable it from Settings > Node.",
                "Le noeud a été désactivé. Vous pouvez le réactiver depuis Paramètres > Noeud.",
            );
            self.node = NodeChoice::Disabled;
            self.show_output(t, m, false);
            Effect::SaveConfig
        } else if self.dash_tab == 3 && self.dash_item == 0 {
            self.lang = self.lang.toggled();
            Effect::SaveConfig
        } else if self.dash_tab == 3 && self.dash_item == 1 {
            self.username_input = self.username.clone();
            self.state = InstallState::UsernameInput;
            Effect::Nothing
        } else if self.dash_tab == 3 && self.dash_item == 2 {
            self.node_idx = self.node.index();
            self.state = InstallState::NodeModeSelect;
            Effect::Nothing
        } else if self.dash_tab == 3 {
            self.state = InstallState::Welcome;
            Effect::Nothing
        } else {
            Effect::Nothing
        }
    }
}

/// `[k/4] ` and a step's message.
pub open spec fn step_text(k: char, msg: Seq<char>) -> Seq<char> {
    seq!['[', k, '/', '4', ']', ' '] + msg
}

/// `b` is `a` moved to `phase` and `state`, showing `status` at `percent`,
/// with the log `log`; nothing else changes.
pub open spec fn moved_on(
    a: Installer,
    b: Installer,
    phase: InstallPhase,
    state: InstallState,
    status: Seq<char>,
    percent: u8,
    log: Seq<Seq<char>>,
) -> bool {
    &&& b == (Installer {
        install_status: b.install_status,
        install_log: b.install_log,
        install_percent: percent,
        install_phase: phase,
        state,
        ..a
    })
    &&& b.install_status@ == status
    &&& log_text(b.install_log@) == log
}

/// `b` is `a` stopped on the error `msg`.
pub open spec fn stopped_on(a: Installer, b: Installer, msg: Seq<char>) -> bool {
    &&& b == (Installer { install_error: b.install_error, install_phase: InstallPhase::Failed, ..a })
    &&& b.install_error matches Some(e) && e@ == msg
}

/// What one reported event does to an installation: a download is tried
/// first, and building from the sources when it fails; each step is shown
/// and logged; a failed copy or build stops with its error; once the
/// binary is in place the configuration is saved and the installer moves
/// on (to the service choices after a download, to the configuration
/// after a build). Events that do not fit the current step change nothing.
pub open spec fn install_effect(a: Installer, b: Installer, ev: InstallEvent, act: InstallAction) -> bool {
    let l = log_text(a.install_log@);
    let lang = a.lang;
    match (a.install_phase, ev) {
        (_, InstallEvent::Begin) => {
            let st = step_text('1', tr_spec(lang, "Downloading Polygone..."@, "T\u{e9}l\u{e9}chargement de Polygone..."@));
            act == InstallAction::Download && moved_on(a, b, InstallPhase::Downloading, a.state, st, 15, log_after(l, st))
        },
        (InstallPhase::Downloading, InstallEvent::Downloaded(true)) => {
            let st = step_text('2', tr_spec(lang, "Installing..."@, "Installation..."@));
            act == InstallAction::CopyDownloaded && moved_on(a, b, InstallPhase::CopyingDownload, a.state, st, 60, log_after(l, st))
        },
        (InstallPhase::Downloading, InstallEvent::Downloaded(false)) => {
            let st = step_text('1', tr_spec(lang, "Building from source..."@, "Compilation depuis les sources..."@));
            act == InstallAction::CheckSource && moved_on(a, b, InstallPhase::CheckingSource, a.state, st, 20, log_after(l, st))
        },
        (InstallPhase::CopyingDownload, InstallEvent::Copied(true)) => {
            let st = step_text('3', tr_spec(lang, "Configuring..."@, "Configuration..."@));
            let done = step_text('4', tr_spec(lang, "Done!"@, "Termin\u{e9}!"@));
            act == InstallAction::SaveConfig && moved_on(
                a,
                b,
                InstallPhase::Finished,
                InstallState::ConfigureServices,
                done,
                100,
                log_after(log_after(l, st), "Done!"@),
            )
        },
        (InstallPhase::CheckingSource, InstallEvent::SourcePresent(false)) => {
            act == InstallAction::CloneSource && moved_on(
                a,
                b,
                InstallPhase::Cloning,
                a.state,
                a.install_status@,
                a.install_percent,
                log_after(l, "Cloning Polygone repository..."@),
            )
        },
        (InstallPhase::CheckingSource, InstallEvent::SourcePresent(true)) | (InstallPhase::Cloning, InstallEvent::Cloned) => {
            let st = step_text('2', tr_spec(lang, "Compiling (may take a while)..."@, "Compilation (peut prendre du temps)..."@));
            act == InstallAction::Build && moved_on(a, b, InstallPhase::Building, a.state, st, 50, log_after(l, "cargo build --release"@))
        },
        (InstallPhase::Building, InstallEvent::Built(true)) => {
            let st = step_text('3', tr_spec(lang, "Installing compiled binary..."@, "Installation du binaire compil\u{e9}..."@));
            act == InstallAction::CopyBuilt && moved_on(a, b, InstallPhase::CopyingBuild, a.state, st, 85, log_after(l, st))
        },
        (InstallPhase::Building, InstallEvent::Built(false)) => {
            act == InstallAction::Wait && stopped_on(
                a,
                b,
                tr_spec(
                    lang,
                    "Build failed. Install Rust: curl https://sh.rustup.rs | sh"@,
                    "Compilation \u{e9}chou\u{e9}e. Installe Rust: curl https://sh.rustup.rs | sh"@,
                ),
            )
        },
        (InstallPhase::CopyingBuild, InstallEvent::Copied(true)) => {
            let done = step_text('4', tr_spec(lang, "Done!"@, "Termin\u{e9}!"@));
            act == InstallAction::SaveConfig && moved_on(
                a,
                b,
                InstallPhase::Finished,
                InstallState::Configure,
                done,
                100,
                log_after(l, "Done!"@),
            )
        },
        (InstallPhase::CopyingDownload, InstallEvent::Copied(false)) | (InstallPhase::CopyingBuild, InstallEvent::Copied(false)) => {
            act == InstallAction::Wait && stopped_on(a, b, tr_spec(lang, "Copy failed"@, "\u{c9}chec de la copie"@))
        },
        _ => act == InstallAction::Wait && b == a,
    }
}

/// `[k/4] ` followed by `msg`.
fn step_line(k: char, msg: String) -> (res: String)
    ensures
        res@ == step_text(k, msg@),
{
    let mut s = String::new();
    push_char(&mut s, '[');
    push_char(&mut s, k);
    push_char(&mut s, '/');
    push_char(&mut s, '4');
    push_char(&mut s, ']');
    push_char(&mut s, ' ');
    push_str(&mut s, msg.as_str());
    assert(s@ =~= step_text(k, msg@));
    s
}

impl Installer {
    /// Shows and logs a step, moving to `phase`.
    fn show_step(&mut self, phase: InstallPhase, status: String, percent: u8)
        requires
            old(self).install_log@.len() <= 8,
        ensures
            final(self).install_log@.len() <= 8,
            moved_on(
                *old(self),
                *final(self),
                phase,
                old(self).state,
                status@,
                percent,
                log_after(log_text(old(self).install_log@), status@),
            ),
    {
        let line = status.clone();
        self.install_status = status;
        self.install_percent = percent;
        self.install_phase = phase;
        self.push_log(line);
    }

    /// Applies what the caller reports of the installation work and says
    /// what to do next (see [`install_effect`]).
    pub fn install_step(&mut self, ev: InstallEvent) -> (res: InstallAction)
        requires
            old(self).wf(),
        ensures
            final(self).wf(),
            install_effect(*old(self), *final(self), ev, res),
    {
        let lang = self.lang;
        match (self.install_phase, ev) {
            (_, InstallEvent::Begin) => {
                let st = step_line('1', tr(lang, "Downloading Polygone...", "T\u{e9}l\u{e9}chargement de Polygone..."));
                self.show_step(InstallPhase::Downloading, st, 15);
                InstallAction::Download
            },
            (InstallPhase::Downloading, InstallEvent::Downloaded(true)) => {
                let st = step_line('2', tr(lang, "Installing...", "Installation..."));
                self.show_step(InstallPhase::CopyingDownload, st, 60);
                InstallAction::CopyDownloaded
            },
            (InstallPhase::Downloading, InstallEvent::Downloaded(false)) => {
                let st = step_line('1', tr(lang, "Building from source...", "Compilation depuis les sources..."));
                self.show_step(InstallPhase::CheckingSource, st, 20);
                InstallAction::CheckSource
            },
            (InstallPhase::CopyingDownload, InstallEvent::Copied(true)) => {
                let st = step_line('3', tr(lang, "Configuring...", "Configuration..."));
                self.show_step(InstallPhase::CopyingDownload, st, 85);
                let done = step_line('4', tr(lang, "Done!", "Termin\u{e9}!"));
                self.install_status = done;
                self.install_percent = 100;
                self.install_phase = InstallPhase::Finished;
                self.push_log(owned("Done!"));
                self.state = InstallState::ConfigureServices;
                InstallAction::SaveConfig
            },
            (InstallPhase::CheckingSource, InstallEvent::SourcePresent(false)) => {
                self.install_phase = InstallPhase::Cloning;
                self.push_log(owned("Cloning Polygone repository..."));
                InstallAction::CloneSource
            },
            (InstallPhase::CheckingSource, InstallEvent::SourcePresent(true)) | (InstallPhase::Cloning, InstallEvent::Cloned) => {
                let st = step_line('2', tr(lang, "Compiling (may take a while)...", "Compilation (peut prendre du temps)..."));
                self.install_status = st;
                self.install_percent = 50;
                self.install_phase = InstallPhase::Building;
                self.push_log(owned("cargo build --release"));
                InstallAction::Build
            },
            (InstallPhase::Building, InstallEvent::Built(true)) => {
                let st = step_line('3', tr(lang, "Installing compiled binary...", "Installation du binaire compil\u{e9}..."));
                self.show_step(InstallPhase::CopyingBuild, st, 85);
                InstallAction::CopyBuilt
            },
            (InstallPhase::Building, InstallEvent::Built(false)) => {
                self.install_error = Some(tr(
                    lang,
                    "Build failed. Install Rust: curl https://sh.rustup.rs | sh",
                    "Compilation \u{e9}chou\u{e9}e. Installe Rust: curl https://sh.rustup.rs | sh",
                ));
                self.install_phase = InstallPhase::Failed;
                InstallAction::Wait
            },
            (InstallPhase::CopyingBuild, InstallEvent::Copied(true)) => {
                let done = step_line('4', tr(lang, "Done!", "Termin\u{e9}!"));
                self.install_status = done;
                self.install_percent = 100;
                self.install_phase = InstallPhase::Finished;
                self.push_log(owned("Done!"));
                self.state = InstallState::Configure;
                InstallAction::SaveConfig
            },
            (InstallPhase::CopyingDownload, InstallEvent::Copied(false)) | (InstallPhase::CopyingBuild, InstallEvent::Copied(false)) => {
                self.install_error = Some(tr(lang, "Copy failed", "\u{c9}chec de la copie"));
                self.install_phase = InstallPhase::Failed;
                InstallAction::Wait
            },
            _ => InstallAction::Wait,
        }
    }
}

} // verus!
