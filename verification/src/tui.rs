//! The dashboard's state and how keys change it: four tabs, a log of recent
//! messages, and module cards that can be switched on and off. Drawing the
//! screen and reading the keyboard belong to the program around it.

use vstd::prelude::*;
use crate::installer::Key;
use crate::text::{owned, push_str, str_eq};

verus! {

/// The four tabs of the dashboard.
#[derive(Clone, Copy, Debug, PartialEq, Eq, Structural)]
pub enum Tab {
    Dashboard,
    Favorites,
    Services,
    Settings,
}

/// The position of each tab.
pub open spec fn view_index(v: Tab) -> nat {
    match v {
        Tab::Dashboard => 0,
        Tab::Favorites => 1,
        Tab::Services => 2,
        Tab::Settings => 3,
    }
}

/// The tab at a position, counted modulo four.
pub open spec fn view_at(idx: nat) -> Tab {
    let k = idx % 4;
    if k == 0 {
        Tab::Dashboard
    } else if k == 1 {
        Tab::Favorites
    } else if k == 2 {
        Tab::Services
    } else {
        Tab::Settings
    }
}

/// The label of each tab.
pub open spec fn view_label(v: Tab) -> Seq<char> {
    match v {
        Tab::Dashboard => "\u{1F3E0} Accueil"@,
        Tab::Favorites => "\u{2B50} Favoris"@,
        Tab::Services => "\u{1F9E9} Services"@,
        Tab::Settings => "\u{2699}\u{FE0F} Param\u{e8}tres"@,
    }
}

/// The number of tabs.
pub const TAB_COUNT: usize = 4;

impl Tab {
    /// The tab at position `idx`, counted modulo four.
    pub fn from_idx(idx: usize) -> (res: Tab)
        ensures
            res == view_at(idx as nat),
    {
        let k = idx % 4;
        if k == 0 {
            Tab::Dashboard
        } else if k == 1 {
            Tab::Favorites
        } else if k == 2 {
            Tab::Services
        } else {
            Tab::Settings
        }
    }

    /// The tab's label.
    pub fn label(self) -> (res: &'static str)
        ensures
            res@ == view_label(self),
    {
        match self {
            Tab::Dashboard => "\u{1F3E0} Accueil",
            Tab::Favorites => "\u{2B50} Favoris",
            Tab::Services => "\u{1F9E9} Services",
            Tab::Settings => "\u{2699}\u{FE0F} Param\u{e8}tres",
        }
    }

    /// The tab's position.
    pub fn index(self) -> (res: usize)
        ensures
            res == view_index(self),
    {
        match self {
            Tab::Dashboard => 0,
            Tab::Favorites => 1,
            Tab::Services => 2,
            Tab::Settings => 3,
        }
    }
}

/// The severity of a log message.
#[derive(Clone, Copy, Debug, PartialEq, Eq, Structural)]
pub enum MessageKind {
    Info,
    Success,
    Error,
    Warn,
}

/// The symbol shown before each kind of message.
pub open spec fn kind_symbol(k: MessageKind) -> Seq<char> {
    match k {
        MessageKind::Info => "\u{2139}"@,
        MessageKind::Success => "\u{2714}"@,
        MessageKind::Error => "\u{2716}"@,
        MessageKind::Warn => "\u{26A0}"@,
    }
}

impl MessageKind {
    /// The symbol shown before a message of this kind.
    pub fn symbol(self) -> (res: &'static str)
        ensures
            res@ == kind_symbol(self),
    {
        match self {
            MessageKind::Info => "\u{2139}",
            MessageKind::Success => "\u{2714}",
            MessageKind::Error => "\u{2716}",
            MessageKind::Warn => "\u{26A0}",
        }
    }
}

/// The state of a module.
#[derive(Clone, Copy, Debug, PartialEq, Eq, Structural)]
pub enum ModuleStatus {
    Off,
    Running,
    Error,
    ComingSoon,
}

/// The label of each module state.
pub open spec fn status_label(s: ModuleStatus) -> Seq<char> {
    match s {
        ModuleStatus::Off => "Off"@,
        ModuleStatus::Running => "Running"@,
        ModuleStatus::Error => "Error"@,
        ModuleStatus::ComingSoon => "\u{1F51C}"@,
    }
}

impl ModuleStatus {
    /// The state's label.
    pub fn label(&self) -> (res: &'static str)
        ensures
            res@ == status_label(*self),
    {
        match self {
            ModuleStatus::Off => "Off",
            ModuleStatus::Running => "Running",
            ModuleStatus::Error => "Error",
            ModuleStatus::ComingSoon => "\u{1F51C}",
        }
    }
}

/// One module card of the dashboard.
#[derive(Clone, Copy, Debug)]
pub struct ModuleCard {
    pub name: &'static str,
    pub icon: &'static str,
    pub desc: &'static str,
    pub status: ModuleStatus,
    pub version: &'static str,
}

/// The cards the dashboard starts with: name, icon, description, state and
/// version of each.
pub open spec fn initial_cards() -> Seq<(Seq<char>, Seq<char>, Seq<char>, ModuleStatus, Seq<char>)> {
    seq![
        ("Msg"@, "\u{1F4AC}"@, "Messagerie E2E \u{e9}ph\u{e9}m\u{e8}re"@, ModuleStatus::Running, "0.1"@),
        ("Hide"@, "\u{1F47B}"@, "Proxy SOCKS5 \u{b7} anonymisation"@, ModuleStatus::Running, "0.1"@),
        ("Drive"@, "\u{1F4C1}"@, "Stockage distribu\u{e9} chiffr\u{e9}"@, ModuleStatus::Off, "0.5"@),
        ("Mesh"@, "\u{1F517}"@, "R\u{e9}seau local P2P"@, ModuleStatus::Off, "0.3"@),
        ("Brain"@, "\u{1F9E0}"@, "IA locale \u{b7} Notch SLM"@, ModuleStatus::ComingSoon, "\u{3b1}"@),
    ]
}

/// A card as plain values.
pub open spec fn card_view(c: ModuleCard) -> (Seq<char>, Seq<char>, Seq<char>, ModuleStatus, Seq<char>) {
    (c.name@, c.icon@, c.desc@, c.status, c.version@)
}

/// All cards as plain values.
pub open spec fn cards_view(cs: Seq<ModuleCard>) -> Seq<(Seq<char>, Seq<char>, Seq<char>, ModuleStatus, Seq<char>)> {
    cs.map_values(|c: ModuleCard| card_view(c))
}

impl ModuleCard {
    /// The cards the dashboard starts with.
    pub fn all() -> (res: Vec<ModuleCard>)
        ensures
            cards_view(res@) == initial_cards(),
    {
        let mut v: Vec<ModuleCard> = Vec::new();
        v.push(ModuleCard {
            name: "Msg",
            icon: "\u{1F4AC}",
            desc: "Messagerie E2E \u{e9}ph\u{e9}m\u{e8}re",
            status: ModuleStatus::Running,
            version: "0.1",
        });
        v.push(ModuleCard {
            name: "Hide",
            icon: "\u{1F47B}",
            desc: "Proxy SOCKS5 \u{b7} anonymisation",
            status: ModuleStatus::Running,
            version: "0.1",
        });
        v.push(ModuleCard {
            name: "Drive",
            icon: "\u{1F4C1}",
            desc: "Stockage distribu\u{e9} chiffr\u{e9}",
            status: ModuleStatus::Off,
            version: "0.5",
        });
        v.push(ModuleCard {
            name: "Mesh",
            icon: "\u{1F517}",
            desc: "R\u{e9}seau local P2P",
            status: ModuleStatus::Off,
            version: "0.3",
        });
        v.push(ModuleCard {
            name: "Brain",
            icon: "\u{1F9E0}",
            desc: "IA locale \u{b7} Notch SLM",
            status: ModuleStatus::ComingSoon,
            version: "\u{3b1}",
        });
        assert(cards_view(v@) =~= initial_cards());
        v
    }
}

/// The counters shown on the dashboard (the traffic rates, which are
/// fractional, are kept by the screen that draws them).
#[derive(Clone, Copy, Debug)]
pub struct NodeStats {
    pub uptime_secs: u64,
    pub peers: u32,
    pub fragments_ready: u32,
    pub fragments_needed: u32,
    pub balance: u32,
}

/// The counters the dashboard starts with.
pub open spec fn initial_stats() -> NodeStats {
    NodeStats { uptime_secs: 1080, peers: 3, fragments_ready: 3, fragments_needed: 4, balance: 10 }
}

impl NodeStats {
    /// The counters the dashboard starts with.
    pub fn initial() -> (res: NodeStats)
        ensures
            res == initial_stats(),
    {
        NodeStats { uptime_secs: 1080, peers: 3, fragments_ready: 3, fragments_needed: 4, balance: 10 }
    }
}

/// The most messages the log keeps.
pub const LOG_CAP: usize = 50;

/// A log entry as plain values: kind, text and the uptime it was written at.
pub open spec fn log_view(m: Seq<(MessageKind, String, u64)>) -> Seq<(MessageKind, Seq<char>, u64)> {
    m.map_values(|e: (MessageKind, String, u64)| (e.0, e.1@, e.2))
}

/// The log after one more entry: the oldest goes first once fifty are held.
pub open spec fn log_after(
    log: Seq<(MessageKind, Seq<char>, u64)>,
    entry: (MessageKind, Seq<char>, u64),
) -> Seq<(MessageKind, Seq<char>, u64)> {
    if log.len() >= 50 {
        log.drop_first().push(entry)
    } else {
        log.push(entry)
    }
}

/// The log the dashboard starts with.
pub open spec fn initial_log() -> Seq<(MessageKind, Seq<char>, u64)> {
    seq![
        (MessageKind::Success, "\u{2B21} Polygone v1.0.0 d\u{e9}marr\u{e9}"@, 1080u64),
        (MessageKind::Info, "Cl\u{e9} ML-KEM-1024 g\u{e9}n\u{e9}r\u{e9}e"@, 1020u64),
        (MessageKind::Success, "Pairing node 127.0.0.1:4001 \u{2713}"@, 900u64),
        (MessageKind::Warn, "Cache z\u{e9}ro\u{e9} \u{2014} 4.2 MB lib\u{e9}r\u{e9}s"@, 720u64),
        (MessageKind::Success, "Test Shamir 4-of-7 : 35/35 \u{2713}"@, 480u64),
        (MessageKind::Info, "Tunnel Hide SOCKS5 ready :9050"@, 300u64),
    ]
}

/// The module a letter switches, and whether that module keeps an error or
/// coming-soon state when switched (otherwise anything but running becomes
/// running).
pub open spec fn toggle_target(c: char) -> Option<(Seq<char>, bool)> {
    if c == 'm' || c == 'M' {
        Some(("Msg"@, false))
    } else if c == 'h' || c == 'H' {
        Some(("Hide"@, false))
    } else if c == 'd' || c == 'D' {
        Some(("Drive"@, true))
    } else if c == 'n' || c == 'N' {
        Some(("Mesh"@, true))
    } else {
        None
    }
}

/// A module's state after it is switched.
pub open spec fn toggled(s: ModuleStatus, keeps_other: bool) -> ModuleStatus {
    match s {
        ModuleStatus::Running => ModuleStatus::Off,
        ModuleStatus::Off => ModuleStatus::Running,
        _ => if keeps_other { s } else { ModuleStatus::Running },
    }
}

/// The index of the first card named `name`, or -1.
pub open spec fn first_named(cs: Seq<ModuleCard>, name: Seq<char>) -> int
    decreases cs.len(),
{
    if cs.len() == 0 {
        -1
    } else {
        let p = first_named(cs.drop_last(), name);
        if p >= 0 {
            p
        } else if cs.last().name@ == name {
            cs.len() - 1
        } else {
            -1
        }
    }
}

/// The message logged when a module is switched.
pub open spec fn toggle_message(name: Seq<char>, now_running: bool) -> Seq<char> {
    name + (if now_running { " activ\u{e9}"@ } else { " d\u{e9}sactiv\u{e9}"@ })
}

/// Global dashboard state.
pub struct App {
    pub current_view: Tab,
    pub should_quit: bool,
    /// (kind, text, uptime in seconds when written)
    pub messages: Vec<(MessageKind, String, u64)>,
    pub tick: u64,
    pub stats: NodeStats,
    pub modules: Vec<ModuleCard>,
}

/// What a key does to the dashboard.
pub open spec fn key_effect(a: App, b: App, key: Key, ctrl: bool) -> bool {
    match key {
        Key::Esc => b == App { should_quit: true, ..a },
        Key::Char(c) => {
            if c == 'q' || (c == 'c' && ctrl) {
                b == App { should_quit: true, ..a }
            } else if c == '1' {
                b == App { current_view: Tab::Dashboard, ..a }
            } else if c == '2' {
                b == App { current_view: Tab::Favorites, ..a }
            } else if c == '3' {
                b == App { current_view: Tab::Services, ..a }
            } else if c == '4' {
                b == App { current_view: Tab::Settings, ..a }
            } else if let Some((name, keeps)) = toggle_target(c) {
                let i = first_named(a.modules@, name);
                if i < 0 {
                    b == a
                } else {
                    let card = a.modules@[i];
                    let st = toggled(card.status, keeps);
                    &&& b.modules@ == a.modules@.update(i, ModuleCard { status: st, ..card })
                    &&& log_view(b.messages@) == log_after(
                        log_view(a.messages@),
                        (MessageKind::Info, toggle_message(name, st == ModuleStatus::Running), a.stats.uptime_secs),
                    )
                    &&& b.current_view == a.current_view
                    &&& b.should_quit == a.should_quit
                    &&& b.tick == a.tick
                    &&& b.stats == a.stats
                }
            } else {
                b == a
            }
        },
        Key::Left => b == App { current_view: view_at(view_index(a.current_view) + 3), ..a },
        Key::Right => b == App { current_view: view_at(view_index(a.current_view) + 1), ..a },
        _ => b == a,
    }
}

proof fn lemma_first_named(cs: Seq<ModuleCard>, name: Seq<char>)
    ensures
        -1 <= first_named(cs, name) < cs.len(),
        first_named(cs, name) >= 0 ==> cs[first_named(cs, name)].name@ == name,
        forall|j: int|
            0 <= j < cs.len() && (first_named(cs, name) < 0 || j < first_named(cs, name))
                ==> (#[trigger] cs[j]).name@ != name,
    decreases cs.len(),
{
    if cs.len() > 0 {
        let t = cs.drop_last();
        lemma_first_named(t, name);
        assert forall|j: int|
            0 <= j < cs.len() && (first_named(cs, name) < 0 || j < first_named(cs, name))
                implies (#[trigger] cs[j]).name@ != name by {
            if j < cs.len() - 1 {
                assert(cs[j] == t[j]);
            }
        }
    }
}

/// The index of the first card named `name`, if any.
fn find_card(cs: &Vec<ModuleCard>, name: &str) -> (res: Option<usize>)
    ensures
        match res {
            Some(i) => i as int == first_named(cs@, name@) && i < cs@.len(),
            None => first_named(cs@, name@) < 0,
        },
{
    let ghost s = cs@;
    let mut i: usize = 0;
    while i < cs.len()
        invariant
            0 <= i <= s.len(),
            s == cs@,
            forall|j: int| 0 <= j < i ==> (#[trigger] s[j]).name@ != name@,
        decreases s.len() - i,
    {
        if str_eq(cs[i].name, name) {
            proof {
                lemma_first_named(s, name@);
                let p = first_named(s, name@);
                if p >= 0 && p < i {
                    assert(s[p].name@ != name@);
                }
            }
            return Some(i);
        }
        i = i + 1;
    }
    proof {
        lemma_first_named(s, name@);
        if first_named(s, name@) >= 0 {
            let p = first_named(s, name@);
            assert(s[p].name@ != name@);
        }
    }
    None
}

impl App {
    /// The dashboard as it starts.
    pub fn new() -> (res: App)
        ensures
            res.current_view == Tab::Dashboard,
            !res.should_quit,
            log_view(res.messages@) == initial_log(),
            res.tick == 0,
            res.stats == initial_stats(),
            cards_view(res.modules@) == initial_cards(),
    {
        let mut messages: Vec<(MessageKind, String, u64)> = Vec::new();
        messages.push((MessageKind::Success, owned("\u{2B21} Polygone v1.0.0 d\u{e9}marr\u{e9}"), 1080));
        messages.push((MessageKind::Info, owned("Cl\u{e9} ML-KEM-1024 g\u{e9}n\u{e9}r\u{e9}e"), 1020));
        messages.push((MessageKind::Success, owned("Pairing node 127.0.0.1:4001 \u{2713}"), 900));
        messages.push((MessageKind::Warn, owned("Cache z\u{e9}ro\u{e9} \u{2014} 4.2 MB lib\u{e9}r\u{e9}s"), 720));
        messages.push((MessageKind::Success, owned("Test Shamir 4-of-7 : 35/35 \u{2713}"), 480));
        messages.push((MessageKind::Info, owned("Tunnel Hide SOCKS5 ready :9050"), 300));
        assert(log_view(messages@) =~= initial_log());
        App {
            current_view: Tab::Dashboard,
            should_quit: false,
            messages,
            tick: 0,
            stats: NodeStats::initial(),
            modules: ModuleCard::all(),
        }
    }

    /// Logs a message at the current uptime, dropping the oldest once fifty
    /// are held.
    pub fn push_msg(&mut self, kind: MessageKind, msg: String)
        ensures
            log_view(final(self).messages@) == log_after(
                log_view(old(self).messages@),
                (kind, msg@, old(self).stats.uptime_secs),
            ),
            final(self).current_view == old(self).current_view,
            final(self).should_quit == old(self).should_quit,
            final(self).tick == old(self).tick,
            final(self).stats == old(self).stats,
            final(self).modules@ == old(self).modules@,
    {
        let ghost l0 = log_view(self.messages@);
        if self.messages.len() >= LOG_CAP {
            let ghost m0 = self.messages@;
            self.messages.remove(0);
            proof {
                assert(log_view(self.messages@) =~= log_view(m0).drop_first());
            }
        }
        let ghost m1 = self.messages@;
        let ghost m = msg@;
        let up = self.stats.uptime_secs;
        self.messages.push((kind, msg, up));
        proof {
            assert(log_view(self.messages@) =~= log_view(m1).push((kind, m, up)));
        }
    }

    /// Switches the first module named `name` and logs it.
    fn toggle_module(&mut self, name: &'static str, keeps_other: bool)
        ensures
            ({
                let i = first_named(old(self).modules@, name@);
                if i < 0 {
                    *final(self) == *old(self)
                } else {
                    let card = old(self).modules@[i];
                    let st = toggled(card.status, keeps_other);
                    &&& final(self).modules@ == old(self).modules@.update(i, ModuleCard { status: st, ..card })
                    &&& log_view(final(self).messages@) == log_after(
                        log_view(old(self).messages@),
                        (MessageKind::Info, toggle_message(name@, st == ModuleStatus::Running), old(self).stats.uptime_secs),
                    )
                    &&& final(self).current_view == old(self).current_view
                    &&& final(self).should_quit == old(self).should_quit
                    &&& final(self).tick == old(self).tick
                    &&& final(self).stats == old(self).stats
                }
            }),
    {
        match find_card(&self.modules, name) {
            None => {},
            Some(i) => {
                let card = self.modules[i];
                let st = match card.status {
                    ModuleStatus::Running => ModuleStatus::Off,
                    ModuleStatus::Off => ModuleStatus::Running,
                    other => if keeps_other { other } else { ModuleStatus::Running },
                };
                self.modules.set(i, ModuleCard { status: st, ..card });
                let mut text = owned(name);
                if st == ModuleStatus::Running {
                    push_str(&mut text, " activ\u{e9}");
                } else {
                    push_str(&mut text, " d\u{e9}sactiv\u{e9}");
                }
                self.push_msg(MessageKind::Info, text);
            },
        }
    }

    /// Applies one key press (`ctrl` tells whether Control was held).
    pub fn handle_key(&mut self, key: Key, ctrl: bool)
        ensures
            key_effect(*old(self), *final(self), key, ctrl),
    {
        match key {
            Key::Esc => {
                self.should_quit = true;
            },
            Key::Left => {
                let idx = self.current_view.index();
                self.current_view = Tab::from_idx(idx + 3);
            },
            Key::Right => {
                let idx = self.current_view.index();
                self.current_view = Tab::from_idx(idx + 1);
            },
            Key::Char(c) => {
                if c == 'q' || (c == 'c' && ctrl) {
                    self.should_quit = true;
                } else if c == '1' {
                    self.current_view = Tab::Dashboard;
                } else if c == '2' {
                    self.current_view = Tab::Favorites;
                } else if c == '3' {
                    self.current_view = Tab::Services;
                } else if c == '4' {
                    self.current_view = Tab::Settings;
                } else if c == 'm' || c == 'M' {
                    self.toggle_module("Msg", false);
                } else if c == 'h' || c == 'H' {
                    self.toggle_module("Hide", false);
                } else if c == 'd' || c == 'D' {
                    self.toggle_module("Drive", true);
                } else if c == 'n' || c == 'N' {
                    self.toggle_module("Mesh", true);
                }
            },
            _ => {},
        }
    }
}

} // verus!
