//! The decisions of the power-lending daemon: which state it is in, the
//! time stamp of its log lines, and the local models it can share.
//! Sampling the machine, sleeping and printing belong to the program that
//! runs it.

use vstd::prelude::*;
use crate::clock::epoch_secs;
use crate::numfmt::digit_char;
use crate::text::{first_word, first_word_of, lines, push_char, split_lines, str_eq, strings_view};

verus! {

/// The state of the lending daemon.
#[derive(Debug, Clone, Copy, PartialEq, Eq, Structural)]
pub enum LendingState {
    /// The user is active: lending paused.
    PausedUserActive,
    /// The machine is short of resources: lending paused.
    PausedResourceLow,
    /// Lending to the network.
    LendingActive,
    /// Sharing local inference.
    OllamaActive,
    /// Lending with a minimal footprint.
    StealthActive,
    /// Stopped.
    Stopped,
}

/// The label of each state.
pub open spec fn lending_label(s: LendingState) -> Seq<char> {
    match s {
        LendingState::PausedUserActive => "\u{23F8} Paused (user active)"@,
        LendingState::PausedResourceLow => "\u{23F8} Paused (resources low)"@,
        LendingState::LendingActive => "\u{25CF} Lending"@,
        LendingState::OllamaActive => "\u{25C6} Ollama Active"@,
        LendingState::StealthActive => "\u{1F441} Stealth"@,
        LendingState::Stopped => "\u{25CB} Stopped"@,
    }
}

/// The states in which resources are lent.
pub open spec fn lending_active(s: LendingState) -> bool {
    s == LendingState::LendingActive || s == LendingState::OllamaActive || s
        == LendingState::StealthActive
}

impl LendingState {
    /// The state's label.
    pub fn label(&self) -> (res: &'static str)
        ensures
            res@ == lending_label(*self),
    {
        match self {
            LendingState::PausedUserActive => "\u{23F8} Paused (user active)",
            LendingState::PausedResourceLow => "\u{23F8} Paused (resources low)",
            LendingState::LendingActive => "\u{25CF} Lending",
            LendingState::OllamaActive => "\u{25C6} Ollama Active",
            LendingState::StealthActive => "\u{1F441} Stealth",
            LendingState::Stopped => "\u{25CB} Stopped",
        }
    }

    /// True when resources are being lent.
    pub fn is_active(&self) -> (res: bool)
        ensures
            res == lending_active(*self),
    {
        match self {
            LendingState::LendingActive | LendingState::OllamaActive | LendingState::StealthActive => true,
            _ => false,
        }
    }
}

/// The state the daemon moves to after a sample of the machine.
pub open spec fn next_lending_state(
    idle: bool,
    ram_over: bool,
    cpu_over: bool,
    stealth: bool,
    models_ready: bool,
) -> LendingState {
    if !idle {
        LendingState::PausedUserActive
    } else if ram_over || cpu_over {
        LendingState::PausedResourceLow
    } else if stealth {
        LendingState::StealthActive
    } else if models_ready {
        LendingState::OllamaActive
    } else {
        LendingState::LendingActive
    }
}

/// The next state: paused while the user is active or while RAM
/// (`ram_over`) or CPU (`cpu_over`) use is above the lending limits; else
/// stealth lending when enabled, model sharing when local models were
/// found, plain lending otherwise.
pub fn next_state(idle: bool, ram_over: bool, cpu_over: bool, stealth: bool, models_ready: bool) -> (res: LendingState)
    ensures
        res == next_lending_state(idle, ram_over, cpu_over, stealth, models_ready),
        !idle ==> res == LendingState::PausedUserActive,
        idle && (ram_over || cpu_over) ==> res == LendingState::PausedResourceLow,
        (res is LendingActive || res is OllamaActive || res is StealthActive) ==> idle && !ram_over && !cpu_over,
{
    if !idle {
        LendingState::PausedUserActive
    } else if ram_over || cpu_over {
        LendingState::PausedResourceLow
    } else if stealth {
        LendingState::StealthActive
    } else if models_ready {
        LendingState::OllamaActive
    } else {
        LendingState::LendingActive
    }
}

/// Two decimal digits of `v` (below 100).
pub open spec fn two_digits(v: nat) -> Seq<char> {
    seq![digit_char((v / 10) as int), digit_char((v % 10) as int)]
}

/// `HH:MM:SS` of the time of day (UTC) `secs` seconds after the epoch.
pub open spec fn clock_text(secs: nat) -> Seq<char> {
    two_digits((secs / 3600) % 24) + ":"@ + two_digits((secs / 60) % 60) + ":"@ + two_digits(secs % 60)
}

fn push_two_digits(s: &mut String, v: u64)
    requires
        v < 100,
    ensures
        final(s)@ == old(s)@ + two_digits(v as nat),
{
    let hi = (v / 10) as u8;
    let lo = (v % 10) as u8;
    push_char(s, (hi + 48) as char);
    push_char(s, (lo + 48) as char);
    assert(s@ =~= old(s)@ + two_digits(v as nat));
}

/// The time of day of `secs` as `HH:MM:SS`.
pub fn clock_at(secs: u64) -> (res: String)
    ensures
        res@ == clock_text(secs as nat),
{
    let mut s = String::new();
    push_two_digits(&mut s, (secs / 3600) % 24);
    push_char(&mut s, ':');
    push_two_digits(&mut s, (secs / 60) % 60);
    push_char(&mut s, ':');
    push_two_digits(&mut s, secs % 60);
    proof {
        reveal_strlit(":");
    }
    assert(s@ =~= clock_text(secs as nat));
    s
}

/// The current time of day as `HH:MM:SS`, for log lines.
pub fn clock_display() -> (res: String)
    ensures
        exists|secs: u64| res@ == clock_text(secs as nat),
{
    let secs = epoch_secs();
    clock_at(secs)
}

/// The model names in lines of a model listing: the first word of each
/// line, skipping blank lines and the `NAME` column header.
pub open spec fn model_names(ls: Seq<Seq<char>>) -> Seq<Seq<char>>
    decreases ls.len(),
{
    if ls.len() == 0 {
        Seq::empty()
    } else {
        let r = model_names(ls.drop_last());
        match first_word(ls.last()) {
            Some(w) => if w != "NAME"@ { r.push(w) } else { r },
            None => r,
        }
    }
}

/// The models of a listing: the header line is skipped, then the model
/// name of each line is kept.
pub open spec fn listed_models(out: Seq<char>) -> Seq<Seq<char>> {
    let ls = split_lines(out);
    if ls.len() == 0 {
        Seq::empty()
    } else {
        model_names(ls.drop_first())
    }
}

/// The model names in the output of `ollama list`.
pub fn ollama_models(stdout: &str) -> (res: Vec<String>)
    ensures
        strings_view(res@) == listed_models(stdout@),
{
    let ls = lines(stdout);
    let ghost lv = strings_view(ls@);
    let mut out: Vec<String> = Vec::new();
    if ls.len() == 0 {
        return out;
    }
    let mut i: usize = 1;
    proof {
        assert(lv.subrange(1, 1) =~= Seq::<Seq<char>>::empty());
        assert(strings_view(out@) =~= Seq::<Seq<char>>::empty());
    }
    while i < ls.len()
        invariant
            1 <= i <= ls@.len(),
            lv == strings_view(ls@),
            lv.len() == ls@.len(),
            strings_view(out@) == model_names(lv.subrange(1, i as int)),
        decreases ls@.len() - i,
    {
        let ghost before = out@;
        proof {
            assert(lv.subrange(1, i + 1).drop_last() =~= lv.subrange(1, i as int));
            assert(lv.subrange(1, i + 1).last() == ls@[i as int]@);
        }
        match first_word_of(ls[i].as_str()) {
            Some(w) => {
                if !str_eq(w.as_str(), "NAME") {
                    let ghost wv = w@;
                    out.push(w);
                    proof {
                        assert(strings_view(out@) =~= strings_view(before).push(wv));
                    }
                }
            },
            None => {},
        }
        i = i + 1;
    }
    proof {
        assert(lv.subrange(1, lv.len() as int) =~= lv.drop_first());
    }
    out
}

/// Lending pauses for the user first and for resources next: while the
/// user is active the state is `PausedUserActive`; on an idle machine with
/// RAM or CPU use over its limit it is `PausedResourceLow`, whatever the
/// stealth setting and the models; no lending state is ever chosen while
/// the user is active or a resource is over its limit, and with neither,
/// lending goes on in one of its three forms.
pub proof fn lemma_pause_on_activity_or_pressure(idle: bool, ram_over: bool, cpu_over: bool, stealth: bool, models_ready: bool)
    ensures
        !idle ==> next_lending_state(idle, ram_over, cpu_over, stealth, models_ready) == LendingState::PausedUserActive,
        idle && (ram_over || cpu_over) ==> next_lending_state(idle, ram_over, cpu_over, stealth, models_ready)
            == LendingState::PausedResourceLow,
        ({
            let st = next_lending_state(idle, ram_over, cpu_over, stealth, models_ready);
            (st is LendingActive || st is OllamaActive || st is StealthActive) <==> (idle && !ram_over && !cpu_over)
        }),
        idle && !ram_over && !cpu_over && stealth ==> next_lending_state(idle, ram_over, cpu_over, stealth, models_ready)
            == LendingState::StealthActive,
        idle && !ram_over && !cpu_over && !stealth && models_ready ==> next_lending_state(
            idle,
            ram_over,
            cpu_over,
            stealth,
            models_ready,
        ) == LendingState::OllamaActive,
        idle && !ram_over && !cpu_over && !stealth && !models_ready ==> next_lending_state(
            idle,
            ram_over,
            cpu_over,
            stealth,
            models_ready,
        ) == LendingState::LendingActive,
{
}

} // verus!
