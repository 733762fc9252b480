//! What the heads-up display shows: the counters, the best run, a remark
//! that fits the agent's state, and the pause and speed status.
use vstd::prelude::*;
use vstd::string::*;

use crate::agent::{speedup, AgentEvent, AgentStats};
use crate::binary32::lt;
use crate::binary32::less_than;

verus! {

/// The decimal digit `d` as a character.
pub open spec fn digit_char(d: nat) -> char {
    (48 + d) as char
}

/// `n` written in decimal, without leading zeros.
pub open spec fn decimal(n: nat) -> Seq<char>
    decreases n,
{
    if n < 10 {
        seq![digit_char(n)]
    } else {
        decimal(n / 10).push(digit_char(n % 10))
    }
}

/// The one-character text of digit `d`.
fn digit_str(d: u32) -> (s: &'static str)
    requires
        d < 10,
    ensures
        s@ == seq![digit_char(d as nat)],
{
    proof {
        reveal_strlit("0");
        reveal_strlit("1");
        reveal_strlit("2");
        reveal_strlit("3");
        reveal_strlit("4");
        reveal_strlit("5");
        reveal_strlit("6");
        reveal_strlit("7");
        reveal_strlit("8");
        reveal_strlit("9");
    }
    match d {
        0 => "0",
        1 => "1",
        2 => "2",
        3 => "3",
        4 => "4",
        5 => "5",
        6 => "6",
        7 => "7",
        8 => "8",
        _ => "9",
    }
}

/// `n` written in decimal.
pub fn decimal_text(n: u32) -> (s: String)
    ensures
        s@ == decimal(n as nat),
    decreases n,
{
    if n < 10 {
        digit_str(n).to_string()
    } else {
        let mut s = decimal_text(n / 10);
        s.append(digit_str(n % 10));
        s
    }
}


/// The best run: "—" while the goal was never reached, else the number of
/// steps followed by " passos".
pub open spec fn best_label(best_steps: u32) -> Seq<char> {
    if best_steps == u32::MAX {
        "—"@
    } else {
        decimal(best_steps as nat) + " passos"@
    }
}

/// Text of the best run, `best_steps` as `AgentStats` holds it.
pub fn best_text(best_steps: u32) -> (s: String)
    ensures
        s@ == best_label(best_steps),
{
    if best_steps == u32::MAX {
        "—".to_string()
    } else {
        let mut s = decimal_text(best_steps);
        s.append(" passos");
        s
    }
}

/// The status line: "PAUSADO" while paused, else at a speed level above
/// normal "TURBO " with the level's speed-up and "x", else nothing.
pub open spec fn status_label(paused: bool, turbo: u32) -> Seq<char> {
    if paused {
        "PAUSADO"@
    } else if 1 <= turbo <= 6 {
        "TURBO "@ + decimal(speedup(turbo) as nat) + "x"@
    } else {
        Seq::empty()
    }
}

/// Text of the status line.
pub fn status_text(paused: bool, turbo: u32) -> (s: String)
    ensures
        s@ == status_label(paused, turbo),
{
    proof {
        reveal_strlit("TURBO ");
        reveal_strlit("x");
        reveal_strlit("TURBO 8x");
        reveal_strlit("TURBO 16x");
        reveal_strlit("TURBO 32x");
        reveal_strlit("TURBO 64x");
        reveal_strlit("TURBO 1000x");
        reveal_strlit("TURBO 5000x");
        reveal_strlit("");
        reveal_with_fuel(decimal, 5);
        assert(decimal(16) =~= seq!['1', '6']);
        assert(decimal(32) =~= seq!['3', '2']);
        assert(decimal(64) =~= seq!['6', '4']);
        assert(decimal(1000) =~= seq!['1', '0', '0', '0']);
        assert(decimal(5000) =~= seq!['5', '0', '0', '0']);
        assert(decimal(8) =~= seq!['8']);
    }
    if paused {
        "PAUSADO".to_string()
    } else {
        match turbo {
            1 => "TURBO 8x".to_string(),
            2 => "TURBO 16x".to_string(),
            3 => "TURBO 32x".to_string(),
            4 => "TURBO 64x".to_string(),
            5 => "TURBO 1000x".to_string(),
            6 => "TURBO 5000x".to_string(),
            _ => String::new(),
        }
    }
}


/// Above this exploration rate (0.8) a normal step is a blunder.
pub const EPSILON_BLUNDER: u32 = 0x3F4C_CCCD;

/// Above this exploration rate (0.5) the agent is still thinking.
pub const EPSILON_THINKING: u32 = 0x3F00_0000;

/// Above this exploration rate (0.25) the agent is beginning to understand.
pub const EPSILON_LEARNING: u32 = 0x3E80_0000;

/// Above this exploration rate (0.6) a crash is an accident, below it a
/// calculated risk.
pub const EPSILON_CLUMSY: u32 = 0x3F19_999A;

/// The mood of the remark, which the display shows in its own colour.
#[derive(Clone, Copy, PartialEq, Eq, Structural, Debug)]
pub enum MessageTone {
    Success,
    Ouch,
    Calculated,
    Blunder,
    Thinking,
    Learning,
    Genius,
}

/// The remark for the last event at exploration rate `epsilon` (a binary32
/// encoding), and its tone. The rate is compared as IEEE 754 compares: a NaN
/// rate is above no threshold.
pub open spec fn remark(event: AgentEvent, epsilon: u32) -> (Seq<char>, MessageTone) {
    match event {
        AgentEvent::GoalReached => ("Cheguei la! Sucesso!"@, MessageTone::Success),
        AgentEvent::Crashed => if lt(EPSILON_CLUMSY, epsilon) {
            ("Ai, a parede!"@, MessageTone::Ouch)
        } else {
            ("Erro calculado."@, MessageTone::Calculated)
        },
        AgentEvent::Normal => if lt(EPSILON_BLUNDER, epsilon) {
            ("Que burrada!"@, MessageTone::Blunder)
        } else if lt(EPSILON_THINKING, epsilon) {
            ("Hm, to pensando..."@, MessageTone::Thinking)
        } else if lt(EPSILON_LEARNING, epsilon) {
            ("Comeco a entender..."@, MessageTone::Learning)
        } else {
            ("Sou um genio!"@, MessageTone::Genius)
        },
    }
}

/// The remark for the last event at exploration rate `epsilon`, and its tone.
pub fn hud_message(event: AgentEvent, epsilon: u32) -> (r: (String, MessageTone))
    ensures
        (r.0@, r.1) == remark(event, epsilon),
{
    match event {
        AgentEvent::GoalReached => ("Cheguei la! Sucesso!".to_string(), MessageTone::Success),
        AgentEvent::Crashed => if less_than(EPSILON_CLUMSY, epsilon) {
            ("Ai, a parede!".to_string(), MessageTone::Ouch)
        } else {
            ("Erro calculado.".to_string(), MessageTone::Calculated)
        },
        AgentEvent::Normal => if less_than(EPSILON_BLUNDER, epsilon) {
            ("Que burrada!".to_string(), MessageTone::Blunder)
        } else if less_than(EPSILON_THINKING, epsilon) {
            ("Hm, to pensando...".to_string(), MessageTone::Thinking)
        } else if less_than(EPSILON_LEARNING, epsilon) {
            ("Comeco a entender...".to_string(), MessageTone::Learning)
        } else {
            ("Sou um genio!".to_string(), MessageTone::Genius)
        },
    }
}

/// Every text of the display but the exploration rate, which is a binary32
/// number printed by the caller.
pub struct HudTexts {
    pub episode: String,
    pub steps: String,
    pub best: String,
    pub message: String,
    pub tone: MessageTone,
    pub status: String,
}

/// The display's texts for the current statistics, exploration rate
/// `epsilon` (a binary32 encoding), pause and speed level.
pub fn hud_texts(stats: &AgentStats, epsilon: u32, paused: bool, turbo: u32) -> (t: HudTexts)
    ensures
        t.episode@ == decimal(stats.episode as nat),
        t.steps@ == decimal(stats.steps as nat),
        t.best@ == best_label(stats.best_steps),
        (t.message@, t.tone) == remark(stats.last_event, epsilon),
        t.status@ == status_label(paused, turbo),
{
    let (message, tone) = hud_message(stats.last_event, epsilon);
    HudTexts {
        episode: decimal_text(stats.episode),
        steps: decimal_text(stats.steps),
        best: best_text(stats.best_steps),
        message,
        tone,
        status: status_text(paused, turbo),
    }
}

} // verus!
