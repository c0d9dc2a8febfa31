//! Shared data types for mouse configuration: button and LED codes, bindings,
//! settings and profiles, and the USB HID keycode table.
//!
//! These types form the common vocabulary between vendor-specific protocols,
//! the config file format, and the TUI.
use vstd::prelude::*;
use crate::text::{decimal_chars, str_eq};

verus! {

// --- Polling rates and debounce times ---

/// The polling rates (Hz) that the devices accept, in the order of their wire index.
pub open spec fn polling_rate_table() -> Seq<u16> {
    seq![125u16, 250u16, 500u16, 1000u16]
}

/// The debounce times (ms) that the devices accept, in the order of their wire index.
pub open spec fn debounce_table() -> Seq<u8> {
    seq![4u8, 8u8, 12u8, 16u8, 20u8, 24u8, 28u8, 32u8]
}

/// The accepted polling rates.
pub fn polling_rates() -> (r: [u16; 4])
    ensures
        r@ == polling_rate_table(),
{
    let r = [125u16, 250, 500, 1000];
    assert(r@ =~= polling_rate_table());
    r
}

/// The accepted debounce times.
pub fn debounce_times() -> (r: [u8; 8])
    ensures
        r@ == debounce_table(),
{
    let r = [4u8, 8, 12, 16, 20, 24, 28, 32];
    assert(r@ =~= debounce_table());
    r
}

/// Position of the first occurrence of `x` in `s`, if any.
pub open spec fn first_index_of<T>(s: Seq<T>, x: T) -> Option<int>
    decreases s.len(),
{
    if s.len() == 0 {
        None
    } else if s[0] == x {
        Some(0)
    } else {
        match first_index_of(s.drop_first(), x) {
            Some(i) => Some(i + 1),
            None => None,
        }
    }
}

/// Facts about `first_index_of`: it finds a matching position, and only the first.
pub proof fn lemma_first_index_of<T>(s: Seq<T>, x: T)
    ensures
        first_index_of(s, x) matches Some(i) ==> 0 <= i < s.len() && s[i] == x
            && forall|j: int| 0 <= j < i ==> s[j] != x,
        first_index_of(s, x) is None <==> !s.contains(x),
    decreases s.len(),
{
    if s.len() > 0 {
        lemma_first_index_of(s.drop_first(), x);
        if s[0] != x {
            if first_index_of(s.drop_first(), x) is None {
                assert forall|j: int| 0 <= j < s.len() implies s[j] != x by {
                    if j > 0 {
                        assert(s[j] == s.drop_first()[j - 1]);
                    }
                }
            } else {
                let i = first_index_of(s.drop_first(), x)->0;
                assert forall|j: int| 0 <= j < i + 1 implies s[j] != x by {
                    if j > 0 {
                        assert(s[j] == s.drop_first()[j - 1]);
                    }
                }
                assert(s[i + 1] == s.drop_first()[i]);
            }
        }
    }
}

/// Index of `hz` among the accepted polling rates.
pub fn polling_rate_index(hz: u16) -> (r: Option<usize>)
    ensures
        match r {
            Some(i) => first_index_of(polling_rate_table(), hz) == Some(i as int),
            None => first_index_of(polling_rate_table(), hz) is None,
        },
{
    reveal_with_fuel(first_index_of, 5);
    if hz == 125 { Some(0) }
    else if hz == 250 { Some(1) }
    else if hz == 500 { Some(2) }
    else if hz == 1000 { Some(3) }
    else { None }
}

/// Index of `ms` among the accepted debounce times.
pub fn debounce_index(ms: u8) -> (r: Option<usize>)
    ensures
        match r {
            Some(i) => first_index_of(debounce_table(), ms) == Some(i as int),
            None => first_index_of(debounce_table(), ms) is None,
        },
{
    reveal_with_fuel(first_index_of, 9);
    if ms == 4 { Some(0) }
    else if ms == 8 { Some(1) }
    else if ms == 12 { Some(2) }
    else if ms == 16 { Some(3) }
    else if ms == 20 { Some(4) }
    else if ms == 24 { Some(5) }
    else if ms == 28 { Some(6) }
    else if ms == 32 { Some(7) }
    else { None }
}

// --- Button codes ---

/// Physical button identifiers used across protocols.
#[derive(Debug, Clone, Copy, PartialEq, Eq, Structural)]
pub enum ButtonCode {
    LeftClick,
    RightClick,
    MiddleClick,
    Back,
    Forward,
    DpiCycle,
    DpiTarget,
    ScrollUp,
    ScrollDown,
    SideA,
    SideB,
    SideC,
    SideD,
    SideE,
    SideF,
    SideG,
    SideH,
    SideI,
    SideJ,
    SideK,
    SideL,
    Disabled,
}

/// The wire byte of a button code.
pub open spec fn button_code_byte(c: ButtonCode) -> u8 {
    match c {
        ButtonCode::LeftClick => 0xF0u8,
        ButtonCode::RightClick => 0xF1u8,
        ButtonCode::MiddleClick => 0xF2u8,
        ButtonCode::Back => 0xE4u8,
        ButtonCode::Forward => 0xE5u8,
        ButtonCode::DpiCycle => 0xE6u8,
        ButtonCode::DpiTarget => 0xE7u8,
        ButtonCode::ScrollUp => 0xE8u8,
        ButtonCode::ScrollDown => 0xE9u8,
        ButtonCode::SideA => 0xEAu8,
        ButtonCode::SideB => 0xEBu8,
        ButtonCode::SideC => 0xECu8,
        ButtonCode::SideD => 0xEDu8,
        ButtonCode::SideE => 0xEEu8,
        ButtonCode::SideF => 0xEFu8,
        ButtonCode::SideG => 0xDAu8,
        ButtonCode::SideH => 0xDBu8,
        ButtonCode::SideI => 0xDCu8,
        ButtonCode::SideJ => 0xDDu8,
        ButtonCode::SideK => 0xDEu8,
        ButtonCode::SideL => 0xDFu8,
        ButtonCode::Disabled => 0xFFu8,
    }
}

/// The button code carried by a wire byte, if any.
pub open spec fn button_code_from_byte(v: u8) -> Option<ButtonCode> {
    if v == 0xF0u8 { Some(ButtonCode::LeftClick) }
    else if v == 0xF1u8 { Some(ButtonCode::RightClick) }
    else if v == 0xF2u8 { Some(ButtonCode::MiddleClick) }
    else if v == 0xE4u8 { Some(ButtonCode::Back) }
    else if v == 0xE5u8 { Some(ButtonCode::Forward) }
    else if v == 0xE6u8 { Some(ButtonCode::DpiCycle) }
    else if v == 0xE7u8 { Some(ButtonCode::DpiTarget) }
    else if v == 0xE8u8 { Some(ButtonCode::ScrollUp) }
    else if v == 0xE9u8 { Some(ButtonCode::ScrollDown) }
    else if v == 0xEAu8 { Some(ButtonCode::SideA) }
    else if v == 0xEBu8 { Some(ButtonCode::SideB) }
    else if v == 0xECu8 { Some(ButtonCode::SideC) }
    else if v == 0xEDu8 { Some(ButtonCode::SideD) }
    else if v == 0xEEu8 { Some(ButtonCode::SideE) }
    else if v == 0xEFu8 { Some(ButtonCode::SideF) }
    else if v == 0xDAu8 { Some(ButtonCode::SideG) }
    else if v == 0xDBu8 { Some(ButtonCode::SideH) }
    else if v == 0xDCu8 { Some(ButtonCode::SideI) }
    else if v == 0xDDu8 { Some(ButtonCode::SideJ) }
    else if v == 0xDEu8 { Some(ButtonCode::SideK) }
    else if v == 0xDFu8 { Some(ButtonCode::SideL) }
    else if v == 0xFFu8 { Some(ButtonCode::Disabled) }
    else { None }
}

/// The config-file name of a button code.
pub open spec fn button_code_name(c: ButtonCode) -> Seq<char> {
    match c {
        ButtonCode::LeftClick => "left_click"@,
        ButtonCode::RightClick => "right_click"@,
        ButtonCode::MiddleClick => "middle_click"@,
        ButtonCode::Back => "back"@,
        ButtonCode::Forward => "forward"@,
        ButtonCode::DpiCycle => "dpi_cycle"@,
        ButtonCode::DpiTarget => "dpi_target"@,
        ButtonCode::ScrollUp => "scroll_up"@,
        ButtonCode::ScrollDown => "scroll_down"@,
        ButtonCode::SideA => "side_a"@,
        ButtonCode::SideB => "side_b"@,
        ButtonCode::SideC => "side_c"@,
        ButtonCode::SideD => "side_d"@,
        ButtonCode::SideE => "side_e"@,
        ButtonCode::SideF => "side_f"@,
        ButtonCode::SideG => "side_g"@,
        ButtonCode::SideH => "side_h"@,
        ButtonCode::SideI => "side_i"@,
        ButtonCode::SideJ => "side_j"@,
        ButtonCode::SideK => "side_k"@,
        ButtonCode::SideL => "side_l"@,
        ButtonCode::Disabled => "disabled"@,
    }
}

/// The button code that a config-file name stands for, if any.
pub open spec fn button_code_from_name(s: Seq<char>) -> Option<ButtonCode> {
    if s == "left_click"@ { Some(ButtonCode::LeftClick) }
    else if s == "right_click"@ { Some(ButtonCode::RightClick) }
    else if s == "middle_click"@ { Some(ButtonCode::MiddleClick) }
    else if s == "back"@ { Some(ButtonCode::Back) }
    else if s == "forward"@ { Some(ButtonCode::Forward) }
    else if s == "dpi_cycle"@ { Some(ButtonCode::DpiCycle) }
    else if s == "dpi_target"@ { Some(ButtonCode::DpiTarget) }
    else if s == "scroll_up"@ { Some(ButtonCode::ScrollUp) }
    else if s == "scroll_down"@ { Some(ButtonCode::ScrollDown) }
    else if s == "side_a"@ { Some(ButtonCode::SideA) }
    else if s == "side_b"@ { Some(ButtonCode::SideB) }
    else if s == "side_c"@ { Some(ButtonCode::SideC) }
    else if s == "side_d"@ { Some(ButtonCode::SideD) }
    else if s == "side_e"@ { Some(ButtonCode::SideE) }
    else if s == "side_f"@ { Some(ButtonCode::SideF) }
    else if s == "side_g"@ { Some(ButtonCode::SideG) }
    else if s == "side_h"@ { Some(ButtonCode::SideH) }
    else if s == "side_i"@ { Some(ButtonCode::SideI) }
    else if s == "side_j"@ { Some(ButtonCode::SideJ) }
    else if s == "side_k"@ { Some(ButtonCode::SideK) }
    else if s == "side_l"@ { Some(ButtonCode::SideL) }
    else if s == "disabled"@ { Some(ButtonCode::Disabled) }
    else { None }
}

impl ButtonCode {
    /// The wire byte of this button code.
    pub fn to_u8(self) -> (r: u8)
        ensures
            r == button_code_byte(self),
    {
        match self {
            ButtonCode::LeftClick => 0xF0,
            ButtonCode::RightClick => 0xF1,
            ButtonCode::MiddleClick => 0xF2,
            ButtonCode::Back => 0xE4,
            ButtonCode::Forward => 0xE5,
            ButtonCode::DpiCycle => 0xE6,
            ButtonCode::DpiTarget => 0xE7,
            ButtonCode::ScrollUp => 0xE8,
            ButtonCode::ScrollDown => 0xE9,
            ButtonCode::SideA => 0xEA,
            ButtonCode::SideB => 0xEB,
            ButtonCode::SideC => 0xEC,
            ButtonCode::SideD => 0xED,
            ButtonCode::SideE => 0xEE,
            ButtonCode::SideF => 0xEF,
            ButtonCode::SideG => 0xDA,
            ButtonCode::SideH => 0xDB,
            ButtonCode::SideI => 0xDC,
            ButtonCode::SideJ => 0xDD,
            ButtonCode::SideK => 0xDE,
            ButtonCode::SideL => 0xDF,
            ButtonCode::Disabled => 0xFF,
        }
    }

    pub fn from_u8(v: u8) -> (r: Option<ButtonCode>)
        ensures
            r == button_code_from_byte(v),
    {
        match v {
            0xF0 => Some(ButtonCode::LeftClick),
            0xF1 => Some(ButtonCode::RightClick),
            0xF2 => Some(ButtonCode::MiddleClick),
            0xE4 => Some(ButtonCode::Back),
            0xE5 => Some(ButtonCode::Forward),
            0xE6 => Some(ButtonCode::DpiCycle),
            0xE7 => Some(ButtonCode::DpiTarget),
            0xE8 => Some(ButtonCode::ScrollUp),
            0xE9 => Some(ButtonCode::ScrollDown),
            0xEA => Some(ButtonCode::SideA),
            0xEB => Some(ButtonCode::SideB),
            0xEC => Some(ButtonCode::SideC),
            0xED => Some(ButtonCode::SideD),
            0xEE => Some(ButtonCode::SideE),
            0xEF => Some(ButtonCode::SideF),
            0xDA => Some(ButtonCode::SideG),
            0xDB => Some(ButtonCode::SideH),
            0xDC => Some(ButtonCode::SideI),
            0xDD => Some(ButtonCode::SideJ),
            0xDE => Some(ButtonCode::SideK),
            0xDF => Some(ButtonCode::SideL),
            0xFF => Some(ButtonCode::Disabled),
            _ => None,
        }
    }

    pub fn name(&self) -> (r: &'static str)
        ensures
            r@ == button_code_name(*self),
    {
        match self {
            ButtonCode::LeftClick => "left_click",
            ButtonCode::RightClick => "right_click",
            ButtonCode::MiddleClick => "middle_click",
            ButtonCode::Back => "back",
            ButtonCode::Forward => "forward",
            ButtonCode::DpiCycle => "dpi_cycle",
            ButtonCode::DpiTarget => "dpi_target",
            ButtonCode::ScrollUp => "scroll_up",
            ButtonCode::ScrollDown => "scroll_down",
            ButtonCode::SideA => "side_a",
            ButtonCode::SideB => "side_b",
            ButtonCode::SideC => "side_c",
            ButtonCode::SideD => "side_d",
            ButtonCode::SideE => "side_e",
            ButtonCode::SideF => "side_f",
            ButtonCode::SideG => "side_g",
            ButtonCode::SideH => "side_h",
            ButtonCode::SideI => "side_i",
            ButtonCode::SideJ => "side_j",
            ButtonCode::SideK => "side_k",
            ButtonCode::SideL => "side_l",
            ButtonCode::Disabled => "disabled",
        }
    }

    pub fn from_name(name: &str) -> (r: Option<ButtonCode>)
        ensures
            r == button_code_from_name(name@),
    {
        if str_eq(name, "left_click") {
            Some(ButtonCode::LeftClick)
        } else if str_eq(name, "right_click") {
            Some(ButtonCode::RightClick)
        } else if str_eq(name, "middle_click") {
            Some(ButtonCode::MiddleClick)
        } else if str_eq(name, "back") {
            Some(ButtonCode::Back)
        } else if str_eq(name, "forward") {
            Some(ButtonCode::Forward)
        } else if str_eq(name, "dpi_cycle") {
            Some(ButtonCode::DpiCycle)
        } else if str_eq(name, "dpi_target") {
            Some(ButtonCode::DpiTarget)
        } else if str_eq(name, "scroll_up") {
            Some(ButtonCode::ScrollUp)
        } else if str_eq(name, "scroll_down") {
            Some(ButtonCode::ScrollDown)
        } else if str_eq(name, "side_a") {
            Some(ButtonCode::SideA)
        } else if str_eq(name, "side_b") {
            Some(ButtonCode::SideB)
        } else if str_eq(name, "side_c") {
            Some(ButtonCode::SideC)
        } else if str_eq(name, "side_d") {
            Some(ButtonCode::SideD)
        } else if str_eq(name, "side_e") {
            Some(ButtonCode::SideE)
        } else if str_eq(name, "side_f") {
            Some(ButtonCode::SideF)
        } else if str_eq(name, "side_g") {
            Some(ButtonCode::SideG)
        } else if str_eq(name, "side_h") {
            Some(ButtonCode::SideH)
        } else if str_eq(name, "side_i") {
            Some(ButtonCode::SideI)
        } else if str_eq(name, "side_j") {
            Some(ButtonCode::SideJ)
        } else if str_eq(name, "side_k") {
            Some(ButtonCode::SideK)
        } else if str_eq(name, "side_l") {
            Some(ButtonCode::SideL)
        } else if str_eq(name, "disabled") {
            Some(ButtonCode::Disabled)
        } else {
            None
        }
    }
}

/// The wire byte of a button code decodes back to that code, and a decoded code
/// encodes back to the byte it came from.
pub proof fn lemma_button_code_byte_roundtrip(c: ButtonCode, v: u8)
    ensures
        button_code_from_byte(button_code_byte(c)) == Some(c),
        button_code_from_byte(v) == Some(c) ==> button_code_byte(c) == v,
{
}

/// The config-file name of a button code reads back as that code, and a name that
/// reads as a code is that code's name.
pub proof fn lemma_button_code_name_roundtrip(c: ButtonCode, s: Seq<char>)
    ensures
        button_code_from_name(button_code_name(c)) == Some(c),
        button_code_from_name(s) == Some(c) ==> button_code_name(c) == s,
{

    reveal_strlit("left_click");
    assert("left_click"@.len() == 10 && "left_click"@[0] == 'l' && "left_click"@[1] == 'e' && "left_click"@[2] == 'f' && "left_click"@[3] == 't' && "left_click"@[4] == '_' && "left_click"@[5] == 'c' && "left_click"@[6] == 'l' && "left_click"@[7] == 'i' && "left_click"@[8] == 'c' && "left_click"@[9] == 'k');
    reveal_strlit("right_click");
    assert("right_click"@.len() == 11 && "right_click"@[0] == 'r' && "right_click"@[1] == 'i' && "right_click"@[2] == 'g' && "right_click"@[3] == 'h' && "right_click"@[4] == 't' && "right_click"@[5] == '_' && "right_click"@[6] == 'c' && "right_click"@[7] == 'l' && "right_click"@[8] == 'i' && "right_click"@[9] == 'c' && "right_click"@[10] == 'k');
    reveal_strlit("middle_click");
    assert("middle_click"@.len() == 12 && "middle_click"@[0] == 'm' && "middle_click"@[1] == 'i' && "middle_click"@[2] == 'd' && "middle_click"@[3] == 'd' && "middle_click"@[4] == 'l' && "middle_click"@[5] == 'e' && "middle_click"@[6] == '_' && "middle_click"@[7] == 'c' && "middle_click"@[8] == 'l' && "middle_click"@[9] == 'i' && "middle_click"@[10] == 'c' && "middle_click"@[11] == 'k');
    reveal_strlit("back");
    assert("back"@.len() == 4 && "back"@[0] == 'b' && "back"@[1] == 'a' && "back"@[2] == 'c' && "back"@[3] == 'k');
    reveal_strlit("forward");
    assert("forward"@.len() == 7 && "forward"@[0] == 'f' && "forward"@[1] == 'o' && "forward"@[2] == 'r' && "forward"@[3] == 'w' && "forward"@[4] == 'a' && "forward"@[5] == 'r' && "forward"@[6] == 'd');
    reveal_strlit("dpi_cycle");
    assert("dpi_cycle"@.len() == 9 && "dpi_cycle"@[0] == 'd' && "dpi_cycle"@[1] == 'p' && "dpi_cycle"@[2] == 'i' && "dpi_cycle"@[3] == '_' && "dpi_cycle"@[4] == 'c' && "dpi_cycle"@[5] == 'y' && "dpi_cycle"@[6] == 'c' && "dpi_cycle"@[7] == 'l' && "dpi_cycle"@[8] == 'e');
    reveal_strlit("dpi_target");
    assert("dpi_target"@.len() == 10 && "dpi_target"@[0] == 'd' && "dpi_target"@[1] == 'p' && "dpi_target"@[2] == 'i' && "dpi_target"@[3] == '_' && "dpi_target"@[4] == 't' && "dpi_target"@[5] == 'a' && "dpi_target"@[6] == 'r' && "dpi_target"@[7] == 'g' && "dpi_target"@[8] == 'e' && "dpi_target"@[9] == 't');
    reveal_strlit("scroll_up");
    assert("scroll_up"@.len() == 9 && "scroll_up"@[0] == 's' && "scroll_up"@[1] == 'c' && "scroll_up"@[2] == 'r' && "scroll_up"@[3] == 'o' && "scroll_up"@[4] == 'l' && "scroll_up"@[5] == 'l' && "scroll_up"@[6] == '_' && "scroll_up"@[7] == 'u' && "scroll_up"@[8] == 'p');
    reveal_strlit("scroll_down");
    assert("scroll_down"@.len() == 11 && "scroll_down"@[0] == 's' && "scroll_down"@[1] == 'c' && "scroll_down"@[2] == 'r' && "scroll_down"@[3] == 'o' && "scroll_down"@[4] == 'l' && "scroll_down"@[5] == 'l' && "scroll_down"@[6] == '_' && "scroll_down"@[7] == 'd' && "scroll_down"@[8] == 'o' && "scroll_down"@[9] == 'w' && "scroll_down"@[10] == 'n');
    reveal_strlit("side_a");
    assert("side_a"@.len() == 6 && "side_a"@[0] == 's' && "side_a"@[1] == 'i' && "side_a"@[2] == 'd' && "side_a"@[3] == 'e' && "side_a"@[4] == '_' && "side_a"@[5] == 'a');
    reveal_strlit("side_b");
    assert("side_b"@.len() == 6 && "side_b"@[0] == 's' && "side_b"@[1] == 'i' && "side_b"@[2] == 'd' && "side_b"@[3] == 'e' && "side_b"@[4] == '_' && "side_b"@[5] == 'b');
    reveal_strlit("side_c");
    assert("side_c"@.len() == 6 && "side_c"@[0] == 's' && "side_c"@[1] == 'i' && "side_c"@[2] == 'd' && "side_c"@[3] == 'e' && "side_c"@[4] == '_' && "side_c"@[5] == 'c');
    reveal_strlit("side_d");
    assert("side_d"@.len() == 6 && "side_d"@[0] == 's' && "side_d"@[1] == 'i' && "side_d"@[2] == 'd' && "side_d"@[3] == 'e' && "side_d"@[4] == '_' && "side_d"@[5] == 'd');
    reveal_strlit("side_e");
    assert("side_e"@.len() == 6 && "side_e"@[0] == 's' && "side_e"@[1] == 'i' && "side_e"@[2] == 'd' && "side_e"@[3] == 'e' && "side_e"@[4] == '_' && "side_e"@[5] == 'e');
    reveal_strlit("side_f");
    assert("side_f"@.len() == 6 && "side_f"@[0] == 's' && "side_f"@[1] == 'i' && "side_f"@[2] == 'd' && "side_f"@[3] == 'e' && "side_f"@[4] == '_' && "side_f"@[5] == 'f');
    reveal_strlit("side_g");
    assert("side_g"@.len() == 6 && "side_g"@[0] == 's' && "side_g"@[1] == 'i' && "side_g"@[2] == 'd' && "side_g"@[3] == 'e' && "side_g"@[4] == '_' && "side_g"@[5] == 'g');
    reveal_strlit("side_h");
    assert("side_h"@.len() == 6 && "side_h"@[0] == 's' && "side_h"@[1] == 'i' && "side_h"@[2] == 'd' && "side_h"@[3] == 'e' && "side_h"@[4] == '_' && "side_h"@[5] == 'h');
    reveal_strlit("side_i");
    assert("side_i"@.len() == 6 && "side_i"@[0] == 's' && "side_i"@[1] == 'i' && "side_i"@[2] == 'd' && "side_i"@[3] == 'e' && "side_i"@[4] == '_' && "side_i"@[5] == 'i');
    reveal_strlit("side_j");
    assert("side_j"@.len() == 6 && "side_j"@[0] == 's' && "side_j"@[1] == 'i' && "side_j"@[2] == 'd' && "side_j"@[3] == 'e' && "side_j"@[4] == '_' && "side_j"@[5] == 'j');
    reveal_strlit("side_k");
    assert("side_k"@.len() == 6 && "side_k"@[0] == 's' && "side_k"@[1] == 'i' && "side_k"@[2] == 'd' && "side_k"@[3] == 'e' && "side_k"@[4] == '_' && "side_k"@[5] == 'k');
    reveal_strlit("side_l");
    assert("side_l"@.len() == 6 && "side_l"@[0] == 's' && "side_l"@[1] == 'i' && "side_l"@[2] == 'd' && "side_l"@[3] == 'e' && "side_l"@[4] == '_' && "side_l"@[5] == 'l');
    reveal_strlit("disabled");
    assert("disabled"@.len() == 8 && "disabled"@[0] == 'd' && "disabled"@[1] == 'i' && "disabled"@[2] == 's' && "disabled"@[3] == 'a' && "disabled"@[4] == 'b' && "disabled"@[5] == 'l' && "disabled"@[6] == 'e' && "disabled"@[7] == 'd');
}

/// No button name starts with the letter `k`.
pub proof fn lemma_button_code_name_first_char(c: ButtonCode)
    ensures
        button_code_name(c).len() > 0,
        button_code_name(c)[0] != 'k',
{

    reveal_strlit("left_click");
    assert("left_click"@.len() == 10 && "left_click"@[0] == 'l' && "left_click"@[1] == 'e' && "left_click"@[2] == 'f' && "left_click"@[3] == 't' && "left_click"@[4] == '_' && "left_click"@[5] == 'c' && "left_click"@[6] == 'l' && "left_click"@[7] == 'i' && "left_click"@[8] == 'c' && "left_click"@[9] == 'k');
    reveal_strlit("right_click");
    assert("right_click"@.len() == 11 && "right_click"@[0] == 'r' && "right_click"@[1] == 'i' && "right_click"@[2] == 'g' && "right_click"@[3] == 'h' && "right_click"@[4] == 't' && "right_click"@[5] == '_' && "right_click"@[6] == 'c' && "right_click"@[7] == 'l' && "right_click"@[8] == 'i' && "right_click"@[9] == 'c' && "right_click"@[10] == 'k');
    reveal_strlit("middle_click");
    assert("middle_click"@.len() == 12 && "middle_click"@[0] == 'm' && "middle_click"@[1] == 'i' && "middle_click"@[2] == 'd' && "middle_click"@[3] == 'd' && "middle_click"@[4] == 'l' && "middle_click"@[5] == 'e' && "middle_click"@[6] == '_' && "middle_click"@[7] == 'c' && "middle_click"@[8] == 'l' && "middle_click"@[9] == 'i' && "middle_click"@[10] == 'c' && "middle_click"@[11] == 'k');
    reveal_strlit("back");
    assert("back"@.len() == 4 && "back"@[0] == 'b' && "back"@[1] == 'a' && "back"@[2] == 'c' && "back"@[3] == 'k');
    reveal_strlit("forward");
    assert("forward"@.len() == 7 && "forward"@[0] == 'f' && "forward"@[1] == 'o' && "forward"@[2] == 'r' && "forward"@[3] == 'w' && "forward"@[4] == 'a' && "forward"@[5] == 'r' && "forward"@[6] == 'd');
    reveal_strlit("dpi_cycle");
    assert("dpi_cycle"@.len() == 9 && "dpi_cycle"@[0] == 'd' && "dpi_cycle"@[1] == 'p' && "dpi_cycle"@[2] == 'i' && "dpi_cycle"@[3] == '_' && "dpi_cycle"@[4] == 'c' && "dpi_cycle"@[5] == 'y' && "dpi_cycle"@[6] == 'c' && "dpi_cycle"@[7] == 'l' && "dpi_cycle"@[8] == 'e');
    reveal_strlit("dpi_target");
    assert("dpi_target"@.len() == 10 && "dpi_target"@[0] == 'd' && "dpi_target"@[1] == 'p' && "dpi_target"@[2] == 'i' && "dpi_target"@[3] == '_' && "dpi_target"@[4] == 't' && "dpi_target"@[5] == 'a' && "dpi_target"@[6] == 'r' && "dpi_target"@[7] == 'g' && "dpi_target"@[8] == 'e' && "dpi_target"@[9] == 't');
    reveal_strlit("scroll_up");
    assert("scroll_up"@.len() == 9 && "scroll_up"@[0] == 's' && "scroll_up"@[1] == 'c' && "scroll_up"@[2] == 'r' && "scroll_up"@[3] == 'o' && "scroll_up"@[4] == 'l' && "scroll_up"@[5] == 'l' && "scroll_up"@[6] == '_' && "scroll_up"@[7] == 'u' && "scroll_up"@[8] == 'p');
    reveal_strlit("scroll_down");
    assert("scroll_down"@.len() == 11 && "scroll_down"@[0] == 's' && "scroll_down"@[1] == 'c' && "scroll_down"@[2] == 'r' && "scroll_down"@[3] == 'o' && "scroll_down"@[4] == 'l' && "scroll_down"@[5] == 'l' && "scroll_down"@[6] == '_' && "scroll_down"@[7] == 'd' && "scroll_down"@[8] == 'o' && "scroll_down"@[9] == 'w' && "scroll_down"@[10] == 'n');
    reveal_strlit("side_a");
    assert("side_a"@.len() == 6 && "side_a"@[0] == 's' && "side_a"@[1] == 'i' && "side_a"@[2] == 'd' && "side_a"@[3] == 'e' && "side_a"@[4] == '_' && "side_a"@[5] == 'a');
    reveal_strlit("side_b");
    assert("side_b"@.len() == 6 && "side_b"@[0] == 's' && "side_b"@[1] == 'i' && "side_b"@[2] == 'd' && "side_b"@[3] == 'e' && "side_b"@[4] == '_' && "side_b"@[5] == 'b');
    reveal_strlit("side_c");
    assert("side_c"@.len() == 6 && "side_c"@[0] == 's' && "side_c"@[1] == 'i' && "side_c"@[2] == 'd' && "side_c"@[3] == 'e' && "side_c"@[4] == '_' && "side_c"@[5] == 'c');
    reveal_strlit("side_d");
    assert("side_d"@.len() == 6 && "side_d"@[0] == 's' && "side_d"@[1] == 'i' && "side_d"@[2] == 'd' && "side_d"@[3] == 'e' && "side_d"@[4] == '_' && "side_d"@[5] == 'd');
    reveal_strlit("side_e");
    assert("side_e"@.len() == 6 && "side_e"@[0] == 's' && "side_e"@[1] == 'i' && "side_e"@[2] == 'd' && "side_e"@[3] == 'e' && "side_e"@[4] == '_' && "side_e"@[5] == 'e');
    reveal_strlit("side_f");
    assert("side_f"@.len() == 6 && "side_f"@[0] == 's' && "side_f"@[1] == 'i' && "side_f"@[2] == 'd' && "side_f"@[3] == 'e' && "side_f"@[4] == '_' && "side_f"@[5] == 'f');
    reveal_strlit("side_g");
    assert("side_g"@.len() == 6 && "side_g"@[0] == 's' && "side_g"@[1] == 'i' && "side_g"@[2] == 'd' && "side_g"@[3] == 'e' && "side_g"@[4] == '_' && "side_g"@[5] == 'g');
    reveal_strlit("side_h");
    assert("side_h"@.len() == 6 && "side_h"@[0] == 's' && "side_h"@[1] == 'i' && "side_h"@[2] == 'd' && "side_h"@[3] == 'e' && "side_h"@[4] == '_' && "side_h"@[5] == 'h');
    reveal_strlit("side_i");
    assert("side_i"@.len() == 6 && "side_i"@[0] == 's' && "side_i"@[1] == 'i' && "side_i"@[2] == 'd' && "side_i"@[3] == 'e' && "side_i"@[4] == '_' && "side_i"@[5] == 'i');
    reveal_strlit("side_j");
    assert("side_j"@.len() == 6 && "side_j"@[0] == 's' && "side_j"@[1] == 'i' && "side_j"@[2] == 'd' && "side_j"@[3] == 'e' && "side_j"@[4] == '_' && "side_j"@[5] == 'j');
    reveal_strlit("side_k");
    assert("side_k"@.len() == 6 && "side_k"@[0] == 's' && "side_k"@[1] == 'i' && "side_k"@[2] == 'd' && "side_k"@[3] == 'e' && "side_k"@[4] == '_' && "side_k"@[5] == 'k');
    reveal_strlit("side_l");
    assert("side_l"@.len() == 6 && "side_l"@[0] == 's' && "side_l"@[1] == 'i' && "side_l"@[2] == 'd' && "side_l"@[3] == 'e' && "side_l"@[4] == '_' && "side_l"@[5] == 'l');
    reveal_strlit("disabled");
    assert("disabled"@.len() == 8 && "disabled"@[0] == 'd' && "disabled"@[1] == 'i' && "disabled"@[2] == 's' && "disabled"@[3] == 'a' && "disabled"@[4] == 'b' && "disabled"@[5] == 'l' && "disabled"@[6] == 'e' && "disabled"@[7] == 'd');
}

// --- LED modes ---

#[derive(Debug, Clone, Copy, PartialEq, Eq, Structural)]
pub enum LedMode {
    Static,
    Breathing,
    Cycle,
    Rainbow,
    Reactive,
    Custom,
    Battery,
}

/// The wire byte of an LED mode.
pub open spec fn led_mode_byte(m: LedMode) -> u8 {
    match m {
        LedMode::Static => 0u8,
        LedMode::Breathing => 1u8,
        LedMode::Cycle => 2u8,
        LedMode::Rainbow => 3u8,
        LedMode::Reactive => 4u8,
        LedMode::Custom => 5u8,
        LedMode::Battery => 6u8,
    }
}

/// The LED mode carried by a wire byte, if any.
pub open spec fn led_mode_from_byte(v: u8) -> Option<LedMode> {
    if v == 0u8 { Some(LedMode::Static) }
    else if v == 1u8 { Some(LedMode::Breathing) }
    else if v == 2u8 { Some(LedMode::Cycle) }
    else if v == 3u8 { Some(LedMode::Rainbow) }
    else if v == 4u8 { Some(LedMode::Reactive) }
    else if v == 5u8 { Some(LedMode::Custom) }
    else if v == 6u8 { Some(LedMode::Battery) }
    else { None }
}

/// The config-file name of an LED mode.
pub open spec fn led_mode_name(m: LedMode) -> Seq<char> {
    match m {
        LedMode::Static => "static"@,
        LedMode::Breathing => "breathing"@,
        LedMode::Cycle => "cycle"@,
        LedMode::Rainbow => "rainbow"@,
        LedMode::Reactive => "reactive"@,
        LedMode::Custom => "custom"@,
        LedMode::Battery => "battery"@,
    }
}

/// The LED mode that a config-file name stands for, if any.
pub open spec fn led_mode_from_name(s: Seq<char>) -> Option<LedMode> {
    if s == "static"@ { Some(LedMode::Static) }
    else if s == "breathing"@ { Some(LedMode::Breathing) }
    else if s == "cycle"@ { Some(LedMode::Cycle) }
    else if s == "rainbow"@ { Some(LedMode::Rainbow) }
    else if s == "reactive"@ { Some(LedMode::Reactive) }
    else if s == "custom"@ { Some(LedMode::Custom) }
    else if s == "battery"@ { Some(LedMode::Battery) }
    else { None }
}

impl LedMode {
    /// The wire byte of this LED mode.
    pub fn to_u8(self) -> (r: u8)
        ensures
            r == led_mode_byte(self),
    {
        match self {
            LedMode::Static => 0,
            LedMode::Breathing => 1,
            LedMode::Cycle => 2,
            LedMode::Rainbow => 3,
            LedMode::Reactive => 4,
            LedMode::Custom => 5,
            LedMode::Battery => 6,
        }
    }

    pub fn from_u8(v: u8) -> (r: Option<LedMode>)
        ensures
            r == led_mode_from_byte(v),
    {
        match v {
            0 => Some(LedMode::Static),
            1 => Some(LedMode::Breathing),
            2 => Some(LedMode::Cycle),
            3 => Some(LedMode::Rainbow),
            4 => Some(LedMode::Reactive),
            5 => Some(LedMode::Custom),
            6 => Some(LedMode::Battery),
            _ => None,
        }
    }

    pub fn name(&self) -> (r: &'static str)
        ensures
            r@ == led_mode_name(*self),
    {
        match self {
            LedMode::Static => "static",
            LedMode::Breathing => "breathing",
            LedMode::Cycle => "cycle",
            LedMode::Rainbow => "rainbow",
            LedMode::Reactive => "reactive",
            LedMode::Custom => "custom",
            LedMode::Battery => "battery",
        }
    }

    pub fn from_name(name: &str) -> (r: Option<LedMode>)
        ensures
            r == led_mode_from_name(name@),
    {
        if str_eq(name, "static") {
            Some(LedMode::Static)
        } else if str_eq(name, "breathing") {
            Some(LedMode::Breathing)
        } else if str_eq(name, "cycle") {
            Some(LedMode::Cycle)
        } else if str_eq(name, "rainbow") {
            Some(LedMode::Rainbow)
        } else if str_eq(name, "reactive") {
            Some(LedMode::Reactive)
        } else if str_eq(name, "custom") {
            Some(LedMode::Custom)
        } else if str_eq(name, "battery") {
            Some(LedMode::Battery)
        } else {
            None
        }
    }
}

/// LED mode bytes: exactly 0 through 6 decode, and each mode's byte decodes back to it.
pub proof fn lemma_led_mode_byte_roundtrip(m: LedMode, v: u8)
    ensures
        led_mode_from_byte(led_mode_byte(m)) == Some(m),
        led_mode_from_byte(v) is Some <==> v <= 6,
        led_mode_from_byte(v) == Some(m) ==> led_mode_byte(m) == v,
{
}

/// The config-file name of an LED mode reads back as that mode, and a name that
/// reads as a mode is that mode's name.
pub proof fn lemma_led_mode_name_roundtrip(m: LedMode, s: Seq<char>)
    ensures
        led_mode_from_name(led_mode_name(m)) == Some(m),
        led_mode_from_name(s) == Some(m) ==> led_mode_name(m) == s,
{

    reveal_strlit("static");
    assert("static"@.len() == 6 && "static"@[0] == 's' && "static"@[1] == 't' && "static"@[2] == 'a' && "static"@[3] == 't' && "static"@[4] == 'i' && "static"@[5] == 'c');
    reveal_strlit("breathing");
    assert("breathing"@.len() == 9 && "breathing"@[0] == 'b' && "breathing"@[1] == 'r' && "breathing"@[2] == 'e' && "breathing"@[3] == 'a' && "breathing"@[4] == 't' && "breathing"@[5] == 'h' && "breathing"@[6] == 'i' && "breathing"@[7] == 'n' && "breathing"@[8] == 'g');
    reveal_strlit("cycle");
    assert("cycle"@.len() == 5 && "cycle"@[0] == 'c' && "cycle"@[1] == 'y' && "cycle"@[2] == 'c' && "cycle"@[3] == 'l' && "cycle"@[4] == 'e');
    reveal_strlit("rainbow");
    assert("rainbow"@.len() == 7 && "rainbow"@[0] == 'r' && "rainbow"@[1] == 'a' && "rainbow"@[2] == 'i' && "rainbow"@[3] == 'n' && "rainbow"@[4] == 'b' && "rainbow"@[5] == 'o' && "rainbow"@[6] == 'w');
    reveal_strlit("reactive");
    assert("reactive"@.len() == 8 && "reactive"@[0] == 'r' && "reactive"@[1] == 'e' && "reactive"@[2] == 'a' && "reactive"@[3] == 'c' && "reactive"@[4] == 't' && "reactive"@[5] == 'i' && "reactive"@[6] == 'v' && "reactive"@[7] == 'e');
    reveal_strlit("custom");
    assert("custom"@.len() == 6 && "custom"@[0] == 'c' && "custom"@[1] == 'u' && "custom"@[2] == 's' && "custom"@[3] == 't' && "custom"@[4] == 'o' && "custom"@[5] == 'm');
    reveal_strlit("battery");
    assert("battery"@.len() == 7 && "battery"@[0] == 'b' && "battery"@[1] == 'a' && "battery"@[2] == 't' && "battery"@[3] == 't' && "battery"@[4] == 'e' && "battery"@[5] == 'r' && "battery"@[6] == 'y');
}

// --- Data structures ---

/// Whether a binding targets a mouse action or a keyboard key.
#[derive(Debug, Clone, Copy, PartialEq, Eq, Structural)]
pub enum BindingKind {
    Keyboard,
    Mouse,
}

/// A single button binding as stored on the device.
#[derive(Debug, Clone, Copy, PartialEq, Eq, Structural)]
pub struct ButtonBinding {
    pub action_code: u8,
    pub kind: BindingKind,
}

impl ButtonBinding {
    pub fn mouse_action(code: ButtonCode) -> (r: ButtonBinding)
        ensures
            r == (ButtonBinding { action_code: button_code_byte(code), kind: BindingKind::Mouse }),
    {
        ButtonBinding { action_code: code.to_u8(), kind: BindingKind::Mouse }
    }

    pub fn keyboard_key(hid_keycode: u8) -> (r: ButtonBinding)
        ensures
            r == (ButtonBinding { action_code: hid_keycode, kind: BindingKind::Keyboard }),
    {
        ButtonBinding { action_code: hid_keycode, kind: BindingKind::Keyboard }
    }

    pub fn disabled() -> (r: ButtonBinding)
        ensures
            r == (ButtonBinding { action_code: 0xFF, kind: BindingKind::Mouse }),
    {
        Self::mouse_action(ButtonCode::Disabled)
    }

    /// Wire format: action_type byte (0 = keyboard, 1 = mouse).
    pub fn action_type_byte(&self) -> (r: u8)
        ensures
            r == (if self.kind == BindingKind::Keyboard { 0u8 } else { 1u8 }),
    {
        match self.kind {
            BindingKind::Keyboard => 0,
            BindingKind::Mouse => 1,
        }
    }
}

#[derive(Debug, Clone, Copy, PartialEq, Eq, Structural)]
pub struct LedConfig {
    pub mode: LedMode,
    pub brightness: u8,
    pub r: u8,
    pub g: u8,
    pub b: u8,
}

#[derive(Debug, Clone)]
pub struct Settings {
    /// Actual DPI values.
    pub dpi_presets: Vec<u16>,
    /// Actual polling rate in Hz.
    pub polling_rate: u16,
    /// Actual debounce time in ms.
    pub debounce_ms: u8,
    pub angle_snapping: bool,
}

#[derive(Debug, Clone)]
pub struct ProfileData {
    pub current_profile: u8,
    pub firmware_version: String,
}

/// Complete state of one profile.
#[derive(Debug, Clone)]
pub struct DeviceProfile {
    pub buttons: Vec<ButtonBinding>,
    pub settings: Settings,
    pub leds: Vec<LedConfig>,
}

/// The mathematical content of a profile.
#[verifier::ext_equal]
pub struct ProfileView {
    pub buttons: Seq<ButtonBinding>,
    pub dpi_presets: Seq<u16>,
    pub polling_rate: u16,
    pub debounce_ms: u8,
    pub angle_snapping: bool,
    pub leds: Seq<LedConfig>,
}

impl View for DeviceProfile {
    type V = ProfileView;

    open spec fn view(&self) -> ProfileView {
        ProfileView {
            buttons: self.buttons@,
            dpi_presets: self.settings.dpi_presets@,
            polling_rate: self.settings.polling_rate,
            debounce_ms: self.settings.debounce_ms,
            angle_snapping: self.settings.angle_snapping,
            leds: self.leds@,
        }
    }
}

// --- USB HID keycode table (subset of common keys) ---

/// The name of a USB HID keycode, for the keys that have one.
pub open spec fn hid_key_name(code: u8) -> Option<Seq<char>> {
    if code == 0x04u8 { Some("a"@) }
    else if code == 0x05u8 { Some("b"@) }
    else if code == 0x06u8 { Some("c"@) }
    else if code == 0x07u8 { Some("d"@) }
    else if code == 0x08u8 { Some("e"@) }
    else if code == 0x09u8 { Some("f"@) }
    else if code == 0x0Au8 { Some("g"@) }
    else if code == 0x0Bu8 { Some("h"@) }
    else if code == 0x0Cu8 { Some("i"@) }
    else if code == 0x0Du8 { Some("j"@) }
    else if code == 0x0Eu8 { Some("k"@) }
    else if code == 0x0Fu8 { Some("l"@) }
    else if code == 0x10u8 { Some("m"@) }
    else if code == 0x11u8 { Some("n"@) }
    else if code == 0x12u8 { Some("o"@) }
    else if code == 0x13u8 { Some("p"@) }
    else if code == 0x14u8 { Some("q"@) }
    else if code == 0x15u8 { Some("r"@) }
    else if code == 0x16u8 { Some("s"@) }
    else if code == 0x17u8 { Some("t"@) }
    else if code == 0x18u8 { Some("u"@) }
    else if code == 0x19u8 { Some("v"@) }
    else if code == 0x1Au8 { Some("w"@) }
    else if code == 0x1Bu8 { Some("x"@) }
    else if code == 0x1Cu8 { Some("y"@) }
    else if code == 0x1Du8 { Some("z"@) }
    else if code == 0x1Eu8 { Some("1"@) }
    else if code == 0x1Fu8 { Some("2"@) }
    else if code == 0x20u8 { Some("3"@) }
    else if code == 0x21u8 { Some("4"@) }
    else if code == 0x22u8 { Some("5"@) }
    else if code == 0x23u8 { Some("6"@) }
    else if code == 0x24u8 { Some("7"@) }
    else if code == 0x25u8 { Some("8"@) }
    else if code == 0x26u8 { Some("9"@) }
    else if code == 0x27u8 { Some("0"@) }
    else if code == 0x28u8 { Some("enter"@) }
    else if code == 0x29u8 { Some("escape"@) }
    else if code == 0x2Au8 { Some("backspace"@) }
    else if code == 0x2Bu8 { Some("tab"@) }
    else if code == 0x2Cu8 { Some("space"@) }
    else if code == 0x2Du8 { Some("minus"@) }
    else if code == 0x2Eu8 { Some("equal"@) }
    else if code == 0x2Fu8 { Some("left_bracket"@) }
    else if code == 0x30u8 { Some("right_bracket"@) }
    else if code == 0x31u8 { Some("backslash"@) }
    else if code == 0x33u8 { Some("semicolon"@) }
    else if code == 0x34u8 { Some("apostrophe"@) }
    else if code == 0x35u8 { Some("grave"@) }
    else if code == 0x36u8 { Some("comma"@) }
    else if code == 0x37u8 { Some("dot"@) }
    else if code == 0x38u8 { Some("slash"@) }
    else if code == 0x39u8 { Some("caps_lock"@) }
    else if code == 0x3Au8 { Some("f1"@) }
    else if code == 0x3Bu8 { Some("f2"@) }
    else if code == 0x3Cu8 { Some("f3"@) }
    else if code == 0x3Du8 { Some("f4"@) }
    else if code == 0x3Eu8 { Some("f5"@) }
    else if code == 0x3Fu8 { Some("f6"@) }
    else if code == 0x40u8 { Some("f7"@) }
    else if code == 0x41u8 { Some("f8"@) }
    else if code == 0x42u8 { Some("f9"@) }
    else if code == 0x43u8 { Some("f10"@) }
    else if code == 0x44u8 { Some("f11"@) }
    else if code == 0x45u8 { Some("f12"@) }
    else if code == 0x46u8 { Some("print_screen"@) }
    else if code == 0x47u8 { Some("scroll_lock"@) }
    else if code == 0x48u8 { Some("pause"@) }
    else if code == 0x49u8 { Some("insert"@) }
    else if code == 0x4Au8 { Some("home"@) }
    else if code == 0x4Bu8 { Some("page_up"@) }
    else if code == 0x4Cu8 { Some("delete"@) }
    else if code == 0x4Du8 { Some("end"@) }
    else if code == 0x4Eu8 { Some("page_down"@) }
    else if code == 0x4Fu8 { Some("right"@) }
    else if code == 0x50u8 { Some("left"@) }
    else if code == 0x51u8 { Some("down"@) }
    else if code == 0x52u8 { Some("up"@) }
    else { None }
}

/// The USB HID keycode that a key name stands for, if any.
pub open spec fn hid_key_from_name(s: Seq<char>) -> Option<u8> {
    if s == "a"@ { Some(0x04u8) }
    else if s == "b"@ { Some(0x05u8) }
    else if s == "c"@ { Some(0x06u8) }
    else if s == "d"@ { Some(0x07u8) }
    else if s == "e"@ { Some(0x08u8) }
    else if s == "f"@ { Some(0x09u8) }
    else if s == "g"@ { Some(0x0Au8) }
    else if s == "h"@ { Some(0x0Bu8) }
    else if s == "i"@ { Some(0x0Cu8) }
    else if s == "j"@ { Some(0x0Du8) }
    else if s == "k"@ { Some(0x0Eu8) }
    else if s == "l"@ { Some(0x0Fu8) }
    else if s == "m"@ { Some(0x10u8) }
    else if s == "n"@ { Some(0x11u8) }
    else if s == "o"@ { Some(0x12u8) }
    else if s == "p"@ { Some(0x13u8) }
    else if s == "q"@ { Some(0x14u8) }
    else if s == "r"@ { Some(0x15u8) }
    else if s == "s"@ { Some(0x16u8) }
    else if s == "t"@ { Some(0x17u8) }
    else if s == "u"@ { Some(0x18u8) }
    else if s == "v"@ { Some(0x19u8) }
    else if s == "w"@ { Some(0x1Au8) }
    else if s == "x"@ { Some(0x1Bu8) }
    else if s == "y"@ { Some(0x1Cu8) }
    else if s == "z"@ { Some(0x1Du8) }
    else if s == "1"@ { Some(0x1Eu8) }
    else if s == "2"@ { Some(0x1Fu8) }
    else if s == "3"@ { Some(0x20u8) }
    else if s == "4"@ { Some(0x21u8) }
    else if s == "5"@ { Some(0x22u8) }
    else if s == "6"@ { Some(0x23u8) }
    else if s == "7"@ { Some(0x24u8) }
    else if s == "8"@ { Some(0x25u8) }
    else if s == "9"@ { Some(0x26u8) }
    else if s == "0"@ { Some(0x27u8) }
    else if s == "enter"@ { Some(0x28u8) }
    else if s == "escape"@ { Some(0x29u8) }
    else if s == "backspace"@ { Some(0x2Au8) }
    else if s == "tab"@ { Some(0x2Bu8) }
    else if s == "space"@ { Some(0x2Cu8) }
    else if s == "minus"@ { Some(0x2Du8) }
    else if s == "equal"@ { Some(0x2Eu8) }
    else if s == "left_bracket"@ { Some(0x2Fu8) }
    else if s == "right_bracket"@ { Some(0x30u8) }
    else if s == "backslash"@ { Some(0x31u8) }
    else if s == "semicolon"@ { Some(0x33u8) }
    else if s == "apostrophe"@ { Some(0x34u8) }
    else if s == "grave"@ { Some(0x35u8) }
    else if s == "comma"@ { Some(0x36u8) }
    else if s == "dot"@ { Some(0x37u8) }
    else if s == "slash"@ { Some(0x38u8) }
    else if s == "caps_lock"@ { Some(0x39u8) }
    else if s == "f1"@ { Some(0x3Au8) }
    else if s == "f2"@ { Some(0x3Bu8) }
    else if s == "f3"@ { Some(0x3Cu8) }
    else if s == "f4"@ { Some(0x3Du8) }
    else if s == "f5"@ { Some(0x3Eu8) }
    else if s == "f6"@ { Some(0x3Fu8) }
    else if s == "f7"@ { Some(0x40u8) }
    else if s == "f8"@ { Some(0x41u8) }
    else if s == "f9"@ { Some(0x42u8) }
    else if s == "f10"@ { Some(0x43u8) }
    else if s == "f11"@ { Some(0x44u8) }
    else if s == "f12"@ { Some(0x45u8) }
    else if s == "print_screen"@ { Some(0x46u8) }
    else if s == "scroll_lock"@ { Some(0x47u8) }
    else if s == "pause"@ { Some(0x48u8) }
    else if s == "insert"@ { Some(0x49u8) }
    else if s == "home"@ { Some(0x4Au8) }
    else if s == "page_up"@ { Some(0x4Bu8) }
    else if s == "delete"@ { Some(0x4Cu8) }
    else if s == "end"@ { Some(0x4Du8) }
    else if s == "page_down"@ { Some(0x4Eu8) }
    else if s == "right"@ { Some(0x4Fu8) }
    else if s == "left"@ { Some(0x50u8) }
    else if s == "down"@ { Some(0x51u8) }
    else if s == "up"@ { Some(0x52u8) }
    else { None }
}

/// Map a USB HID keycode to a human-readable name.
pub fn hid_keycode_to_name(code: u8) -> (r: Option<&'static str>)
    ensures
        match r {
            Some(s) => hid_key_name(code) == Some(s@),
            None => hid_key_name(code) is None,
        },
{
    match code {
        0x04 => Some("a"),
        0x05 => Some("b"),
        0x06 => Some("c"),
        0x07 => Some("d"),
        0x08 => Some("e"),
        0x09 => Some("f"),
        0x0A => Some("g"),
        0x0B => Some("h"),
        0x0C => Some("i"),
        0x0D => Some("j"),
        0x0E => Some("k"),
        0x0F => Some("l"),
        0x10 => Some("m"),
        0x11 => Some("n"),
        0x12 => Some("o"),
        0x13 => Some("p"),
        0x14 => Some("q"),
        0x15 => Some("r"),
        0x16 => Some("s"),
        0x17 => Some("t"),
        0x18 => Some("u"),
        0x19 => Some("v"),
        0x1A => Some("w"),
        0x1B => Some("x"),
        0x1C => Some("y"),
        0x1D => Some("z"),
        0x1E => Some("1"),
        0x1F => Some("2"),
        0x20 => Some("3"),
        0x21 => Some("4"),
        0x22 => Some("5"),
        0x23 => Some("6"),
        0x24 => Some("7"),
        0x25 => Some("8"),
        0x26 => Some("9"),
        0x27 => Some("0"),
        0x28 => Some("enter"),
        0x29 => Some("escape"),
        0x2A => Some("backspace"),
        0x2B => Some("tab"),
        0x2C => Some("space"),
        0x2D => Some("minus"),
        0x2E => Some("equal"),
        0x2F => Some("left_bracket"),
        0x30 => Some("right_bracket"),
        0x31 => Some("backslash"),
        0x33 => Some("semicolon"),
        0x34 => Some("apostrophe"),
        0x35 => Some("grave"),
        0x36 => Some("comma"),
        0x37 => Some("dot"),
        0x38 => Some("slash"),
        0x39 => Some("caps_lock"),
        0x3A => Some("f1"),
        0x3B => Some("f2"),
        0x3C => Some("f3"),
        0x3D => Some("f4"),
        0x3E => Some("f5"),
        0x3F => Some("f6"),
        0x40 => Some("f7"),
        0x41 => Some("f8"),
        0x42 => Some("f9"),
        0x43 => Some("f10"),
        0x44 => Some("f11"),
        0x45 => Some("f12"),
        0x46 => Some("print_screen"),
        0x47 => Some("scroll_lock"),
        0x48 => Some("pause"),
        0x49 => Some("insert"),
        0x4A => Some("home"),
        0x4B => Some("page_up"),
        0x4C => Some("delete"),
        0x4D => Some("end"),
        0x4E => Some("page_down"),
        0x4F => Some("right"),
        0x50 => Some("left"),
        0x51 => Some("down"),
        0x52 => Some("up"),
        _ => None,
    }
}

/// Map a key name to USB HID keycode.
pub fn name_to_hid_keycode(name: &str) -> (r: Option<u8>)
    ensures
        r == hid_key_from_name(name@),
{
    if str_eq(name, "a") {
        Some(0x04)
    } else if str_eq(name, "b") {
        Some(0x05)
    } else if str_eq(name, "c") {
        Some(0x06)
    } else if str_eq(name, "d") {
        Some(0x07)
    } else if str_eq(name, "e") {
        Some(0x08)
    } else if str_eq(name, "f") {
        Some(0x09)
    } else if str_eq(name, "g") {
        Some(0x0A)
    } else if str_eq(name, "h") {
        Some(0x0B)
    } else if str_eq(name, "i") {
        Some(0x0C)
    } else if str_eq(name, "j") {
        Some(0x0D)
    } else if str_eq(name, "k") {
        Some(0x0E)
    } else if str_eq(name, "l") {
        Some(0x0F)
    } else if str_eq(name, "m") {
        Some(0x10)
    } else if str_eq(name, "n") {
        Some(0x11)
    } else if str_eq(name, "o") {
        Some(0x12)
    } else if str_eq(name, "p") {
        Some(0x13)
    } else if str_eq(name, "q") {
        Some(0x14)
    } else if str_eq(name, "r") {
        Some(0x15)
    } else if str_eq(name, "s") {
        Some(0x16)
    } else if str_eq(name, "t") {
        Some(0x17)
    } else if str_eq(name, "u") {
        Some(0x18)
    } else if str_eq(name, "v") {
        Some(0x19)
    } else if str_eq(name, "w") {
        Some(0x1A)
    } else if str_eq(name, "x") {
        Some(0x1B)
    } else if str_eq(name, "y") {
        Some(0x1C)
    } else if str_eq(name, "z") {
        Some(0x1D)
    } else if str_eq(name, "1") {
        Some(0x1E)
    } else if str_eq(name, "2") {
        Some(0x1F)
    } else if str_eq(name, "3") {
        Some(0x20)
    } else if str_eq(name, "4") {
        Some(0x21)
    } else if str_eq(name, "5") {
        Some(0x22)
    } else if str_eq(name, "6") {
        Some(0x23)
    } else if str_eq(name, "7") {
        Some(0x24)
    } else if str_eq(name, "8") {
        Some(0x25)
    } else if str_eq(name, "9") {
        Some(0x26)
    } else if str_eq(name, "0") {
        Some(0x27)
    } else if str_eq(name, "enter") {
        Some(0x28)
    } else if str_eq(name, "escape") {
        Some(0x29)
    } else if str_eq(name, "backspace") {
        Some(0x2A)
    } else if str_eq(name, "tab") {
        Some(0x2B)
    } else if str_eq(name, "space") {
        Some(0x2C)
    } else if str_eq(name, "minus") {
        Some(0x2D)
    } else if str_eq(name, "equal") {
        Some(0x2E)
    } else if str_eq(name, "left_bracket") {
        Some(0x2F)
    } else if str_eq(name, "right_bracket") {
        Some(0x30)
    } else if str_eq(name, "backslash") {
        Some(0x31)
    } else if str_eq(name, "semicolon") {
        Some(0x33)
    } else if str_eq(name, "apostrophe") {
        Some(0x34)
    } else if str_eq(name, "grave") {
        Some(0x35)
    } else if str_eq(name, "comma") {
        Some(0x36)
    } else if str_eq(name, "dot") {
        Some(0x37)
    } else if str_eq(name, "slash") {
        Some(0x38)
    } else if str_eq(name, "caps_lock") {
        Some(0x39)
    } else if str_eq(name, "f1") {
        Some(0x3A)
    } else if str_eq(name, "f2") {
        Some(0x3B)
    } else if str_eq(name, "f3") {
        Some(0x3C)
    } else if str_eq(name, "f4") {
        Some(0x3D)
    } else if str_eq(name, "f5") {
        Some(0x3E)
    } else if str_eq(name, "f6") {
        Some(0x3F)
    } else if str_eq(name, "f7") {
        Some(0x40)
    } else if str_eq(name, "f8") {
        Some(0x41)
    } else if str_eq(name, "f9") {
        Some(0x42)
    } else if str_eq(name, "f10") {
        Some(0x43)
    } else if str_eq(name, "f11") {
        Some(0x44)
    } else if str_eq(name, "f12") {
        Some(0x45)
    } else if str_eq(name, "print_screen") {
        Some(0x46)
    } else if str_eq(name, "scroll_lock") {
        Some(0x47)
    } else if str_eq(name, "pause") {
        Some(0x48)
    } else if str_eq(name, "insert") {
        Some(0x49)
    } else if str_eq(name, "home") {
        Some(0x4A)
    } else if str_eq(name, "page_up") {
        Some(0x4B)
    } else if str_eq(name, "delete") {
        Some(0x4C)
    } else if str_eq(name, "end") {
        Some(0x4D)
    } else if str_eq(name, "page_down") {
        Some(0x4E)
    } else if str_eq(name, "right") {
        Some(0x4F)
    } else if str_eq(name, "left") {
        Some(0x50)
    } else if str_eq(name, "down") {
        Some(0x51)
    } else if str_eq(name, "up") {
        Some(0x52)
    } else {
        None
    }
}

/// A keycode's name reads back as that keycode, and a name that reads as a keycode
/// is that keycode's name.
pub proof fn lemma_hid_key_name_roundtrip(code: u8, s: Seq<char>)
    ensures
        hid_key_name(code) matches Some(n) ==> hid_key_from_name(n) == Some(code),
        hid_key_from_name(s) == Some(code) ==> hid_key_name(code) == Some(s),
{

    reveal_strlit("a");
    assert("a"@.len() == 1 && "a"@[0] == 'a');
    reveal_strlit("b");
    assert("b"@.len() == 1 && "b"@[0] == 'b');
    reveal_strlit("c");
    assert("c"@.len() == 1 && "c"@[0] == 'c');
    reveal_strlit("d");
    assert("d"@.len() == 1 && "d"@[0] == 'd');
    reveal_strlit("e");
    assert("e"@.len() == 1 && "e"@[0] == 'e');
    reveal_strlit("f");
    assert("f"@.len() == 1 && "f"@[0] == 'f');
    reveal_strlit("g");
    assert("g"@.len() == 1 && "g"@[0] == 'g');
    reveal_strlit("h");
    assert("h"@.len() == 1 && "h"@[0] == 'h');
    reveal_strlit("i");
    assert("i"@.len() == 1 && "i"@[0] == 'i');
    reveal_strlit("j");
    assert("j"@.len() == 1 && "j"@[0] == 'j');
    reveal_strlit("k");
    assert("k"@.len() == 1 && "k"@[0] == 'k');
    reveal_strlit("l");
    assert("l"@.len() == 1 && "l"@[0] == 'l');
    reveal_strlit("m");
    assert("m"@.len() == 1 && "m"@[0] == 'm');
    reveal_strlit("n");
    assert("n"@.len() == 1 && "n"@[0] == 'n');
    reveal_strlit("o");
    assert("o"@.len() == 1 && "o"@[0] == 'o');
    reveal_strlit("p");
    assert("p"@.len() == 1 && "p"@[0] == 'p');
    reveal_strlit("q");
    assert("q"@.len() == 1 && "q"@[0] == 'q');
    reveal_strlit("r");
    assert("r"@.len() == 1 && "r"@[0] == 'r');
    reveal_strlit("s");
    assert("s"@.len() == 1 && "s"@[0] == 's');
    reveal_strlit("t");
    assert("t"@.len() == 1 && "t"@[0] == 't');
    reveal_strlit("u");
    assert("u"@.len() == 1 && "u"@[0] == 'u');
    reveal_strlit("v");
    assert("v"@.len() == 1 && "v"@[0] == 'v');
    reveal_strlit("w");
    assert("w"@.len() == 1 && "w"@[0] == 'w');
    reveal_strlit("x");
    assert("x"@.len() == 1 && "x"@[0] == 'x');
    reveal_strlit("y");
    assert("y"@.len() == 1 && "y"@[0] == 'y');
    reveal_strlit("z");
    assert("z"@.len() == 1 && "z"@[0] == 'z');
    reveal_strlit("1");
    assert("1"@.len() == 1 && "1"@[0] == '1');
    reveal_strlit("2");
    assert("2"@.len() == 1 && "2"@[0] == '2');
    reveal_strlit("3");
    assert("3"@.len() == 1 && "3"@[0] == '3');
    reveal_strlit("4");
    assert("4"@.len() == 1 && "4"@[0] == '4');
    reveal_strlit("5");
    assert("5"@.len() == 1 && "5"@[0] == '5');
    reveal_strlit("6");
    assert("6"@.len() == 1 && "6"@[0] == '6');
    reveal_strlit("7");
    assert("7"@.len() == 1 && "7"@[0] == '7');
    reveal_strlit("8");
    assert("8"@.len() == 1 && "8"@[0] == '8');
    reveal_strlit("9");
    assert("9"@.len() == 1 && "9"@[0] == '9');
    reveal_strlit("0");
    assert("0"@.len() == 1 && "0"@[0] == '0');
    reveal_strlit("enter");
    assert("enter"@.len() == 5 && "enter"@[0] == 'e' && "enter"@[1] == 'n' && "enter"@[2] == 't' && "enter"@[3] == 'e' && "enter"@[4] == 'r');
    reveal_strlit("escape");
    assert("escape"@.len() == 6 && "escape"@[0] == 'e' && "escape"@[1] == 's' && "escape"@[2] == 'c' && "escape"@[3] == 'a' && "escape"@[4] == 'p' && "escape"@[5] == 'e');
    reveal_strlit("backspace");
    assert("backspace"@.len() == 9 && "backspace"@[0] == 'b' && "backspace"@[1] == 'a' && "backspace"@[2] == 'c' && "backspace"@[3] == 'k' && "backspace"@[4] == 's' && "backspace"@[5] == 'p' && "backspace"@[6] == 'a' && "backspace"@[7] == 'c' && "backspace"@[8] == 'e');
    reveal_strlit("tab");
    assert("tab"@.len() == 3 && "tab"@[0] == 't' && "tab"@[1] == 'a' && "tab"@[2] == 'b');
    reveal_strlit("space");
    assert("space"@.len() == 5 && "space"@[0] == 's' && "space"@[1] == 'p' && "space"@[2] == 'a' && "space"@[3] == 'c' && "space"@[4] == 'e');
    reveal_strlit("minus");
    assert("minus"@.len() == 5 && "minus"@[0] == 'm' && "minus"@[1] == 'i' && "minus"@[2] == 'n' && "minus"@[3] == 'u' && "minus"@[4] == 's');
    reveal_strlit("equal");
    assert("equal"@.len() == 5 && "equal"@[0] == 'e' && "equal"@[1] == 'q' && "equal"@[2] == 'u' && "equal"@[3] == 'a' && "equal"@[4] == 'l');
    reveal_strlit("left_bracket");
    assert("left_bracket"@.len() == 12 && "left_bracket"@[0] == 'l' && "left_bracket"@[1] == 'e' && "left_bracket"@[2] == 'f' && "left_bracket"@[3] == 't' && "left_bracket"@[4] == '_' && "left_bracket"@[5] == 'b' && "left_bracket"@[6] == 'r' && "left_bracket"@[7] == 'a' && "left_bracket"@[8] == 'c' && "left_bracket"@[9] == 'k' && "left_bracket"@[10] == 'e' && "left_bracket"@[11] == 't');
    reveal_strlit("right_bracket");
    assert("right_bracket"@.len() == 13 && "right_bracket"@[0] == 'r' && "right_bracket"@[1] == 'i' && "right_bracket"@[2] == 'g' && "right_bracket"@[3] == 'h' && "right_bracket"@[4] == 't' && "right_bracket"@[5] == '_' && "right_bracket"@[6] == 'b' && "right_bracket"@[7] == 'r' && "right_bracket"@[8] == 'a' && "right_bracket"@[9] == 'c' && "right_bracket"@[10] == 'k' && "right_bracket"@[11] == 'e' && "right_bracket"@[12] == 't');
    reveal_strlit("backslash");
    assert("backslash"@.len() == 9 && "backslash"@[0] == 'b' && "backslash"@[1] == 'a' && "backslash"@[2] == 'c' && "backslash"@[3] == 'k' && "backslash"@[4] == 's' && "backslash"@[5] == 'l' && "backslash"@[6] == 'a' && "backslash"@[7] == 's' && "backslash"@[8] == 'h');
    reveal_strlit("semicolon");
    assert("semicolon"@.len() == 9 && "semicolon"@[0] == 's' && "semicolon"@[1] == 'e' && "semicolon"@[2] == 'm' && "semicolon"@[3] == 'i' && "semicolon"@[4] == 'c' && "semicolon"@[5] == 'o' && "semicolon"@[6] == 'l' && "semicolon"@[7] == 'o' && "semicolon"@[8] == 'n');
    reveal_strlit("apostrophe");
    assert("apostrophe"@.len() == 10 && "apostrophe"@[0] == 'a' && "apostrophe"@[1] == 'p' && "apostrophe"@[2] == 'o' && "apostrophe"@[3] == 's' && "apostrophe"@[4] == 't' && "apostrophe"@[5] == 'r' && "apostrophe"@[6] == 'o' && "apostrophe"@[7] == 'p' && "apostrophe"@[8] == 'h' && "apostrophe"@[9] == 'e');
    reveal_strlit("grave");
    assert("grave"@.len() == 5 && "grave"@[0] == 'g' && "grave"@[1] == 'r' && "grave"@[2] == 'a' && "grave"@[3] == 'v' && "grave"@[4] == 'e');
    reveal_strlit("comma");
    assert("comma"@.len() == 5 && "comma"@[0] == 'c' && "comma"@[1] == 'o' && "comma"@[2] == 'm' && "comma"@[3] == 'm' && "comma"@[4] == 'a');
    reveal_strlit("dot");
    assert("dot"@.len() == 3 && "dot"@[0] == 'd' && "dot"@[1] == 'o' && "dot"@[2] == 't');
    reveal_strlit("slash");
    assert("slash"@.len() == 5 && "slash"@[0] == 's' && "slash"@[1] == 'l' && "slash"@[2] == 'a' && "slash"@[3] == 's' && "slash"@[4] == 'h');
    reveal_strlit("caps_lock");
    assert("caps_lock"@.len() == 9 && "caps_lock"@[0] == 'c' && "caps_lock"@[1] == 'a' && "caps_lock"@[2] == 'p' && "caps_lock"@[3] == 's' && "caps_lock"@[4] == '_' && "caps_lock"@[5] == 'l' && "caps_lock"@[6] == 'o' && "caps_lock"@[7] == 'c' && "caps_lock"@[8] == 'k');
    reveal_strlit("f1");
    assert("f1"@.len() == 2 && "f1"@[0] == 'f' && "f1"@[1] == '1');
    reveal_strlit("f2");
    assert("f2"@.len() == 2 && "f2"@[0] == 'f' && "f2"@[1] == '2');
    reveal_strlit("f3");
    assert("f3"@.len() == 2 && "f3"@[0] == 'f' && "f3"@[1] == '3');
    reveal_strlit("f4");
    assert("f4"@.len() == 2 && "f4"@[0] == 'f' && "f4"@[1] == '4');
    reveal_strlit("f5");
    assert("f5"@.len() == 2 && "f5"@[0] == 'f' && "f5"@[1] == '5');
    reveal_strlit("f6");
    assert("f6"@.len() == 2 && "f6"@[0] == 'f' && "f6"@[1] == '6');
    reveal_strlit("f7");
    assert("f7"@.len() == 2 && "f7"@[0] == 'f' && "f7"@[1] == '7');
    reveal_strlit("f8");
    assert("f8"@.len() == 2 && "f8"@[0] == 'f' && "f8"@[1] == '8');
    reveal_strlit("f9");
    assert("f9"@.len() == 2 && "f9"@[0] == 'f' && "f9"@[1] == '9');
    reveal_strlit("f10");
    assert("f10"@.len() == 3 && "f10"@[0] == 'f' && "f10"@[1] == '1' && "f10"@[2] == '0');
    reveal_strlit("f11");
    assert("f11"@.len() == 3 && "f11"@[0] == 'f' && "f11"@[1] == '1' && "f11"@[2] == '1');
    reveal_strlit("f12");
    assert("f12"@.len() == 3 && "f12"@[0] == 'f' && "f12"@[1] == '1' && "f12"@[2] == '2');
    reveal_strlit("print_screen");
    assert("print_screen"@.len() == 12 && "print_screen"@[0] == 'p' && "print_screen"@[1] == 'r' && "print_screen"@[2] == 'i' && "print_screen"@[3] == 'n' && "print_screen"@[4] == 't' && "print_screen"@[5] == '_' && "print_screen"@[6] == 's' && "print_screen"@[7] == 'c' && "print_screen"@[8] == 'r' && "print_screen"@[9] == 'e' && "print_screen"@[10] == 'e' && "print_screen"@[11] == 'n');
    reveal_strlit("scroll_lock");
    assert("scroll_lock"@.len() == 11 && "scroll_lock"@[0] == 's' && "scroll_lock"@[1] == 'c' && "scroll_lock"@[2] == 'r' && "scroll_lock"@[3] == 'o' && "scroll_lock"@[4] == 'l' && "scroll_lock"@[5] == 'l' && "scroll_lock"@[6] == '_' && "scroll_lock"@[7] == 'l' && "scroll_lock"@[8] == 'o' && "scroll_lock"@[9] == 'c' && "scroll_lock"@[10] == 'k');
    reveal_strlit("pause");
    assert("pause"@.len() == 5 && "pause"@[0] == 'p' && "pause"@[1] == 'a' && "pause"@[2] == 'u' && "pause"@[3] == 's' && "pause"@[4] == 'e');
    reveal_strlit("insert");
    assert("insert"@.len() == 6 && "insert"@[0] == 'i' && "insert"@[1] == 'n' && "insert"@[2] == 's' && "insert"@[3] == 'e' && "insert"@[4] == 'r' && "insert"@[5] == 't');
    reveal_strlit("home");
    assert("home"@.len() == 4 && "home"@[0] == 'h' && "home"@[1] == 'o' && "home"@[2] == 'm' && "home"@[3] == 'e');
    reveal_strlit("page_up");
    assert("page_up"@.len() == 7 && "page_up"@[0] == 'p' && "page_up"@[1] == 'a' && "page_up"@[2] == 'g' && "page_up"@[3] == 'e' && "page_up"@[4] == '_' && "page_up"@[5] == 'u' && "page_up"@[6] == 'p');
    reveal_strlit("delete");
    assert("delete"@.len() == 6 && "delete"@[0] == 'd' && "delete"@[1] == 'e' && "delete"@[2] == 'l' && "delete"@[3] == 'e' && "delete"@[4] == 't' && "delete"@[5] == 'e');
    reveal_strlit("end");
    assert("end"@.len() == 3 && "end"@[0] == 'e' && "end"@[1] == 'n' && "end"@[2] == 'd');
    reveal_strlit("page_down");
    assert("page_down"@.len() == 9 && "page_down"@[0] == 'p' && "page_down"@[1] == 'a' && "page_down"@[2] == 'g' && "page_down"@[3] == 'e' && "page_down"@[4] == '_' && "page_down"@[5] == 'd' && "page_down"@[6] == 'o' && "page_down"@[7] == 'w' && "page_down"@[8] == 'n');
    reveal_strlit("right");
    assert("right"@.len() == 5 && "right"@[0] == 'r' && "right"@[1] == 'i' && "right"@[2] == 'g' && "right"@[3] == 'h' && "right"@[4] == 't');
    reveal_strlit("left");
    assert("left"@.len() == 4 && "left"@[0] == 'l' && "left"@[1] == 'e' && "left"@[2] == 'f' && "left"@[3] == 't');
    reveal_strlit("down");
    assert("down"@.len() == 4 && "down"@[0] == 'd' && "down"@[1] == 'o' && "down"@[2] == 'w' && "down"@[3] == 'n');
    reveal_strlit("up");
    assert("up"@.len() == 2 && "up"@[0] == 'u' && "up"@[1] == 'p');
}


/// The key table names exactly the keycodes 0x04 to 0x31 and 0x33 to 0x52; the letters
/// `a` to `z` are 0x04 to 0x1D in order, the digits `1` to `9` are 0x1E to 0x26 and `0`
/// is 0x27, the function keys `f1` to `f12` are 0x3A to 0x45 in order, and no two
/// keycodes share a name.
pub proof fn lemma_hid_key_table(code: u8)
    ensures
        hid_key_name(code) is Some <==> (0x04 <= code <= 0x31 || 0x33 <= code <= 0x52),
        0x04 <= code <= 0x1D ==> hid_key_name(code) == Some(seq![(code + 93) as char]),
        0x1E <= code <= 0x26 ==> hid_key_name(code) == Some(seq![(code + 19) as char]),
        code == 0x27 ==> hid_key_name(code) == Some(seq!['0']),
        0x3A <= code <= 0x45 ==> hid_key_name(code) == Some(seq!['f'] + decimal_chars((code - 0x39) as nat)),
        forall|other: u8| hid_key_name(code) is Some && #[trigger] hid_key_name(other) == hid_key_name(code) ==> other == code,
{
    assert forall|other: u8| hid_key_name(code) is Some && #[trigger] hid_key_name(other) == hid_key_name(code) implies other == code by {
        lemma_hid_key_name_roundtrip(code, Seq::empty());
        lemma_hid_key_name_roundtrip(other, Seq::empty());
    }

    if code == 0x04 {
        reveal_strlit("a");
        assert("a"@ =~= seq![(code + 93) as char]);
    } else if code == 0x05 {
        reveal_strlit("b");
        assert("b"@ =~= seq![(code + 93) as char]);
    } else if code == 0x06 {
        reveal_strlit("c");
        assert("c"@ =~= seq![(code + 93) as char]);
    } else if code == 0x07 {
        reveal_strlit("d");
        assert("d"@ =~= seq![(code + 93) as char]);
    } else if code == 0x08 {
        reveal_strlit("e");
        assert("e"@ =~= seq![(code + 93) as char]);
    } else if code == 0x09 {
        reveal_strlit("f");
        assert("f"@ =~= seq![(code + 93) as char]);
    } else if code == 0x0A {
        reveal_strlit("g");
        assert("g"@ =~= seq![(code + 93) as char]);
    } else if code == 0x0B {
        reveal_strlit("h");
        assert("h"@ =~= seq![(code + 93) as char]);
    } else if code == 0x0C {
        reveal_strlit("i");
        assert("i"@ =~= seq![(code + 93) as char]);
    } else if code == 0x0D {
        reveal_strlit("j");
        assert("j"@ =~= seq![(code + 93) as char]);
    } else if code == 0x0E {
        reveal_strlit("k");
        assert("k"@ =~= seq![(code + 93) as char]);
    } else if code == 0x0F {
        reveal_strlit("l");
        assert("l"@ =~= seq![(code + 93) as char]);
    } else if code == 0x10 {
        reveal_strlit("m");
        assert("m"@ =~= seq![(code + 93) as char]);
    } else if code == 0x11 {
        reveal_strlit("n");
        assert("n"@ =~= seq![(code + 93) as char]);
    } else if code == 0x12 {
        reveal_strlit("o");
        assert("o"@ =~= seq![(code + 93) as char]);
    } else if code == 0x13 {
        reveal_strlit("p");
        assert("p"@ =~= seq![(code + 93) as char]);
    } else if code == 0x14 {
        reveal_strlit("q");
        assert("q"@ =~= seq![(code + 93) as char]);
    } else if code == 0x15 {
        reveal_strlit("r");
        assert("r"@ =~= seq![(code + 93) as char]);
    } else if code == 0x16 {
        reveal_strlit("s");
        assert("s"@ =~= seq![(code + 93) as char]);
    } else if code == 0x17 {
        reveal_strlit("t");
        assert("t"@ =~= seq![(code + 93) as char]);
    } else if code == 0x18 {
        reveal_strlit("u");
        assert("u"@ =~= seq![(code + 93) as char]);
    } else if code == 0x19 {
        reveal_strlit("v");
        assert("v"@ =~= seq![(code + 93) as char]);
    } else if code == 0x1A {
        reveal_strlit("w");
        assert("w"@ =~= seq![(code + 93) as char]);
    } else if code == 0x1B {
        reveal_strlit("x");
        assert("x"@ =~= seq![(code + 93) as char]);
    } else if code == 0x1C {
        reveal_strlit("y");
        assert("y"@ =~= seq![(code + 93) as char]);
    } else if code == 0x1D {
        reveal_strlit("z");
        assert("z"@ =~= seq![(code + 93) as char]);
    } else if code == 0x1E {
        reveal_strlit("1");
        assert("1"@ =~= seq![(code + 19) as char]);
    } else if code == 0x1F {
        reveal_strlit("2");
        assert("2"@ =~= seq![(code + 19) as char]);
    } else if code == 0x20 {
        reveal_strlit("3");
        assert("3"@ =~= seq![(code + 19) as char]);
    } else if code == 0x21 {
        reveal_strlit("4");
        assert("4"@ =~= seq![(code + 19) as char]);
    } else if code == 0x22 {
        reveal_strlit("5");
        assert("5"@ =~= seq![(code + 19) as char]);
    } else if code == 0x23 {
        reveal_strlit("6");
        assert("6"@ =~= seq![(code + 19) as char]);
    } else if code == 0x24 {
        reveal_strlit("7");
        assert("7"@ =~= seq![(code + 19) as char]);
    } else if code == 0x25 {
        reveal_strlit("8");
        assert("8"@ =~= seq![(code + 19) as char]);
    } else if code == 0x26 {
        reveal_strlit("9");
        assert("9"@ =~= seq![(code + 19) as char]);
    } else if code == 0x27 {
        reveal_strlit("0");
        assert("0"@ =~= seq!['0']);
    } else if code == 0x3A {
        reveal_strlit("f1");
        assert(decimal_chars(1) =~= seq!['1']);
        assert("f1"@ =~= seq!['f'] + decimal_chars(1));
    } else if code == 0x3B {
        reveal_strlit("f2");
        assert(decimal_chars(2) =~= seq!['2']);
        assert("f2"@ =~= seq!['f'] + decimal_chars(2));
    } else if code == 0x3C {
        reveal_strlit("f3");
        assert(decimal_chars(3) =~= seq!['3']);
        assert("f3"@ =~= seq!['f'] + decimal_chars(3));
    } else if code == 0x3D {
        reveal_strlit("f4");
        assert(decimal_chars(4) =~= seq!['4']);
        assert("f4"@ =~= seq!['f'] + decimal_chars(4));
    } else if code == 0x3E {
        reveal_strlit("f5");
        assert(decimal_chars(5) =~= seq!['5']);
        assert("f5"@ =~= seq!['f'] + decimal_chars(5));
    } else if code == 0x3F {
        reveal_strlit("f6");
        assert(decimal_chars(6) =~= seq!['6']);
        assert("f6"@ =~= seq!['f'] + decimal_chars(6));
    } else if code == 0x40 {
        reveal_strlit("f7");
        assert(decimal_chars(7) =~= seq!['7']);
        assert("f7"@ =~= seq!['f'] + decimal_chars(7));
    } else if code == 0x41 {
        reveal_strlit("f8");
        assert(decimal_chars(8) =~= seq!['8']);
        assert("f8"@ =~= seq!['f'] + decimal_chars(8));
    } else if code == 0x42 {
        reveal_strlit("f9");
        assert(decimal_chars(9) =~= seq!['9']);
        assert("f9"@ =~= seq!['f'] + decimal_chars(9));
    } else if code == 0x43 {
        reveal_strlit("f10");
        assert(decimal_chars(1) =~= seq!['1']);
        assert(decimal_chars(10) =~= seq!['1', '0']);
        assert("f10"@ =~= seq!['f'] + decimal_chars(10));
    } else if code == 0x44 {
        reveal_strlit("f11");
        assert(decimal_chars(1) =~= seq!['1']);
        assert(decimal_chars(11) =~= seq!['1', '1']);
        assert("f11"@ =~= seq!['f'] + decimal_chars(11));
    } else if code == 0x45 {
        reveal_strlit("f12");
        assert(decimal_chars(1) =~= seq!['1']);
        assert(decimal_chars(12) =~= seq!['1', '2']);
        assert("f12"@ =~= seq!['f'] + decimal_chars(12));
    }
}


// --- How the names relate to the wire bytes ---

/// The mouse-action names of the config file, in their usual order: the three clicks,
/// back, forward, the two DPI buttons, the two scroll directions, `side_a` to `side_l`,
/// and `disabled`.
pub open spec fn mouse_action_names() -> Seq<Seq<char>> {
    seq![
        "left_click"@, "right_click"@, "middle_click"@, "back"@, "forward"@, "dpi_cycle"@,
        "dpi_target"@, "scroll_up"@, "scroll_down"@, "side_a"@, "side_b"@, "side_c"@,
        "side_d"@, "side_e"@, "side_f"@, "side_g"@, "side_h"@, "side_i"@, "side_j"@,
        "side_k"@, "side_l"@, "disabled"@,
    ]
}

/// Where a button's wire byte puts it among the mouse-action names: the clicks are
/// 0xF0 to 0xF2, `back` to `side_f` are the run 0xE4 to 0xEF, `side_g` to `side_l` the
/// run 0xDA to 0xDF, and `disabled` is 0xFF.
pub open spec fn mouse_action_position(b: u8) -> int {
    if 0xF0 <= b <= 0xF2 {
        b - 0xF0
    } else if 0xE4 <= b <= 0xEF {
        b - 0xE4 + 3
    } else if 0xDA <= b <= 0xDF {
        b - 0xDA + 15
    } else {
        21
    }
}

/// A button's config name is the mouse-action name at the place its wire byte gives it,
/// reading a byte gives the button of that name, and a name stands for exactly the
/// button that carries it.
pub proof fn lemma_button_names_follow_wire_bytes(c: ButtonCode, v: u8, s: Seq<char>)
    ensures
        button_code_name(c) == mouse_action_names()[mouse_action_position(button_code_byte(c))],
        button_code_from_byte(v) matches Some(d) ==> button_code_name(d) == mouse_action_names()[mouse_action_position(v)],
        button_code_from_name(s) == Some(c) <==> s == mouse_action_names()[mouse_action_position(button_code_byte(c))],
{
    lemma_button_code_name_roundtrip(c, s);
}

/// The LED mode names of the config file, in order.
pub open spec fn led_mode_names() -> Seq<Seq<char>> {
    seq!["static"@, "breathing"@, "cycle"@, "rainbow"@, "reactive"@, "custom"@, "battery"@]
}

/// An LED mode's wire byte is the place of its config name among the LED mode names, and
/// reading a byte gives the mode named at that place; a name stands for exactly the mode
/// that carries it.
pub proof fn lemma_led_mode_bytes_follow_names(m: LedMode, v: u8, s: Seq<char>)
    ensures
        led_mode_byte(m) < led_mode_names().len(),
        led_mode_name(m) == led_mode_names()[led_mode_byte(m) as int],
        led_mode_from_byte(v) is Some <==> v < led_mode_names().len(),
        led_mode_from_byte(v) matches Some(n) ==> led_mode_name(n) == led_mode_names()[v as int],
        led_mode_from_name(s) == Some(m) <==> s == led_mode_name(m),
{
    lemma_led_mode_name_roundtrip(m, s);
}

} // verus!
