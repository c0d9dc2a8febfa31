//! Mouse button presses as the kernel's input layer reports them, and the
//! descriptor slots they select. Reading input events is the caller's part.
use vstd::prelude::*;
use crate::devices::DeviceDescriptor;
use crate::types::{button_code_byte, first_index_of, lemma_first_index_of, ButtonCode};

verus! {

// Linux input key codes of mouse buttons.
pub const BTN_LEFT: u16 = 0x110;
pub const BTN_RIGHT: u16 = 0x111;
pub const BTN_MIDDLE: u16 = 0x112;
pub const BTN_SIDE: u16 = 0x113;
pub const BTN_EXTRA: u16 = 0x114;
pub const BTN_FORWARD: u16 = 0x115;
pub const BTN_BACK: u16 = 0x116;
pub const BTN_TASK: u16 = 0x117;

/// The button a Linux key code stands for. The thumb-grid buttons typically appear as
/// BTN_FORWARD, BTN_BACK and BTN_TASK.
pub open spec fn evdev_key_to_button_spec(code: u16) -> Option<ButtonCode> {
    if code == BTN_LEFT {
        Some(ButtonCode::LeftClick)
    } else if code == BTN_RIGHT {
        Some(ButtonCode::RightClick)
    } else if code == BTN_MIDDLE {
        Some(ButtonCode::MiddleClick)
    } else if code == BTN_SIDE {
        Some(ButtonCode::Back)
    } else if code == BTN_EXTRA {
        Some(ButtonCode::Forward)
    } else if code == BTN_FORWARD {
        Some(ButtonCode::SideA)
    } else if code == BTN_BACK {
        Some(ButtonCode::SideB)
    } else if code == BTN_TASK {
        Some(ButtonCode::SideC)
    } else {
        None
    }
}

/// Map a Linux input key code to the corresponding button code.
pub fn evdev_key_to_button(code: u16) -> (r: Option<ButtonCode>)
    ensures
        r == evdev_key_to_button_spec(code),
{
    match code {
        BTN_LEFT => Some(ButtonCode::LeftClick),
        BTN_RIGHT => Some(ButtonCode::RightClick),
        BTN_MIDDLE => Some(ButtonCode::MiddleClick),
        BTN_SIDE => Some(ButtonCode::Back),
        BTN_EXTRA => Some(ButtonCode::Forward),
        BTN_FORWARD => Some(ButtonCode::SideA),
        BTN_BACK => Some(ButtonCode::SideB),
        BTN_TASK => Some(ButtonCode::SideC),
        _ => None,
    }
}

/// Whether a key code is a mouse button (0x110 through 0x11F) with no mapping; such a
/// press is worth reporting.
pub fn is_unmapped_mouse_button(code: u16) -> (r: bool)
    ensures
        r == (0x110 <= code <= 0x11F && evdev_key_to_button_spec(code) is None),
{
    0x110 <= code && code <= 0x11F && evdev_key_to_button(code).is_none()
}

/// The first press (value 1; 0 is a release, 2 a repeat) of a mapped button among key
/// events given as (code, value).
pub open spec fn first_press_spec(events: Seq<(u16, i32)>) -> Option<ButtonCode>
    decreases events.len(),
{
    if events.len() == 0 {
        None
    } else if events[0].1 == 1 && evdev_key_to_button_spec(events[0].0) is Some {
        evdev_key_to_button_spec(events[0].0)
    } else {
        first_press_spec(events.drop_first())
    }
}

/// The first button pressed among a batch of key events given as (code, value).
pub fn first_press(events: &Vec<(u16, i32)>) -> (r: Option<ButtonCode>)
    ensures
        r == first_press_spec(events@),
{
    let mut i: usize = 0;
    assert(events@.skip(0) =~= events@);
    while i < events.len()
        invariant
            i <= events@.len(),
            first_press_spec(events@) == first_press_spec(events@.skip(i as int)),
        decreases events@.len() - i,
    {
        let (code, value) = events[i];
        assert(events@.skip(i as int)[0] == events@[i as int]);
        assert(events@.skip(i as int).drop_first() =~= events@.skip(i + 1));
        if value == 1 {
            if let Some(button) = evdev_key_to_button(code) {
                return Some(button);
            }
        }
        i = i + 1;
    }
    None
}

/// Find the button slot index for a given button code using the device descriptor.
pub fn button_code_to_slot(desc: &DeviceDescriptor, code: ButtonCode) -> (r: Option<usize>)
    ensures
        match r {
            Some(i) => first_index_of(desc@.button_slots, code) == Some(i as int),
            None => first_index_of(desc@.button_slots, code) is None,
        },
{
    let mut i: usize = 0;
    while i < desc.button_slots.len()
        invariant
            i <= desc.button_slots@.len(),
            forall|j: int| 0 <= j < i ==> desc.button_slots@[j] != code,
        decreases desc.button_slots@.len() - i,
    {
        if desc.button_slots[i] == code {
            proof {
                lemma_first_index_of(desc@.button_slots, code);
                assert(desc@.button_slots.contains(code));
                let k = first_index_of(desc@.button_slots, code)->0;
                if k < i {
                    assert(desc@.button_slots[k] != code);
                } else if k > i {
                    assert(desc@.button_slots[i as int] == code);
                }
            }
            return Some(i);
        }
        i = i + 1;
    }
    proof {
        lemma_first_index_of(desc@.button_slots, code);
    }
    None
}


/// The presses of unmapped mouse buttons that come before the first press of a mapped
/// one, in order: the codes worth reporting while looking for a press.
pub open spec fn unmapped_presses_spec(events: Seq<(u16, i32)>) -> Seq<u16>
    decreases events.len(),
{
    if events.len() == 0 {
        Seq::empty()
    } else if events[0].1 == 1 && evdev_key_to_button_spec(events[0].0) is Some {
        Seq::empty()
    } else if events[0].1 == 1 && 0x110 <= events[0].0 <= 0x11F {
        seq![events[0].0] + unmapped_presses_spec(events.drop_first())
    } else {
        unmapped_presses_spec(events.drop_first())
    }
}

/// The unmapped mouse buttons pressed before the first mapped press.
pub fn unmapped_presses(events: &Vec<(u16, i32)>) -> (r: Vec<u16>)
    ensures
        r@ == unmapped_presses_spec(events@),
{
    let mut out: Vec<u16> = Vec::new();
    let mut i: usize = 0;
    assert(events@.skip(0) =~= events@);
    assert(out@ + unmapped_presses_spec(events@.skip(0)) =~= unmapped_presses_spec(events@));
    while i < events.len()
        invariant
            i <= events@.len(),
            out@ + unmapped_presses_spec(events@.skip(i as int)) == unmapped_presses_spec(events@),
        decreases events@.len() - i,
    {
        let (code, value) = events[i];
        assert(events@.skip(i as int)[0] == events@[i as int]);
        assert(events@.skip(i as int).drop_first() =~= events@.skip(i + 1));
        if value == 1 {
            if evdev_key_to_button(code).is_some() {
                assert(out@ =~= out@ + Seq::<u16>::empty());
                return out;
            }
            if is_unmapped_mouse_button(code) {
                let ghost before = out@;
                out.push(code);
                assert(out@ + unmapped_presses_spec(events@.skip(i + 1))
                    =~= before + (seq![code] + unmapped_presses_spec(events@.skip(i + 1))));
            }
        }
        i = i + 1;
    }
    assert(events@.skip(i as int) =~= Seq::<(u16, i32)>::empty());
    assert(out@ =~= out@ + Seq::<u16>::empty());
    out
}


/// The Linux mouse keys map in three runs of consecutive codes onto runs of consecutive
/// wire bytes: BTN_LEFT, BTN_RIGHT and BTN_MIDDLE (0x110 to 0x112) onto the three clicks
/// (0xF0 to 0xF2); BTN_SIDE and BTN_EXTRA (0x113, 0x114) onto back and forward (0xE4,
/// 0xE5); BTN_FORWARD, BTN_BACK and BTN_TASK (0x115 to 0x117) onto the first three
/// thumb-grid buttons (0xEA to 0xEC). No other code names a button.
pub proof fn lemma_evdev_keys_in_runs(code: u16)
    ensures
        evdev_key_to_button_spec(code) is Some <==> 0x110 <= code <= 0x117,
        0x110 <= code <= 0x112 ==> button_code_byte(evdev_key_to_button_spec(code)->0) == 0xF0 + (code - 0x110),
        0x113 <= code <= 0x114 ==> button_code_byte(evdev_key_to_button_spec(code)->0) == 0xE4 + (code - 0x113),
        0x115 <= code <= 0x117 ==> button_code_byte(evdev_key_to_button_spec(code)->0) == 0xEA + (code - 0x115),
{
}

} // verus!
