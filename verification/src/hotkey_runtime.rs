//! How a hotkey is registered with Windows.

use vstd::prelude::*;

use crate::hotkey::Hotkey;

verus! {

/// `windows_sys` `MOD_ALT`: the Alt flag of `RegisterHotKey`, 1.
#[verifier::external_body]
fn mod_alt() -> (m: u32)
    ensures
        m == 1,
{
    windows_sys::Win32::UI::Input::KeyboardAndMouse::MOD_ALT
}

/// `windows_sys` `MOD_CONTROL`: the Ctrl flag of `RegisterHotKey`, 2.
#[verifier::external_body]
fn mod_control() -> (m: u32)
    ensures
        m == 2,
{
    windows_sys::Win32::UI::Input::KeyboardAndMouse::MOD_CONTROL
}

/// `windows_sys` `MOD_SHIFT`: the Shift flag of `RegisterHotKey`, 4.
#[verifier::external_body]
fn mod_shift() -> (m: u32)
    ensures
        m == 4,
{
    windows_sys::Win32::UI::Input::KeyboardAndMouse::MOD_SHIFT
}

/// The arguments of `RegisterHotKey` for a hotkey: the modifier flags and
/// the virtual-key code, which for letters and digits is their ASCII code.
#[derive(Debug, Clone, Copy, PartialEq, Eq, Structural)]
pub struct HotkeyRegistration {
    pub modifiers: u32,
    pub key_code: u32,
}

/// The flags of the hotkey's modifiers, Ctrl (2), Alt (1) and Shift (4),
/// and its key's code.
pub fn registration(hotkey: &Hotkey) -> (r: HotkeyRegistration)
    ensures
        r.modifiers == (if hotkey.ctrl { 2u32 } else { 0u32 }) + (if hotkey.alt {
            1u32
        } else {
            0u32
        }) + (if hotkey.shift { 4u32 } else { 0u32 }),
        r.key_code == hotkey.key as u32,
{
    let mut modifiers: u32 = 0;
    if hotkey.ctrl {
        modifiers = modifiers | mod_control();
    }
    if hotkey.alt {
        modifiers = modifiers | mod_alt();
    }
    if hotkey.shift {
        modifiers = modifiers | mod_shift();
    }
    let ctrl_bits: u32 = if hotkey.ctrl { 2 } else { 0 };
    let alt_bits: u32 = if hotkey.alt { 1 } else { 0 };
    let shift_bits: u32 = if hotkey.shift { 4 } else { 0 };
    proof {
        assert((0u32 | ctrl_bits) | alt_bits == ctrl_bits + alt_bits) by (bit_vector)
            requires
                ctrl_bits == 0 || ctrl_bits == 2,
                alt_bits == 0 || alt_bits == 1,
        ;
        assert(((0u32 | ctrl_bits) | alt_bits) | shift_bits == ctrl_bits + alt_bits + shift_bits)
            by (bit_vector)
            requires
                ctrl_bits == 0 || ctrl_bits == 2,
                alt_bits == 0 || alt_bits == 1,
                shift_bits == 0 || shift_bits == 4,
        ;
        assert(0u32 | ctrl_bits == ctrl_bits) by (bit_vector);
        assert(0u32 | alt_bits == alt_bits) by (bit_vector);
        assert(ctrl_bits | shift_bits == ctrl_bits + shift_bits) by (bit_vector)
            requires
                ctrl_bits == 0 || ctrl_bits == 2,
                shift_bits == 0 || shift_bits == 4,
        ;
        assert(alt_bits | shift_bits == alt_bits + shift_bits) by (bit_vector)
            requires
                alt_bits == 0 || alt_bits == 1,
                shift_bits == 0 || shift_bits == 4,
        ;
        assert(0u32 | shift_bits == shift_bits) by (bit_vector);
    }
    HotkeyRegistration { modifiers, key_code: hotkey.key as u32 }
}

/// The id under which the client registers its hotkey with Windows.
pub const HOTKEY_ID: i32 = 0x4349;

/// `windows_sys` `WM_HOTKEY`: the message of a pressed hotkey, 786.
#[verifier::external_body]
fn wm_hotkey() -> (m: u32)
    ensures
        m == 786,
{
    windows_sys::Win32::UI::WindowsAndMessaging::WM_HOTKEY
}

/// What the hotkey thread does after `GetMessageW`.
#[derive(Debug, Clone, Copy, PartialEq, Eq, Structural)]
pub enum HotkeyLoopStep {
    /// `GetMessageW` failed: the thread ends with an error.
    Fail,
    /// `WM_QUIT` arrived: the thread ends.
    Stop,
    /// The client's hotkey was pressed: run the upload.
    Trigger,
    /// Any other message: wait for the next one.
    Ignore,
}

/// Decides on one message of the hotkey thread, from what `GetMessageW`
/// returned (-1 for an error, 0 for `WM_QUIT`) and the message's number and
/// `wParam`.
pub fn hotkey_loop_step(get_message_result: i32, message: u32, wparam: usize) -> (s:
    HotkeyLoopStep)
    ensures
        s == if get_message_result == -1 {
            HotkeyLoopStep::Fail
        } else if get_message_result == 0 {
            HotkeyLoopStep::Stop
        } else if message == 786 && wparam == HOTKEY_ID {
            HotkeyLoopStep::Trigger
        } else {
            HotkeyLoopStep::Ignore
        },
{
    if get_message_result == -1 {
        HotkeyLoopStep::Fail
    } else if get_message_result == 0 {
        HotkeyLoopStep::Stop
    } else if message == wm_hotkey() && wparam == HOTKEY_ID as usize {
        HotkeyLoopStep::Trigger
    } else {
        HotkeyLoopStep::Ignore
    }
}

} // verus!
