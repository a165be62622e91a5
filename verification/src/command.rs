use vstd::prelude::*;

use crate::constants::{decimal, decimal_string};
use crate::input::{Key, KeyState};
use vstd::string::StringExecFns;

verus! {

/// Flight mode of the drone. `TookOff` is a helper mode of the controller:
/// the drone itself knows only the other four.
#[derive(Clone, Copy, Debug, PartialEq, Eq, Structural)]
pub enum DroneMode {
    Normal,
    TakingOff,
    Landing,
    TookOff,
    Abort,
}

/// One gamepad command: the four stick axes, the flight mode, and the
/// eight-byte packet last encoded from them by `update_array`.
pub struct Command {
    pub pitch: i8,
    pub yaw: i8,
    pub roll: i8,
    pub throttle: i8,
    pub mode: DroneMode,
    pub as_array: [u8; 8],
}

/// First byte of every command packet.
pub const PACKET_HEAD: u8 = 0x66;

/// Last byte of every command packet.
pub const PACKET_TAIL: u8 = 0x99;

/// The mode that follows `mode` when the take-off/landing key goes down
/// (`is_toggling`) or comes up.
pub open spec fn next_mode(mode: DroneMode, is_toggling: bool) -> DroneMode {
    match mode {
        DroneMode::Normal => if is_toggling { DroneMode::TakingOff } else { DroneMode::Normal },
        DroneMode::TakingOff => if is_toggling { DroneMode::TakingOff } else { DroneMode::TookOff },
        DroneMode::TookOff => if is_toggling { DroneMode::Landing } else { DroneMode::TookOff },
        DroneMode::Landing => if is_toggling { DroneMode::Landing } else { DroneMode::Normal },
        DroneMode::Abort => if is_toggling { DroneMode::Normal } else { DroneMode::Abort },
    }
}

/// The number of each mode.
pub open spec fn mode_number(mode: DroneMode) -> u8 {
    match mode {
        DroneMode::Normal => 0,
        DroneMode::TakingOff => 1,
        DroneMode::Landing => 2,
        DroneMode::TookOff => 3,
        DroneMode::Abort => 4,
    }
}

/// The mode byte sent to the drone: `TookOff` goes out as `Normal`.
pub open spec fn wire_mode(mode: DroneMode) -> u8 {
    if mode == DroneMode::TookOff {
        mode_number(DroneMode::Normal)
    } else {
        mode_number(mode)
    }
}

/// The byte of one stick axis: the value shifted by 127, modulo 256.
pub open spec fn axis_byte(value: i8) -> u8 {
    ((value + 127) % 256) as u8
}

/// The checksum of a packet: the exclusive or of its five payload bytes.
pub open spec fn checksum(roll: u8, pitch: u8, throttle: u8, yaw: u8, mode: u8) -> u8 {
    roll ^ pitch ^ throttle ^ yaw ^ mode
}

/// The packet that encodes a command: head, roll, pitch, throttle, yaw,
/// mode, checksum, tail.
pub open spec fn packet(pitch: i8, yaw: i8, roll: i8, throttle: i8, mode: DroneMode) -> Seq<u8> {
    seq![
        PACKET_HEAD,
        axis_byte(roll),
        axis_byte(pitch),
        axis_byte(throttle),
        axis_byte(yaw),
        wire_mode(mode),
        checksum(axis_byte(roll), axis_byte(pitch), axis_byte(throttle), axis_byte(yaw), wire_mode(mode)),
        PACKET_TAIL,
    ]
}

/// The stick deflection a key state asks for: full when pressed, none when released.
pub open spec fn key_value(state: KeyState) -> i8 {
    if state == KeyState::Pressed { 127 } else { 0 }
}

/// The command after one key event of the gamepad: the arrow keys drive
/// throttle and yaw, W/S pitch and D/A roll (up, right, W and D positive),
/// Space steps the flight mode and Escape aborts; other keys change nothing.
pub open spec fn after_key(cmd: Command, state: KeyState, key: Key) -> Command {
    let v = key_value(state);
    match key {
        Key::Up => Command { throttle: v, ..cmd },
        Key::Down => Command { throttle: (-v) as i8, ..cmd },
        Key::Right => Command { yaw: v, ..cmd },
        Key::Left => Command { yaw: (-v) as i8, ..cmd },
        Key::W => Command { pitch: v, ..cmd },
        Key::S => Command { pitch: (-v) as i8, ..cmd },
        Key::D => Command { roll: v, ..cmd },
        Key::A => Command { roll: (-v) as i8, ..cmd },
        Key::Space => Command { mode: next_mode(cmd.mode, state == KeyState::Pressed), ..cmd },
        Key::Escape => Command { mode: DroneMode::Abort, ..cmd },
        _ => cmd,
    }
}

/// The name of a mode.
pub open spec fn mode_name(mode: DroneMode) -> Seq<char> {
    match mode {
        DroneMode::Normal => "Normal"@,
        DroneMode::TakingOff => "TakingOff"@,
        DroneMode::Landing => "Landing"@,
        DroneMode::TookOff => "TookOff"@,
        DroneMode::Abort => "Abort"@,
    }
}

/// The decimal numeral of a signed value, with a minus sign when negative.
pub open spec fn signed_decimal(v: int) -> Seq<char> {
    if v < 0 {
        "-"@ + decimal((-v) as nat)
    } else {
        decimal(v as nat)
    }
}

/// The text that shows a command's axes and mode.
pub open spec fn description(cmd: Command) -> Seq<char> {
    "throttle: "@ + signed_decimal(cmd.throttle as int) + ", yaw: "@ + signed_decimal(cmd.yaw as int)
        + ", pitch: "@ + signed_decimal(cmd.pitch as int) + ", roll: "@ + signed_decimal(
        cmd.roll as int,
    ) + ", mode: "@ + mode_name(cmd.mode)
}

/// The decimal numeral of a stick value.
fn signed_decimal_string(v: i8) -> (r: String)
    ensures
        r@ == signed_decimal(v as int),
{
    if v < 0 {
        let magnitude: i16 = -(v as i16);
        let mut r = String::from_str("-");
        let digits = decimal_string(magnitude as usize);
        r.append(digits.as_str());
        r
    } else {
        decimal_string(v as usize)
    }
}

/// The name of a mode.
fn mode_name_str(mode: DroneMode) -> (r: &'static str)
    ensures
        r@ == mode_name(mode),
{
    match mode {
        DroneMode::Normal => "Normal",
        DroneMode::TakingOff => "TakingOff",
        DroneMode::Landing => "Landing",
        DroneMode::TookOff => "TookOff",
        DroneMode::Abort => "Abort",
    }
}

impl Command {
    /// One line that shows the command's axes and mode, as
    /// `throttle: 127, yaw: 0, pitch: -127, roll: 0, mode: TookOff`.
    pub fn describe(&self) -> (text: String)
        ensures
            text@ == description(*self),
    {
        let mut text = String::from_str("throttle: ");
        text.append(signed_decimal_string(self.throttle).as_str());
        text.append(", yaw: ");
        text.append(signed_decimal_string(self.yaw).as_str());
        text.append(", pitch: ");
        text.append(signed_decimal_string(self.pitch).as_str());
        text.append(", roll: ");
        text.append(signed_decimal_string(self.roll).as_str());
        text.append(", mode: ");
        text.append(mode_name_str(self.mode));
        text
    }

    /// The packet that `update_array` encodes from this command's axes and mode.
    pub open spec fn spec_packet(&self) -> Seq<u8> {
        packet(self.pitch, self.yaw, self.roll, self.throttle, self.mode)
    }

    /// A command at rest: all axes centred, mode `Normal`, packet all zero.
    pub fn new() -> (cmd: Command)
        ensures
            cmd.pitch == 0,
            cmd.yaw == 0,
            cmd.roll == 0,
            cmd.throttle == 0,
            cmd.mode == DroneMode::Normal,
            cmd.as_array@ == Seq::new(8, |i: int| 0u8),
    {
        let cmd = Command {
            throttle: 0,
            yaw: 0,
            pitch: 0,
            roll: 0,
            mode: DroneMode::Normal,
            as_array: [0; 8],
        };
        assert(cmd.as_array@ =~= Seq::new(8, |i: int| 0u8));
        cmd
    }

    /// Steps the flight mode on the take-off/landing key going down
    /// (`is_toggling`) or coming up.
    pub fn toggle_mode(&mut self, is_toggling: bool)
        ensures
            final(self).mode == next_mode(old(self).mode, is_toggling),
            final(self).pitch == old(self).pitch,
            final(self).yaw == old(self).yaw,
            final(self).roll == old(self).roll,
            final(self).throttle == old(self).throttle,
            final(self).as_array == old(self).as_array,
    {
        match self.mode {
            DroneMode::Normal => if is_toggling {
                self.mode = DroneMode::TakingOff
            },
            DroneMode::TakingOff => if is_toggling {
            } else {
                self.mode = DroneMode::TookOff
            },
            DroneMode::TookOff => if is_toggling {
                self.mode = DroneMode::Landing
            },
            DroneMode::Landing => if is_toggling {
            } else {
                self.mode = DroneMode::Normal
            },
            DroneMode::Abort => if is_toggling {
                self.mode = DroneMode::Normal
            },
        }
    }

    /// Encodes the axes and the mode into `as_array`:
    /// byte 0 is 0x66, bytes 1 to 4 are roll, pitch, throttle and yaw, byte 5
    /// the mode, byte 6 the checksum of bytes 1 to 5, byte 7 is 0x99.
    pub fn update_array(&mut self)
        ensures
            final(self).as_array@ == old(self).spec_packet(),
            final(self).pitch == old(self).pitch,
            final(self).yaw == old(self).yaw,
            final(self).roll == old(self).roll,
            final(self).throttle == old(self).throttle,
            final(self).mode == old(self).mode,
    {
        let roll = encode_axis(self.roll);
        let pitch = encode_axis(self.pitch);
        let throttle = encode_axis(self.throttle);
        let yaw = encode_axis(self.yaw);
        let mode = if self.mode == DroneMode::TookOff {
            mode_byte(DroneMode::Normal)
        } else {
            mode_byte(self.mode)
        };
        let sum = (roll ^ pitch ^ throttle ^ yaw ^ mode) & 0xFF;
        assert(sum == checksum(roll, pitch, throttle, yaw, mode)) by (bit_vector)
            requires
                sum == (roll ^ pitch ^ throttle ^ yaw ^ mode) & 0xFF,
        ;
        self.as_array = [PACKET_HEAD, roll, pitch, throttle, yaw, mode, sum, PACKET_TAIL];
        assert(self.as_array@ =~= old(self).spec_packet());
    }

    /// Applies one key event from the gamepad channel to the command.
    pub fn apply_key(&mut self, state: KeyState, key: Key)
        ensures
            *final(self) == after_key(*old(self), state, key),
    {
        let value: i8 = if state == KeyState::Pressed { 127 } else { 0 };
        match key {
            Key::Up => self.throttle = value,
            Key::Down => self.throttle = -value,
            Key::Right => self.yaw = value,
            Key::Left => self.yaw = -value,
            Key::W => self.pitch = value,
            Key::S => self.pitch = -value,
            Key::D => self.roll = value,
            Key::A => self.roll = -value,
            Key::Space => self.toggle_mode(state == KeyState::Pressed),
            Key::Escape => self.mode = DroneMode::Abort,
            _ => {},
        }
    }
}

/// Every packet checks itself: it is eight bytes framed by 0x66 and 0x99,
/// and the exclusive or of its five payload bytes and its checksum is zero.
pub proof fn lemma_packet_checks_itself(pitch: i8, yaw: i8, roll: i8, throttle: i8, mode: DroneMode)
    ensures
        packet(pitch, yaw, roll, throttle, mode).len() == 8,
        packet(pitch, yaw, roll, throttle, mode)[0] == PACKET_HEAD,
        packet(pitch, yaw, roll, throttle, mode)[7] == PACKET_TAIL,
        ({
            let p = packet(pitch, yaw, roll, throttle, mode);
            p[1] ^ p[2] ^ p[3] ^ p[4] ^ p[5] ^ p[6] == 0u8
        }),
{
    let a = axis_byte(roll);
    let b = axis_byte(pitch);
    let c = axis_byte(throttle);
    let d = axis_byte(yaw);
    let e = wire_mode(mode);
    assert(a ^ b ^ c ^ d ^ e ^ (a ^ b ^ c ^ d ^ e) == 0u8) by (bit_vector);
}

/// Stick encoding: a deflection from -127 to 127 goes out as the deflection
/// plus 127 (full down 0, centre 127, full up 254); -128 wraps to 255.
pub proof fn lemma_axis_encoding(value: i8)
    ensures
        -127 <= value ==> axis_byte(value) == value + 127,
        value == -128 ==> axis_byte(value) == 255,
{
}

/// Distinct stick deflections give distinct bytes.
pub proof fn lemma_axis_injective(a: i8, b: i8)
    ensures
        axis_byte(a) == axis_byte(b) ==> a == b,
{
}

/// The drone never sees the helper mode: the mode byte is that of the mode
/// itself, except that `TookOff` goes out as `Normal`, so it is never 3.
pub proof fn lemma_wire_mode(mode: DroneMode)
    ensures
        wire_mode(mode) != mode_number(DroneMode::TookOff),
        wire_mode(mode) <= 4,
        mode != DroneMode::TookOff ==> wire_mode(mode) == mode_number(mode),
        mode == DroneMode::TookOff ==> wire_mode(mode) == 0,
{
}

/// One full stroke of the take-off/landing key (down, then up): a drone on
/// the ground or taking off is then airborne (`TookOff`); one that is airborne
/// or landing, or aborted, is then back to `Normal`.
pub proof fn lemma_key_stroke(mode: DroneMode)
    ensures
        next_mode(next_mode(mode, true), false) == (match mode {
            DroneMode::Normal => DroneMode::TookOff,
            DroneMode::TakingOff => DroneMode::TookOff,
            DroneMode::TookOff => DroneMode::Normal,
            DroneMode::Landing => DroneMode::Normal,
            DroneMode::Abort => DroneMode::Normal,
        }),
{
}

/// A repeated key state is absorbed: a second release, or a second press,
/// changes nothing, except that a press out of `Abort` is a new press from
/// `Normal`.
pub proof fn lemma_repeat_absorbed(mode: DroneMode, is_toggling: bool)
    requires
        !(mode == DroneMode::Abort && is_toggling),
    ensures
        next_mode(next_mode(mode, is_toggling), is_toggling) == next_mode(mode, is_toggling),
{
}

/// A stick key pressed gives full deflection in its direction; released, it
/// centres its axis; the other axes and the mode stay as they were.
pub proof fn lemma_stick_keys(cmd: Command, state: KeyState, key: Key)
    requires
        key == Key::Up || key == Key::Down || key == Key::Left || key == Key::Right || key == Key::W
            || key == Key::S || key == Key::D || key == Key::A,
    ensures
        ({
            let c = after_key(cmd, state, key);
            let v: int = if state == KeyState::Pressed { 127 } else { 0 };
            &&& c.mode == cmd.mode
            &&& c.throttle == (if key == Key::Up { v } else if key == Key::Down { -v } else { cmd.throttle as int })
            &&& c.yaw == (if key == Key::Right { v } else if key == Key::Left { -v } else { cmd.yaw as int })
            &&& c.pitch == (if key == Key::W { v } else if key == Key::S { -v } else { cmd.pitch as int })
            &&& c.roll == (if key == Key::D { v } else if key == Key::A { -v } else { cmd.roll as int })
        }),
{
}

/// Space steps the flight mode exactly as the take-off/landing key does, in
/// every mode, `Abort` included, and touches nothing else: pressed, it
/// takes Normal to TakingOff, TookOff to Landing and Abort to Normal;
/// released, it takes TakingOff to TookOff and Landing to Normal; every
/// other case keeps the mode.
pub proof fn lemma_space_key(cmd: Command, state: KeyState)
    ensures
        after_key(cmd, state, Key::Space).throttle == cmd.throttle,
        after_key(cmd, state, Key::Space).yaw == cmd.yaw,
        after_key(cmd, state, Key::Space).pitch == cmd.pitch,
        after_key(cmd, state, Key::Space).roll == cmd.roll,
        after_key(cmd, state, Key::Space).as_array == cmd.as_array,
        state == KeyState::Pressed ==> after_key(cmd, state, Key::Space).mode == (match cmd.mode {
            DroneMode::Normal => DroneMode::TakingOff,
            DroneMode::TakingOff => DroneMode::TakingOff,
            DroneMode::TookOff => DroneMode::Landing,
            DroneMode::Landing => DroneMode::Landing,
            DroneMode::Abort => DroneMode::Normal,
        }),
        state == KeyState::Released ==> after_key(cmd, state, Key::Space).mode == (match cmd.mode {
            DroneMode::Normal => DroneMode::Normal,
            DroneMode::TakingOff => DroneMode::TookOff,
            DroneMode::TookOff => DroneMode::TookOff,
            DroneMode::Landing => DroneMode::Normal,
            DroneMode::Abort => DroneMode::Abort,
        }),
        after_key(cmd, state, Key::Space).mode == next_mode(cmd.mode, state == KeyState::Pressed),
{
}

/// Roles of the two edges of the take-off/landing key: a press starts a
/// transition (it moves Normal, TookOff and Abort, and leaves TakingOff and
/// Landing as they are); a release completes one (it moves TakingOff and
/// Landing, and leaves Normal, TookOff and Abort as they are). A press never
/// lands in TookOff and a release never lands in TakingOff or Landing.
pub proof fn lemma_key_edges(mode: DroneMode)
    ensures
        (mode == DroneMode::Normal || mode == DroneMode::TookOff || mode == DroneMode::Abort) ==> (
        next_mode(mode, true) != mode && next_mode(mode, false) == mode),
        (mode == DroneMode::TakingOff || mode == DroneMode::Landing) ==> (next_mode(mode, true)
            == mode && next_mode(mode, false) != mode),
        next_mode(mode, true) != DroneMode::TookOff,
        next_mode(mode, false) != DroneMode::TakingOff && next_mode(mode, false) != DroneMode::Landing,
{
}

/// Where each value goes in the packet: for stick values from -127 to 127,
/// byte 1 is roll + 127, byte 2 pitch + 127, byte 3 throttle + 127, byte 4
/// yaw + 127, byte 5 the mode number (Normal 0, TakingOff 1, Landing 2,
/// Abort 4, TookOff sent as 0) and byte 6 the xor of bytes 1 to 5.
pub proof fn lemma_packet_layout(pitch: i8, yaw: i8, roll: i8, throttle: i8, mode: DroneMode)
    requires
        -127 <= pitch,
        -127 <= yaw,
        -127 <= roll,
        -127 <= throttle,
    ensures
        ({
            let p = packet(pitch, yaw, roll, throttle, mode);
            &&& p.len() == 8
            &&& p[0] == 0x66
            &&& p[1] == roll + 127
            &&& p[2] == pitch + 127
            &&& p[3] == throttle + 127
            &&& p[4] == yaw + 127
            &&& p[5] == (match mode {
                DroneMode::Normal => 0u8,
                DroneMode::TakingOff => 1u8,
                DroneMode::Landing => 2u8,
                DroneMode::TookOff => 0u8,
                DroneMode::Abort => 4u8,
            })
            &&& p[6] == p[1] ^ p[2] ^ p[3] ^ p[4] ^ p[5]
            &&& p[7] == 0x99
        }),
{
}

/// Keys other than the arrows, W, S, D, A, Space and Escape change nothing.
pub proof fn lemma_unmapped_keys(cmd: Command, state: KeyState, key: Key)
    requires
        key == Key::Key0 || key is Other,
    ensures
        after_key(cmd, state, key) == cmd,
{
}

/// Escape aborts whatever the mode, and leaves the sticks as they were.
pub proof fn lemma_escape_aborts(cmd: Command, state: KeyState)
    ensures
        after_key(cmd, state, Key::Escape).mode == DroneMode::Abort,
        after_key(cmd, state, Key::Escape).throttle == cmd.throttle,
        after_key(cmd, state, Key::Escape).yaw == cmd.yaw,
        after_key(cmd, state, Key::Escape).pitch == cmd.pitch,
        after_key(cmd, state, Key::Escape).roll == cmd.roll,
{
}

/// The number of a mode.
fn mode_byte(mode: DroneMode) -> (b: u8)
    ensures
        b == mode_number(mode),
{
    match mode {
        DroneMode::Normal => 0,
        DroneMode::TakingOff => 1,
        DroneMode::Landing => 2,
        DroneMode::TookOff => 3,
        DroneMode::Abort => 4,
    }
}

/// The byte of one stick axis.
fn encode_axis(value: i8) -> (b: u8)
    ensures
        b == axis_byte(value),
{
    if value >= 0 {
        (value as u8) + 127
    } else {
        let shifted: i8 = value + 127;
        let b = shifted as u8;
        assert(b == ((value + 127) % 256) as u8) by (bit_vector)
            requires
                shifted == value + 127,
                b == shifted as u8,
                value < 0,
        ;
        b
    }
}

} // verus!
