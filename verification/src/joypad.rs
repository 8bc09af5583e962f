use vstd::prelude::*;

verus! {

// Keys are active-low: a pressed key reads as 0, a released one as 1.
/// Only bits 4 and 5 of JOYP select a key line.
pub const SELECT_MASK: u8 = 0b110000;
/// Bit 5 low selects the action buttons.
pub const SELECT_BUTTONS: u8 = 0b100000;
/// Bit 4 low selects the direction pad.
pub const SELECT_DPAD: u8 = 0b10000;
/// Only bits 0-3 carry key states.
pub const INPUT_MASK: u8 = 0x0F;

#[derive(Debug, Copy, Clone, PartialEq, Eq, Structural)]
pub enum UserInput {
    A,
    B,
    Start,
    Select,
    Up,
    Down,
    Left,
    Right,
}

impl UserInput {
    /// Whether the key sits on the action-button line (else on the direction line).
    pub open spec fn is_button(self) -> bool {
        match self {
            UserInput::A | UserInput::B | UserInput::Select | UserInput::Start => true,
            _ => false,
        }
    }

    /// The key's bit within its line.
    pub open spec fn line_bit(self) -> u8 {
        match self {
            UserInput::Right | UserInput::A => 0x01,
            UserInput::Left | UserInput::B => 0x02,
            UserInput::Up | UserInput::Select => 0x04,
            UserInput::Down | UserInput::Start => 0x08,
        }
    }

    /// The key's bit in the joypad's key byte: directions in bits 0-3, buttons in bits 4-7.
    pub open spec fn key_mask(self) -> u8 {
        if self.is_button() {
            (self.line_bit() * 16) as u8
        } else {
            self.line_bit()
        }
    }
}

/// The joypad as plain values.
pub ghost struct JoypadState {
    /// Line selection bits (only bits 4 and 5 are used).
    pub select: u8,
    /// Key states, active-low: directions in bits 0-3, buttons in bits 4-7.
    pub keys: u8,
}

impl JoypadState {
    /// The byte read from JOYP: bits 6-7 read as 1, bits 4-5 are the selection, bits 0-3
    /// the selected line(s) (ANDed when both are selected, all 1 when none is).
    pub open spec fn read_spec(self) -> u8 {
        let sel = self.select & SELECT_MASK;
        let dpad = self.keys & INPUT_MASK;
        let buttons = (self.keys >> 4u8) & INPUT_MASK;
        let dpad_on = sel & SELECT_DPAD == 0;
        let buttons_on = sel & SELECT_BUTTONS == 0;
        let lower = if dpad_on && buttons_on {
            dpad & buttons
        } else if dpad_on {
            dpad
        } else if buttons_on {
            buttons
        } else {
            INPUT_MASK
        };
        0xC0u8 | sel | (lower & INPUT_MASK)
    }

    /// Whether the key is currently held down.
    pub open spec fn is_down(self, input: UserInput) -> bool {
        self.keys & input.key_mask() == 0
    }
}

pub struct Joypad {
    select: u8,
    keys: u8,
}

impl View for Joypad {
    type V = JoypadState;

    closed spec fn view(&self) -> JoypadState {
        JoypadState { select: self.select, keys: self.keys }
    }
}

proof fn lemma_line_update(keys: u8, input: u8, bit: u8) by (bit_vector)
    requires
        bit == 1 || bit == 2 || bit == 4 || bit == 8,
    ensures
        (keys & INPUT_MASK) | (((((keys >> 4u8) & INPUT_MASK) & !bit) & INPUT_MASK) << 4u8) == keys
            & !((bit * 16) as u8),
        (keys & 0xF0u8) | ((keys & INPUT_MASK & !bit) & INPUT_MASK) == keys & !bit,
        (keys & INPUT_MASK) | (((((keys >> 4u8) & INPUT_MASK) | bit) & INPUT_MASK) << 4u8) == keys
            | ((bit * 16) as u8),
        (keys & 0xF0u8) | (((keys & INPUT_MASK) | bit) & INPUT_MASK) == keys | bit,
{
}

impl Joypad {
    pub fn new() -> (r: Self)
        ensures
            r@ == (JoypadState { select: SELECT_MASK, keys: 0xFF }),
    {
        Joypad { select: SELECT_MASK, keys: 0xFF }
    }

    /// Write to JOYP: only bits 4 and 5 have effect.
    pub fn write(&mut self, value: u8)
        ensures
            final(self)@ == (JoypadState { select: value & SELECT_MASK, ..old(self)@ }),
    {
        self.select = value & SELECT_MASK;
    }

    /// Replaces the action-button line with the low nibble of `input`.
    pub fn set_buttons(&mut self, input: u8)
        ensures
            final(self)@ == (JoypadState {
                keys: (old(self)@.keys & INPUT_MASK) | ((input & INPUT_MASK) << 4u8),
                ..old(self)@
            }),
    {
        self.keys = (self.keys & INPUT_MASK) | ((input & INPUT_MASK) << 4);
    }

    /// Replaces the direction line with the low nibble of `input`.
    pub fn set_dpad(&mut self, input: u8)
        ensures
            final(self)@ == (JoypadState {
                keys: (old(self)@.keys & 0xF0u8) | (input & INPUT_MASK),
                ..old(self)@
            }),
    {
        self.keys = (self.keys & 0xF0) | (input & INPUT_MASK);
    }

    pub fn read(&self) -> (r: u8)
        ensures
            r == self@.read_spec(),
    {
        let sel = self.select & SELECT_MASK;
        let dpad = self.keys & INPUT_MASK;
        let buttons = (self.keys >> 4) & INPUT_MASK;

        let lower = match ((sel & SELECT_DPAD) == 0, (sel & SELECT_BUTTONS) == 0) {
            (true, true) => dpad & buttons,
            (true, false) => dpad,
            (false, true) => buttons,
            (false, false) => INPUT_MASK,
        };

        0xC0 | sel | (lower & INPUT_MASK)
    }

    fn key_line_bit(input: UserInput) -> (r: (bool, u8))
        ensures
            r == (input.is_button(), input.line_bit()),
    {
        match input {
            UserInput::Right => (false, 0x01),
            UserInput::Left => (false, 0x02),
            UserInput::Up => (false, 0x04),
            UserInput::Down => (false, 0x08),
            UserInput::A => (true, 0x01),
            UserInput::B => (true, 0x02),
            UserInput::Select => (true, 0x04),
            UserInput::Start => (true, 0x08),
        }
    }

    /// Marks the key as held down (its bit goes low); nothing else changes.
    pub fn press_button(&mut self, input: UserInput)
        ensures
            final(self)@ == (JoypadState {
                keys: old(self)@.keys & !input.key_mask(),
                ..old(self)@
            }),
    {
        let (is_buttons, bit) = Self::key_line_bit(input);
        proof {
            lemma_line_update(self.keys, 0, bit);
        }
        if is_buttons {
            let mut line = (self.keys >> 4) & INPUT_MASK;
            line = line & !bit;
            self.set_buttons(line);
        } else {
            let mut line = self.keys & INPUT_MASK;
            line = line & !bit;
            self.set_dpad(line);
        }
    }

    /// Marks the key as released (its bit goes high); nothing else changes.
    pub fn release_button(&mut self, input: UserInput)
        ensures
            final(self)@ == (JoypadState {
                keys: old(self)@.keys | input.key_mask(),
                ..old(self)@
            }),
    {
        let (is_buttons, bit) = Self::key_line_bit(input);
        proof {
            lemma_line_update(self.keys, 0, bit);
        }
        if is_buttons {
            let mut line = (self.keys >> 4) & INPUT_MASK;
            line = line | bit;
            self.set_buttons(line);
        } else {
            let mut line = self.keys & INPUT_MASK;
            line = line | bit;
            self.set_dpad(line);
        }
    }
}

proof fn lemma_mask_ops(keys: u8, m: u8, n: u8) by (bit_vector)
    requires
        m == 1 || m == 2 || m == 4 || m == 8 || m == 16 || m == 32 || m == 64 || m == 128,
        n == 1 || n == 2 || n == 4 || n == 8 || n == 16 || n == 32 || n == 64 || n == 128,
    ensures
        (keys & !m) & m == 0,
        (keys | m) & m != 0,
        m != n ==> ((keys & !m) & n == 0) == (keys & n == 0),
        m != n ==> ((keys | m) & n == 0) == (keys & n == 0),
        (keys & m == 0) ==> (keys & !m) | m == keys | m,
        (keys & m != 0) ==> (keys & !m) | m == keys,
{
}

proof fn lemma_key_masks(i: UserInput)
    ensures
        i.key_mask() == 1 || i.key_mask() == 2 || i.key_mask() == 4 || i.key_mask() == 8
            || i.key_mask() == 16 || i.key_mask() == 32 || i.key_mask() == 64 || i.key_mask()
            == 128,
{
}

/// Pressing a key makes it read as down and leaves every other key as it was;
/// releasing it makes it read as up, again touching no other key; and pressing then
/// releasing a key that was up restores the joypad exactly.
pub proof fn lemma_press_release(s: JoypadState, i: UserInput, other: UserInput)
    ensures
        (JoypadState { keys: s.keys & !i.key_mask(), ..s }).is_down(i),
        !(JoypadState { keys: s.keys | i.key_mask(), ..s }).is_down(i),
        other != i ==> (JoypadState { keys: s.keys & !i.key_mask(), ..s }).is_down(other)
            == s.is_down(other),
        other != i ==> (JoypadState { keys: s.keys | i.key_mask(), ..s }).is_down(other)
            == s.is_down(other),
        !s.is_down(i) ==> (JoypadState { keys: (s.keys & !i.key_mask()) | i.key_mask(), ..s })
            == s,
{
    lemma_key_masks(i);
    lemma_key_masks(other);
    if other != i {
        assert(other.key_mask() != i.key_mask());
    }
    lemma_mask_ops(s.keys, i.key_mask(), other.key_mask());
}

/// With only the direction line selected JOYP reads the direction keys, with only the
/// button line selected it reads the buttons; a selected key reads 0 exactly when it is
/// held down; bits 6 and 7 always read 1.
pub proof fn lemma_read_selected_line(s: JoypadState, i: UserInput)
    ensures
        s.select & SELECT_MASK == SELECT_BUTTONS ==> s.read_spec() & INPUT_MASK == s.keys & INPUT_MASK,
        s.select & SELECT_MASK == SELECT_DPAD ==> s.read_spec() & INPUT_MASK == s.keys >> 4u8,
        s.select & SELECT_MASK == SELECT_BUTTONS && !i.is_button() ==> (s.read_spec() & i.line_bit()
            == 0 <==> s.is_down(i)),
        s.select & SELECT_MASK == SELECT_DPAD && i.is_button() ==> (s.read_spec() & i.line_bit()
            == 0 <==> s.is_down(i)),
        s.read_spec() & 0xC0 == 0xC0,
{
    lemma_read_bits(s.select, s.keys, i.line_bit());
}

proof fn lemma_read_bits(select: u8, keys: u8, bit: u8) by (bit_vector)
    requires
        bit == 1 || bit == 2 || bit == 4 || bit == 8,
    ensures
        ({
            let sel = select & SELECT_MASK;
            let dpad = keys & INPUT_MASK;
            let buttons = (keys >> 4u8) & INPUT_MASK;
            let dpad_on = sel & SELECT_DPAD == 0;
            let buttons_on = sel & SELECT_BUTTONS == 0;
            let lower = if dpad_on && buttons_on {
                dpad & buttons
            } else if dpad_on {
                dpad
            } else if buttons_on {
                buttons
            } else {
                INPUT_MASK
            };
            let r = 0xC0u8 | sel | (lower & INPUT_MASK);
            &&& sel == SELECT_BUTTONS ==> r & INPUT_MASK == keys & INPUT_MASK
            &&& sel == SELECT_DPAD ==> r & INPUT_MASK == keys >> 4u8
            &&& sel == SELECT_BUTTONS ==> (r & bit == 0 <==> keys & bit == 0)
            &&& sel == SELECT_DPAD ==> (r & bit == 0 <==> keys & ((bit * 16) as u8) == 0)
            &&& r & 0xC0 == 0xC0
        }),
{
}

/// JOYP as read for a selection byte and a key byte (see `JoypadState::read_spec`).
spec fn joyp_value(select: u8, keys: u8) -> u8 {
    let sel = select & SELECT_MASK;
    let dpad = keys & INPUT_MASK;
    let buttons = (keys >> 4u8) & INPUT_MASK;
    let dpad_on = sel & SELECT_DPAD == 0;
    let buttons_on = sel & SELECT_BUTTONS == 0;
    let lower = if dpad_on && buttons_on {
        dpad & buttons
    } else if dpad_on {
        dpad
    } else if buttons_on {
        buttons
    } else {
        INPUT_MASK
    };
    0xC0u8 | sel | (lower & INPUT_MASK)
}

proof fn lemma_press_bits(select: u8, keys: u8, b: u8, m: u8) by (bit_vector)
    requires
        b == 1 || b == 2 || b == 4 || b == 8,
        m == b || m == b * 16,
    ensures
        select & 0x30 == 0x20 && m == b ==> joyp_value(select, keys & !m) == joyp_value(select, keys) & !b,
        select & 0x30 == 0x20 && m != b ==> joyp_value(select, keys & !m) == joyp_value(select, keys),
        select & 0x30 == 0x10 && m != b ==> joyp_value(select, keys & !m) == joyp_value(select, keys) & !b,
        select & 0x30 == 0x10 && m == b ==> joyp_value(select, keys & !m) == joyp_value(select, keys),
{
}

/// Pressing a key clears its JOYP bit while its line is selected, and the keys sit
/// where the hardware puts them: Right, Left, Up, Down on bits 0, 1, 2, 3 of the
/// direction line (selected by writing bit 4 low) and A, B, Select, Start on bits 0, 1,
/// 2, 3 of the button line (selected by writing bit 5 low). A key of the line that is
/// not selected does not show.
pub proof fn lemma_press_clears_joyp_bit(s: JoypadState)
    ensures
        ({
            let dpad = s.select & SELECT_MASK == 0x20;
            let buttons = s.select & SELECT_MASK == 0x10;
            let pressed = |i: UserInput| (JoypadState { keys: s.keys & !i.key_mask(), ..s }).read_spec();
            let r = s.read_spec();
            &&& dpad ==> pressed(UserInput::Right) == r & !0x01u8
            &&& dpad ==> pressed(UserInput::Left) == r & !0x02u8
            &&& dpad ==> pressed(UserInput::Up) == r & !0x04u8
            &&& dpad ==> pressed(UserInput::Down) == r & !0x08u8
            &&& dpad ==> pressed(UserInput::A) == r && pressed(UserInput::B) == r
                && pressed(UserInput::Select) == r && pressed(UserInput::Start) == r
            &&& buttons ==> pressed(UserInput::A) == r & !0x01u8
            &&& buttons ==> pressed(UserInput::B) == r & !0x02u8
            &&& buttons ==> pressed(UserInput::Select) == r & !0x04u8
            &&& buttons ==> pressed(UserInput::Start) == r & !0x08u8
            &&& buttons ==> pressed(UserInput::Right) == r && pressed(UserInput::Left) == r
                && pressed(UserInput::Up) == r && pressed(UserInput::Down) == r
        }),
{
    let all = seq![
        UserInput::Right, UserInput::Left, UserInput::Up, UserInput::Down,
        UserInput::A, UserInput::B, UserInput::Select, UserInput::Start,
    ];
    assert forall|k: int| 0 <= k < 8 implies ({
        let i = #[trigger] all[k];
        &&& (JoypadState { keys: s.keys & !i.key_mask(), ..s }).read_spec() == joyp_value(s.select, s.keys & !i.key_mask())
        &&& s.read_spec() == joyp_value(s.select, s.keys)
    }) by {}
    lemma_press_bits(s.select, s.keys, 1, 1);
    lemma_press_bits(s.select, s.keys, 2, 2);
    lemma_press_bits(s.select, s.keys, 4, 4);
    lemma_press_bits(s.select, s.keys, 8, 8);
    lemma_press_bits(s.select, s.keys, 1, 16);
    lemma_press_bits(s.select, s.keys, 2, 32);
    lemma_press_bits(s.select, s.keys, 4, 64);
    lemma_press_bits(s.select, s.keys, 8, 128);
}

} // verus!
