//! The GPIO pin configuration: which function each pin has and how its internal resistor pulls.
//!
//! The GPIO registers hold one field per pin, packed into 32-bit words. A setting of one pin is a
//! read-modify-write of one word: the field of the pin is cleared and the new setting is placed
//! there. This module computes which word that is and what it becomes; reading and writing the
//! memory-mapped word is left to the caller.
use vstd::prelude::*;

verus! {

/// Number of GPIO pins.
pub const NUM_PINS: u8 = 58;

/// Word offset of the function select registers.
pub const FUNCTION_SELECT_OFFSET: usize = 0;

/// Width in bits of a function select field.
pub const FUNCTION_SELECT_WIDTH: u8 = 3;

/// Word offset of the pull-up/down registers, which start at byte offset 0xE4.
pub const PULL_OFFSET: usize = 0x39;

/// Width in bits of a pull-up/down field.
pub const PULL_WIDTH: u8 = 2;

/// Selects functionality for a GPIO pin.
#[derive(Clone, Copy, Debug, PartialEq, Eq, Structural)]
pub enum FunctionSelect {
    Input,
    Output,
    Alt0,
    Alt1,
    Alt2,
    Alt3,
    Alt4,
    Alt5,
}

/// The field value that selects each function.
pub open spec fn function_bits(function: FunctionSelect) -> u8 {
    match function {
        FunctionSelect::Input => 0b000,
        FunctionSelect::Output => 0b001,
        FunctionSelect::Alt0 => 0b100,
        FunctionSelect::Alt1 => 0b101,
        FunctionSelect::Alt2 => 0b110,
        FunctionSelect::Alt3 => 0b111,
        FunctionSelect::Alt4 => 0b011,
        FunctionSelect::Alt5 => 0b010,
    }
}

impl FunctionSelect {
    /// The field value that selects this function.
    pub fn into_bits(self) -> (r: u8)
        ensures
            r == function_bits(self),
    {
        match self {
            FunctionSelect::Input => 0b000,
            FunctionSelect::Output => 0b001,
            FunctionSelect::Alt0 => 0b100,
            FunctionSelect::Alt1 => 0b101,
            FunctionSelect::Alt2 => 0b110,
            FunctionSelect::Alt3 => 0b111,
            FunctionSelect::Alt4 => 0b011,
            FunctionSelect::Alt5 => 0b010,
        }
    }
}

/// Sets the pull of the internal resistors for a GPIO pin.
#[derive(Clone, Copy, Debug, PartialEq, Eq, Structural)]
pub enum Pull {
    Off,
    Up,
    Down,
}

/// The field value that selects each pull.
pub open spec fn pull_bits(pull: Pull) -> u8 {
    match pull {
        Pull::Off => 0b00,
        Pull::Up => 0b01,
        Pull::Down => 0b10,
    }
}

impl Pull {
    /// The field value that selects this pull.
    pub fn into_bits(self) -> (r: u8)
        ensures
            r == pull_bits(self),
    {
        match self {
            Pull::Off => 0b00,
            Pull::Up => 0b01,
            Pull::Down => 0b10,
        }
    }
}

/// The number of fields of `width` bits that one 32-bit word holds.
pub open spec fn fields_per_word(width: u8) -> int {
    32int / (width as int)
}

/// The index, counted in words from the start of the register block, of the word that holds
/// the field of `pin` in the registers at word offset `base_offset`.
pub open spec fn field_word(base_offset: usize, pin: u8, width: u8) -> int {
    base_offset + (pin as int) / fields_per_word(width)
}

/// The bit position of the field of `pin` within its word.
pub open spec fn field_shift(pin: u8, width: u8) -> int {
    ((pin as int) % fields_per_word(width)) * (width as int)
}

/// The mask of the low `width` bits of a word, for a width of 1 to 32.
pub open spec fn field_mask(width: u32) -> u32 {
    u32::MAX >> ((32 - width) as u32)
}

/// `word` with the `width`-bit field at `shift` cleared and `value` placed at `shift`.
pub open spec fn with_field(word: u32, shift: u32, width: u32, value: u32) -> u32 {
    (word & !(field_mask(width) << shift)) | (value << shift)
}

/// One read-modify-write of a GPIO register word.
#[derive(Clone, Copy, Debug, PartialEq, Eq, Structural)]
pub struct FieldWrite {
    /// Index of the word, counted in 32-bit words from the start of the register block.
    pub word: usize,
    /// Bit position of the field within the word.
    pub shift: u32,
    /// Width of the field in bits.
    pub width: u32,
    /// The value placed in the field.
    pub value: u32,
}

impl FieldWrite {
    /// The word after the write, given the word before it.
    pub fn apply(&self, old: u32) -> (r: u32)
        requires
            1 <= self.width <= 32,
            self.shift + self.width <= 32,
        ensures
            r == with_field(old, self.shift, self.width, self.value),
    {
        let mask: u32 = u32::MAX >> (32 - self.width);
        (old & !(mask << self.shift)) | (self.value << self.shift)
    }
}

/// The write that sets the `field_width`-bit field of `pin` in the registers at word offset
/// `base_offset` to `value`.
///
/// `value` is placed as it is: bits of it beyond the field's width spill into the neighbouring
/// fields.
pub fn set_field(base_offset: usize, pin: u8, field_width: u8, value: u8) -> (r: FieldWrite)
    requires
        pin < NUM_PINS,
        1 <= field_width <= 32,
        base_offset + NUM_PINS <= usize::MAX,
    ensures
        r.word == field_word(base_offset, pin, field_width),
        r.shift == field_shift(pin, field_width),
        r.width == field_width,
        r.value == value,
        r.shift + r.width <= 32,
{
    let fields_per_u32: u8 = 32u8 / field_width;
    assert(fields_per_u32 >= 1) by (nonlinear_arith)
        requires
            fields_per_u32 == 32int / (field_width as int),
            1 <= field_width <= 32,
    ;
    let register_index: u8 = pin / fields_per_u32;
    let within: u8 = pin % fields_per_u32;
    assert(within * field_width <= 32 - field_width) by (nonlinear_arith)
        requires
            within < fields_per_u32,
            fields_per_u32 == 32int / (field_width as int),
            1 <= field_width <= 32,
    ;
    let register_offset: u8 = within * field_width;
    FieldWrite {
        word: base_offset + register_index as usize,
        shift: register_offset as u32,
        width: field_width as u32,
        value: value as u32,
    }
}

/// A driver to control GPIO pin functionality.
pub struct Gpio {
    base_address: usize,
}

impl Gpio {
    /// The address of the first GPIO register.
    pub closed spec fn spec_base_address(&self) -> usize {
        self.base_address
    }

    /// Creates a driver for the GPIO registers at `base_address`.
    ///
    /// Returns `None` if the address is not aligned for 32-bit words.
    pub fn new(base_address: usize) -> (r: Option<Self>)
        requires
            base_address != 0,
        ensures
            r is Some <==> base_address % 4 == 0,
            r matches Some(g) ==> g.spec_base_address() == base_address,
    {
        if base_address % 4 != 0 {
            return None;
        }
        Some(Gpio { base_address })
    }

    /// The address of the first GPIO register.
    pub fn base_address(&self) -> (r: usize)
        ensures
            r == self.spec_base_address(),
    {
        self.base_address
    }

    /// The address of the register word with index `word`.
    pub fn word_address(&self, word: usize) -> (r: usize)
        requires
            self.spec_base_address() + 4 * word <= usize::MAX,
        ensures
            r == self.spec_base_address() + 4 * word,
    {
        self.base_address + 4 * word
    }

    /// The write that selects `function` for `pin`.
    pub fn select_function(&self, pin: u8, function: FunctionSelect) -> (r: FieldWrite)
        requires
            pin < NUM_PINS,
        ensures
            r.word == field_word(FUNCTION_SELECT_OFFSET, pin, FUNCTION_SELECT_WIDTH),
            r.shift == field_shift(pin, FUNCTION_SELECT_WIDTH),
            r.width == FUNCTION_SELECT_WIDTH,
            r.value == function_bits(function),
            r.shift + r.width <= 32,
    {
        set_field(FUNCTION_SELECT_OFFSET, pin, FUNCTION_SELECT_WIDTH, function.into_bits())
    }

    /// The write that selects `pull` for `pin`.
    pub fn select_pull(&self, pin: u8, pull: Pull) -> (r: FieldWrite)
        requires
            pin < NUM_PINS,
        ensures
            r.word == field_word(PULL_OFFSET, pin, PULL_WIDTH),
            r.shift == field_shift(pin, PULL_WIDTH),
            4 * r.word == 0xE4 + 4 * ((pin as int) / 16),
            r.width == PULL_WIDTH,
            r.value == pull_bits(pull),
            r.shift + r.width <= 32,
    {
        set_field(PULL_OFFSET, pin, PULL_WIDTH, pull.into_bits())
    }
}

/// A field write whose value fits its field sets exactly that field: reading the field back
/// gives the value, and every bit outside the field keeps its old value.
pub proof fn law_field_write_sets_only_its_field(old: u32, shift: u32, width: u32, value: u32)
    requires
        1 <= width <= 32,
        shift + width <= 32,
        value <= field_mask(width),
    ensures
        (with_field(old, shift, width, value) >> shift) & field_mask(width) == value,
        with_field(old, shift, width, value) & !(field_mask(width) << shift) == old & !(field_mask(
            width,
        ) << shift),
{
    let m = field_mask(width);
    assert((((old & !(m << shift)) | (value << shift)) >> shift) & m == value) by (bit_vector)
        requires
            1 <= width <= 32,
            shift + width <= 32,
            m == u32::MAX >> ((32 - width) as u32),
            value <= m,
    ;
    assert(((old & !(m << shift)) | (value << shift)) & !(m << shift) == old & !(m << shift))
        by (bit_vector)
        requires
            1 <= width <= 32,
            shift + width <= 32,
            m == u32::MAX >> ((32 - width) as u32),
            value <= m,
    ;
}

/// Every function and pull setting fits its field.
pub proof fn law_settings_fit_their_fields(function: FunctionSelect, pull: Pull)
    ensures
        function_bits(function) <= field_mask(FUNCTION_SELECT_WIDTH as u32),
        pull_bits(pull) <= field_mask(PULL_WIDTH as u32),
{
    assert(u32::MAX >> 29u32 == 7) by (bit_vector);
    assert(u32::MAX >> 30u32 == 3) by (bit_vector);
}

} // verus!
