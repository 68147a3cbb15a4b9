//! The property interface of the VideoCore mailbox, used here for clock rates.
//!
//! A request is a buffer of 32-bit words in memory: its size, a request code, one tag with its
//! value buffer, and an end tag. The buffer's address, which must be 16-byte aligned and fit in
//! 32 bits, is posted to the mailbox together with the channel number; the firmware answers
//! with the same word once it has written its response into the buffer. This module builds the
//! buffers, the posted word, and reads the responses; the memory-mapped accesses are left to the
//! caller.
use vstd::prelude::*;

verus! {

/// The mailbox channel of property tags sent to the VideoCore.
pub const PROPERTY_CHANNEL: u32 = 8;

/// Request code of a buffer that is sent.
pub const REQUEST: u32 = 0;

/// Tag that asks for the maximum rate of a clock.
pub const TAG_GET_MAX_CLOCK_RATE: u32 = 0x3_0004;

/// Tag that asks for the current rate of a clock.
pub const TAG_GET_CLOCK_RATE: u32 = 0x3_0047;

/// Tag that sets the rate of a clock, which may be clamped to the supported range.
pub const TAG_SET_CLOCK_RATE: u32 = 0x3_8002;

/// Index of the word of a clock request buffer that holds the rate.
pub const RATE_WORD: usize = 6;

/// Clocks that can be used with the mailbox.
#[derive(Clone, Copy, Debug, PartialEq, Eq, Structural)]
pub enum Clock {
    /// External mass-media controller (SD card)
    Emmc,
    /// UART
    Uart,
    /// The ARM cores
    Arm,
    Core,
    V3d,
    H264,
    Isp,
    Sdram,
    Pixel,
    Pwm,
    Hevc,
    Emmc2,
    PixelBvb,
}

/// The clock id of each clock.
pub open spec fn clock_id(clock: Clock) -> u32 {
    match clock {
        Clock::Emmc => 1,
        Clock::Uart => 2,
        Clock::Arm => 3,
        Clock::Core => 4,
        Clock::V3d => 5,
        Clock::H264 => 6,
        Clock::Isp => 7,
        Clock::Sdram => 8,
        Clock::Pixel => 9,
        Clock::Pwm => 10,
        Clock::Hevc => 11,
        Clock::Emmc2 => 13,
        Clock::PixelBvb => 14,
    }
}

impl Clock {
    /// The clock id.
    pub fn into_bits(self) -> (r: u32)
        ensures
            r == clock_id(self),
    {
        match self {
            Clock::Emmc => 1,
            Clock::Uart => 2,
            Clock::Arm => 3,
            Clock::Core => 4,
            Clock::V3d => 5,
            Clock::H264 => 6,
            Clock::Isp => 7,
            Clock::Sdram => 8,
            Clock::Pixel => 9,
            Clock::Pwm => 10,
            Clock::Hevc => 11,
            Clock::Emmc2 => 13,
            Clock::PixelBvb => 14,
        }
    }
}

/// The words of a request buffer with one tag whose values are `values`, padded with zeros to
/// a multiple of 16 bytes; the size word counts the padding.
pub open spec fn request_words(tag: u32, values: Seq<u32>) -> Seq<u32> {
    let n: int = values.len() + 6int;
    let padded: int = if n % 4 == 0 { n } else { n + 4 - n % 4 };
    seq![(4 * padded) as u32, REQUEST, tag, (4 * values.len()) as u32, 0u32] + values + seq![0u32]
        + Seq::new((padded - n) as nat, |i: int| 0u32)
}

/// Builds the request buffer with one tag and its values.
fn request(tag: u32, values: Vec<u32>) -> (r: Vec<u32>)
    requires
        values@.len() <= 16,
    ensures
        r@ == request_words(tag, values@),
{
    let n: usize = values.len() + 6;
    let padded: usize = if n % 4 == 0 { n } else { n + 4 - n % 4 };
    let mut r: Vec<u32> = Vec::new();
    r.push((4 * padded) as u32);
    r.push(REQUEST);
    r.push(tag);
    r.push((4 * values.len()) as u32);
    r.push(0);
    let mut i: usize = 0;
    while i < values.len()
        invariant
            i <= values@.len(),
            r@ == seq![(4 * padded) as u32, REQUEST, tag, (4 * values@.len()) as u32, 0u32]
                + values@.subrange(0, i as int),
        decreases values@.len() - i,
    {
        r.push(values[i]);
        i = i + 1;
        assert(values@.subrange(0, i as int) =~= values@.subrange(0, i - 1) + seq![values@[i - 1]]);
    }
    r.push(0);
    let ghost head = r@;
    let mut k: usize = n;
    while k < padded
        invariant
            n <= k <= padded,
            r@ == head + Seq::new((k - n) as nat, |j: int| 0u32),
        decreases padded - k,
    {
        r.push(0);
        k = k + 1;
        assert(r@ =~= head + Seq::new((k - n) as nat, |j: int| 0u32));
    }
    assert(values@.subrange(0, values@.len() as int) =~= values@);
    assert(r@ =~= request_words(tag, values@));
    r
}

/// The request buffer that asks for the current rate of `clock`.
pub fn get_clock_rate_request(clock: Clock) -> (r: Vec<u32>)
    ensures
        r@ == request_words(TAG_GET_CLOCK_RATE, seq![clock_id(clock), 0u32]),
{
    request(TAG_GET_CLOCK_RATE, vec![clock.into_bits(), 0])
}

/// The request buffer that asks for the maximum rate of `clock`.
pub fn get_max_clock_rate_request(clock: Clock) -> (r: Vec<u32>)
    ensures
        r@ == request_words(TAG_GET_MAX_CLOCK_RATE, seq![clock_id(clock), 0u32]),
{
    request(TAG_GET_MAX_CLOCK_RATE, vec![clock.into_bits(), 0])
}

/// The request buffer that sets the rate of `clock` to `rate`, without turbo settings.
pub fn set_clock_rate_request(clock: Clock, rate: u32) -> (r: Vec<u32>)
    requires
        rate != 0,
    ensures
        r@ == request_words(TAG_SET_CLOCK_RATE, seq![clock_id(clock), rate, 0u32]),
{
    request(TAG_SET_CLOCK_RATE, vec![clock.into_bits(), rate, 0])
}

/// The rate a response carries: `None` if the exchange failed or the firmware answered with a
/// rate of zero.
pub open spec fn response_rate(delivered: bool, response: Seq<u32>) -> Option<u32> {
    if !delivered || response[RATE_WORD as int] == 0 {
        None
    } else {
        Some(response[RATE_WORD as int])
    }
}

/// Reads the rate out of the response to a clock request.
pub fn clock_rate_from_response(delivered: bool, response: &[u32]) -> (r: Option<u32>)
    requires
        response@.len() > RATE_WORD,
    ensures
        r == response_rate(delivered, response@),
{
    if !delivered {
        return None;
    }
    let rate = response[RATE_WORD];
    if rate == 0 {
        None
    } else {
        Some(rate)
    }
}

/// The word posted to the mailbox for a buffer at `buffer_addr`, or `None` if the address does
/// not fit in 32 bits or is not 16-byte aligned.
pub open spec fn posted_word(buffer_addr: usize) -> Option<u32> {
    if buffer_addr > u32::MAX || buffer_addr % 16 != 0 {
        None
    } else {
        Some((buffer_addr + PROPERTY_CHANNEL) as u32)
    }
}

/// A property mailbox driver.
pub struct Mailbox {
    base_address: usize,
}

impl Mailbox {
    /// The address of the mailbox registers.
    pub closed spec fn spec_base_address(&self) -> usize {
        self.base_address
    }

    /// Creates a driver for the mailbox registers at `base_address`.
    ///
    /// Returns `None` if the address is not aligned for 32-bit words.
    pub fn new(base_address: usize) -> (r: Option<Self>)
        requires
            base_address != 0,
        ensures
            r is Some <==> base_address % 4 == 0,
            r matches Some(m) ==> m.spec_base_address() == base_address,
    {
        if base_address % 4 != 0 {
            return None;
        }
        Some(Mailbox { base_address })
    }

    /// The address of the mailbox registers.
    pub fn base_address(&self) -> (r: usize)
        ensures
            r == self.spec_base_address(),
    {
        self.base_address
    }

    /// The word to post for the buffer at `buffer_addr`: the address, whose low four bits are
    /// zero, with the property channel in those bits. `None` means the buffer cannot be sent.
    pub fn send(&self, buffer_addr: usize) -> (r: Option<u32>)
        ensures
            r == posted_word(buffer_addr),
    {
        if buffer_addr > 0xFFFF_FFFF || buffer_addr % 16 != 0 {
            return None;
        }
        let addr = buffer_addr as u32;
        let word = (addr >> 4u32) << 4u32 | PROPERTY_CHANNEL;
        assert((addr >> 4u32) << 4u32 | 8u32 == addr + 8u32) by (bit_vector)
            requires
                addr % 16 == 0,
        ;
        Some(word)
    }

    /// Whether the word read back from the mailbox answers the posted word: the same buffer on
    /// the same channel.
    pub fn is_answer(&self, posted: u32, answer: u32) -> (r: bool)
        ensures
            r == (posted == answer),
    {
        posted == answer
    }
}

/// Whether the mailbox cannot take another word yet.
pub fn is_full(status: u32) -> (r: bool)
    ensures
        r == (status & 0x8000_0000 != 0),
{
    status & 0x8000_0000 != 0
}

/// Whether no answer is waiting in the mailbox.
pub fn is_empty(status: u32) -> (r: bool)
    ensures
        r == (status & 0x4000_0000 != 0),
{
    status & 0x4000_0000 != 0
}

/// A posted word names its buffer and the property channel: its low four bits are the channel
/// and the rest are the buffer's address.
pub proof fn law_posted_word_names_buffer(buffer_addr: usize)
    requires
        posted_word(buffer_addr) is Some,
    ensures
        posted_word(buffer_addr).unwrap() & 0xF == PROPERTY_CHANNEL,
        posted_word(buffer_addr).unwrap() & !0xFu32 == buffer_addr,
{
    let a = buffer_addr as u32;
    assert(a <= 0xFFFF_FFF0u32);
    let w = (a + 8u32) as u32;
    assert(posted_word(buffer_addr).unwrap() == w);
    assert(w & 0xFu32 == 8u32 && w & !0xFu32 == a) by (bit_vector)
        requires
            a % 16 == 0,
            a <= 0xFFFF_FFF0u32,
            w == (a + 8u32) as u32,
    ;
}

/// A request buffer is a whole number of 16-byte units, its size word gives its length in
/// bytes, and the rate word of a clock request holds what was asked for.
pub proof fn law_request_layout(tag: u32, values: Seq<u32>)
    requires
        values.len() <= 16,
    ensures
        request_words(tag, values).len() % 4 == 0,
        request_words(tag, values)[0] == 4 * request_words(tag, values).len(),
        request_words(tag, values)[2] == tag,
        forall|i: int| 0 <= i < values.len() ==> request_words(tag, values)[5 + i] == values[i],
{
}

} // verus!
