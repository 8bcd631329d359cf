use vstd::prelude::*;

verus! {

/// First byte of the game title and of the bytes that the header checksum covers.
pub const HEADER_START: usize = 0xa0;

/// One past the last byte of the game title.
pub const TITLE_END: usize = 0xac;

/// Where the header checksum is stored; the bytes before it, from `HEADER_START`, are summed.
pub const CHECKSUM_AT: usize = 0xbd;

/// The sum of the header bytes from `HEADER_START` up to `end`.
pub open spec fn header_sum(rom: Seq<u8>, end: int) -> int
    decreases end,
{
    if end <= HEADER_START {
        0
    } else {
        header_sum(rom, end - 1) + rom[end - 1]
    }
}

/// The checksum that a header must hold: minus the sum of its bytes, minus 0x19, in eight bits.
pub open spec fn header_checksum_of(rom: Seq<u8>) -> u8 {
    ((0 - header_sum(rom, CHECKSUM_AT as int) - 0x19) % 256) as u8
}

/// The characters of the title among the bytes from `HEADER_START` up to `end`: each non-zero
/// byte read as a character.
pub open spec fn title_chars(rom: Seq<u8>, end: int) -> Seq<char>
    decreases end,
{
    if end <= HEADER_START {
        seq![]
    } else if rom[end - 1] == 0 {
        title_chars(rom, end - 1)
    } else {
        title_chars(rom, end - 1).push(rom[end - 1] as char)
    }
}

/// Why a ROM image was refused.
#[derive(PartialEq, Eq, Structural, Debug, Clone, Copy)]
pub enum CartridgeError {
    /// The header holds `stored` where its bytes give `computed`.
    ChecksumMismatch { stored: u8, computed: u8 },
}

/// A ROM image whose header checksum is right.
pub struct Cartridge {
    pub rom: Vec<u8>,
}

/// Close to zero, the remainder by `m` adds `m` to a negative value and keeps a small one.
proof fn lemma_mod_near_zero(x: int, m: int)
    requires
        0 < m,
        -m <= x < m,
    ensures
        x % m == if x < 0 {
            x + m
        } else {
            x
        },
{
    if x < 0 {
        vstd::arithmetic::div_mod::lemma_mod_add_multiples_vanish(x, m);
        vstd::arithmetic::div_mod::lemma_small_mod((x + m) as nat, m as nat);
    } else {
        vstd::arithmetic::div_mod::lemma_small_mod(x as nat, m as nat);
    }
}

/// The header checksum that `rom` should hold.
pub fn header_checksum(rom: &Vec<u8>) -> (r: u8)
    requires
        rom.len() > CHECKSUM_AT,
    ensures
        r == header_checksum_of(rom@),
{
    let mut acc: u8 = 0;
    let mut i: usize = HEADER_START;
    proof {
        vstd::arithmetic::div_mod::lemma_small_mod(0, 256);
    }
    while i < CHECKSUM_AT
        invariant
            HEADER_START <= i <= CHECKSUM_AT,
            rom.len() > CHECKSUM_AT,
            acc as int == (0 - header_sum(rom@, i as int)) % 256,
        decreases CHECKSUM_AT - i,
    {
        let b = rom[i];
        proof {
            let s = header_sum(rom@, i as int);
            vstd::arithmetic::div_mod::lemma_add_mod_noop(0 - s, 0 - b, 256);
            vstd::arithmetic::div_mod::lemma_mod_twice(0 - s, 256);
            vstd::arithmetic::div_mod::lemma_small_mod(b as nat, 256);
            vstd::arithmetic::div_mod::lemma_add_mod_noop(acc as int, 0 - b, 256);
            lemma_mod_near_zero(acc - b, 256);
            assert(header_sum(rom@, i + 1) == s + b);
        }
        acc = acc.wrapping_sub(b);
        i = i + 1;
    }
    proof {
        let s = header_sum(rom@, CHECKSUM_AT as int);
        vstd::arithmetic::div_mod::lemma_add_mod_noop(0 - s, -0x19, 256);
        vstd::arithmetic::div_mod::lemma_add_mod_noop(acc as int, -0x19, 256);
        vstd::arithmetic::div_mod::lemma_mod_twice(0 - s, 256);
        lemma_mod_near_zero(acc - 0x19, 256);
    }
    acc.wrapping_sub(0x19)
}

/// The game title: the non-zero bytes of the title field, each read as a character.
pub fn game_title(rom: &Vec<u8>) -> (r: Vec<char>)
    requires
        rom.len() >= TITLE_END,
    ensures
        r@ == title_chars(rom@, TITLE_END as int),
{
    let mut title: Vec<char> = Vec::new();
    let mut i: usize = HEADER_START;
    while i < TITLE_END
        invariant
            HEADER_START <= i <= TITLE_END,
            rom.len() >= TITLE_END,
            title@ == title_chars(rom@, i as int),
        decreases TITLE_END - i,
    {
        let b = rom[i];
        if b != 0 {
            title.push(b as char);
        }
        i = i + 1;
    }
    title
}

impl Cartridge {
    /// Accepts `rom` when the checksum stored in its header is the one its header bytes give.
    pub fn new(rom: Vec<u8>) -> (r: Result<Cartridge, CartridgeError>)
        requires
            rom.len() > CHECKSUM_AT,
        ensures
            match r {
                Ok(c) => c.rom@ == rom@ && rom@[CHECKSUM_AT as int] == header_checksum_of(rom@),
                Err(e) => e == (CartridgeError::ChecksumMismatch {
                    stored: rom@[CHECKSUM_AT as int],
                    computed: header_checksum_of(rom@),
                }) && rom@[CHECKSUM_AT as int] != header_checksum_of(rom@),
            },
    {
        let checksum = header_checksum(&rom);
        let stored = rom[CHECKSUM_AT];
        if checksum != stored {
            Err(CartridgeError::ChecksumMismatch { stored, computed: checksum })
        } else {
            Ok(Cartridge { rom })
        }
    }
}

} // verus!
