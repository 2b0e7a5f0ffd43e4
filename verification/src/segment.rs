//! Alphanumeric segments: a mode indicator, a character count, the packed
//! characters, a terminator and padding to a whole byte.

use crate::bits::bits_of;
use crate::bits::bitvec_get;
use crate::bits::bitvec_len;
use crate::bits::bitvec_new;
use crate::bits::lemma_msb_first_zero;
use crate::bits::msb_first;
use crate::bits::padding_len;
use crate::bits::zeros;
use crate::bits::BitBuffer;
use crate::version::is_version_number;
use crate::version::QrVersion;
use vstd::arithmetic::power2::lemma2_to64;
use vstd::arithmetic::power2::lemma_pow2_strictly_increases;
use vstd::arithmetic::power2::pow2;
use vstd::bits::lemma_usize_shl_is_mul;
use vstd::prelude::*;
use vstd::slice::slice_subrange;
use vstd::std_specs::iter::IteratorSpec;

verus! {

/// Bits of a packed pair of alphanumeric characters.
pub const ALPHANUMERIC_CHUNK_BIT_COUNT: usize = 11;

/// Bits of an alphanumeric character left over after the pairs.
pub const ALPHANUMERIC_REST_BIT_COUNT: usize = 6;

/// Size of the alphanumeric alphabet.
pub const ALPHANUMERIC_RADIX: u16 = 45;

/// Bits of a mode indicator, and of the terminator.
pub const MODE_INDICATOR_BIT_COUNT: usize = 4;

/// How the characters of a segment are encoded.
#[derive(Debug, Clone, Copy, PartialEq, Eq)]
pub enum QrSegmentMode {
    Numeric,
    Alphanumeric,
    Byte,
    Kanji,
}

/// Why a text could not be encoded.
#[derive(Debug)]
pub enum EncodeQrSegmentError {
    /// The character is none of `0-9`, `A-Z`, space, `$%*+-./:`.
    InvalidAlphanumericCharacter(char),
    /// The character count does not fit the count indicator of the version.
    InputTooLong,
    /// Segments of this mode cannot be encoded yet.
    UnsupportedMode(QrSegmentMode),
}

/// The four-bit indicator that opens a segment of mode `mode` and tells its
/// mode apart from every other; none for numeric segments, which have no
/// indicator of their own yet.
pub open spec fn mode_indicator_of(mode: QrSegmentMode) -> Option<u8> {
    match mode {
        QrSegmentMode::Numeric => None,
        QrSegmentMode::Alphanumeric => Some(0b0001),
        QrSegmentMode::Byte => Some(0b0100),
        QrSegmentMode::Kanji => Some(0b1000),
    }
}

/// Bits of the character count indicator of a `mode` segment in a symbol of
/// version `version`: one row for versions up to 9, one up to 26, one beyond.
pub open spec fn count_indicator_width(mode: QrSegmentMode, version: int) -> nat {
    if version <= 9 {
        match mode {
            QrSegmentMode::Numeric => 10,
            QrSegmentMode::Alphanumeric => 9,
            QrSegmentMode::Byte => 8,
            QrSegmentMode::Kanji => 8,
        }
    } else if version <= 26 {
        match mode {
            QrSegmentMode::Numeric => 12,
            QrSegmentMode::Alphanumeric => 11,
            QrSegmentMode::Byte => 16,
            QrSegmentMode::Kanji => 10,
        }
    } else {
        match mode {
            QrSegmentMode::Numeric => 14,
            QrSegmentMode::Alphanumeric => 13,
            QrSegmentMode::Byte => 16,
            QrSegmentMode::Kanji => 12,
        }
    }
}

/// The value of `c` in the alphanumeric alphabet: digits count from 0,
/// capitals from 10, then space and `$%*+-./:` from 36 to 44.
pub open spec fn alphanumeric_codepoint(c: char) -> Option<u8> {
    if '0' <= c <= '9' {
        Some((c as int - '0' as int) as u8)
    } else if 'A' <= c <= 'Z' {
        Some((c as int - 'A' as int + 10) as u8)
    } else if c == ' ' {
        Some(36)
    } else if c == '$' {
        Some(37)
    } else if c == '%' {
        Some(38)
    } else if c == '*' {
        Some(39)
    } else if c == '+' {
        Some(40)
    } else if c == '-' {
        Some(41)
    } else if c == '.' {
        Some(42)
    } else if c == '/' {
        Some(43)
    } else if c == ':' {
        Some(44)
    } else {
        None
    }
}

impl QrSegmentMode {
    /// The four-bit indicator that opens a segment of this mode, or the
    /// error that names the mode when it has none yet.
    pub fn mode_indicator(&self) -> (r: Result<u8, EncodeQrSegmentError>)
        ensures
            match r {
                Ok(indicator) => mode_indicator_of(*self) == Some(indicator) && indicator < 16,
                Err(e) => mode_indicator_of(*self) is None && e
                    == EncodeQrSegmentError::UnsupportedMode(*self),
            },
    {
        match self {
            QrSegmentMode::Numeric => Err(EncodeQrSegmentError::UnsupportedMode(*self)),
            QrSegmentMode::Alphanumeric => Ok(0b0001),
            QrSegmentMode::Byte => Ok(0b0100),
            QrSegmentMode::Kanji => Ok(0b1000),
        }
    }

    /// Bits of a full group of characters: three digits in ten bits, two
    /// alphanumeric characters in eleven. The other modes have no group.
    pub fn chunk_length(&self) -> (length: usize)
        requires
            self is Numeric || self is Alphanumeric,
        ensures
            length == if self is Numeric {
                10int
            } else {
                11int
            },
    {
        match self {
            QrSegmentMode::Numeric => 10,
            _ => ALPHANUMERIC_CHUNK_BIT_COUNT,
        }
    }

    /// Bits of the character count indicator in a symbol of `version`.
    pub fn character_count_indicator_length(&self, version: QrVersion) -> (width: usize)
        ensures
            width == count_indicator_width(*self, version@),
            8 <= width <= 16,
    {
        if version.to_u8() <= 9 {
            match self {
                QrSegmentMode::Numeric => 10,
                QrSegmentMode::Alphanumeric => 9,
                QrSegmentMode::Byte => 8,
                QrSegmentMode::Kanji => 8,
            }
        } else if version.to_u8() <= 26 {
            match self {
                QrSegmentMode::Numeric => 12,
                QrSegmentMode::Alphanumeric => 11,
                QrSegmentMode::Byte => 16,
                QrSegmentMode::Kanji => 10,
            }
        } else {
            match self {
                QrSegmentMode::Numeric => 14,
                QrSegmentMode::Alphanumeric => 13,
                QrSegmentMode::Byte => 16,
                QrSegmentMode::Kanji => 12,
            }
        }
    }
}

/// Whether every character of `text` is part of the alphanumeric alphabet.
pub open spec fn is_alphanumeric(text: Seq<char>) -> bool {
    forall|i: int| 0 <= i < text.len() ==> alphanumeric_codepoint(#[trigger] text[i]) is Some
}

/// Whether `text` is alphanumeric up to, and not at, its character `i`.
pub open spec fn first_invalid_at(text: Seq<char>, i: int) -> bool {
    &&& 0 <= i < text.len()
    &&& alphanumeric_codepoint(text[i]) is None
    &&& is_alphanumeric(text.take(i))
}

/// The values of the characters of `text` in the alphanumeric alphabet.
pub open spec fn codepoints_of(text: Seq<char>) -> Seq<u8> {
    Seq::new(text.len(), |i: int| alphanumeric_codepoint(text[i]).unwrap())
}

/// Bits that `count` alphanumeric characters take once packed: eleven a
/// pair, six for one left over.
pub open spec fn packed_len(count: nat) -> nat {
    ALPHANUMERIC_CHUNK_BIT_COUNT as nat * (count / 2) + ALPHANUMERIC_REST_BIT_COUNT as nat * (count
        % 2)
}

/// The number that stands for the pair `pair` of `codes`: the first code
/// times 45 plus the second.
pub open spec fn pair_value(codes: Seq<u8>, pair: int) -> nat {
    (codes[2 * pair] * ALPHANUMERIC_RADIX + codes[2 * pair + 1]) as nat
}

/// Bit `p` of the packed characters: pair after pair, each as eleven bits,
/// most significant first; then a code left over as six bits.
pub open spec fn packed_bit(codes: Seq<u8>, p: int) -> bool {
    if p / (ALPHANUMERIC_CHUNK_BIT_COUNT as int) < codes.len() / 2 {
        msb_first(
            pair_value(codes, p / (ALPHANUMERIC_CHUNK_BIT_COUNT as int)),
            ALPHANUMERIC_CHUNK_BIT_COUNT as nat,
        )[p % (ALPHANUMERIC_CHUNK_BIT_COUNT as int)]
    } else {
        msb_first(codes[codes.len() - 1] as nat, ALPHANUMERIC_REST_BIT_COUNT as nat)[p
            - ALPHANUMERIC_CHUNK_BIT_COUNT * (codes.len() / 2)]
    }
}

/// The packed characters.
pub open spec fn packed(codes: Seq<u8>) -> Seq<bool> {
    Seq::new(packed_len(codes.len()), |p: int| packed_bit(codes, p))
}

/// An alphanumeric segment before padding: mode indicator, character count,
/// packed characters, terminator.
pub open spec fn alphanumeric_body(version: int, text: Seq<char>) -> Seq<bool> {
    msb_first(
        mode_indicator_of(QrSegmentMode::Alphanumeric).unwrap() as nat,
        MODE_INDICATOR_BIT_COUNT as nat,
    ) + msb_first(text.len(), count_indicator_width(QrSegmentMode::Alphanumeric, version)) + packed(
        codepoints_of(text),
    ) + zeros(MODE_INDICATOR_BIT_COUNT as nat)
}

/// The bits of the alphanumeric segment that holds `text` in a symbol of
/// version `version`: the body, then clear bits up to a whole byte.
pub open spec fn alphanumeric_bits(version: int, text: Seq<char>) -> Seq<bool> {
    alphanumeric_body(version, text) + zeros(padding_len(alphanumeric_body(version, text).len()))
}

/// Whether a count of `count` characters fits the count indicator of an
/// alphanumeric segment in a symbol of version `version`.
pub open spec fn count_fits(version: int, count: nat) -> bool {
    count < pow2(count_indicator_width(QrSegmentMode::Alphanumeric, version))
}

/// A run of bits that encodes characters in one mode.
pub struct QrSegment {
    mode: QrSegmentMode,
    bit_vec: BitBuffer,
}

impl QrSegment {
    #[verifier::type_invariant]
    spec fn whole_bytes(self) -> bool {
        bits_of(self.bit_vec).len() % 8 == 0
    }

    /// The mode of the segment.
    pub closed spec fn mode_of(&self) -> QrSegmentMode {
        self.mode
    }

    /// The bits of the segment, first to last.
    pub closed spec fn bits(&self) -> Seq<bool> {
        bits_of(self.bit_vec)
    }

    /// The mode of the segment.
    pub fn mode(&self) -> (mode: QrSegmentMode)
        ensures
            mode == self.mode_of(),
    {
        self.mode
    }

    /// The number of bits, always a multiple of eight.
    pub fn len(&self) -> (n: usize)
        ensures
            n == self.bits().len(),
            n % 8 == 0,
    {
        proof {
            use_type_invariant(self);
        }
        bitvec_len(&self.bit_vec)
    }

    /// The bit at `index`, or `None` past the end.
    pub fn get(&self, index: usize) -> (bit: Option<bool>)
        ensures
            bit == if index < self.bits().len() {
                Some(self.bits()[index as int])
            } else {
                None
            },
    {
        bitvec_get(&self.bit_vec, index)
    }

    /// The value of `c` in the alphanumeric alphabet, or the error that names
    /// `c` when it is not part of it.
    pub fn try_as_alphanumeric_codepoint(c: char) -> (r: Result<u8, EncodeQrSegmentError>)
        ensures
            match r {
                Ok(code) => alphanumeric_codepoint(c) == Some(code) && code < ALPHANUMERIC_RADIX,
                Err(e) => alphanumeric_codepoint(c) is None && e
                    == EncodeQrSegmentError::InvalidAlphanumericCharacter(c),
            },
    {
        if '0' <= c && c <= '9' {
            Ok((c as u32 - '0' as u32) as u8)
        } else if 'A' <= c && c <= 'Z' {
            Ok((c as u32 - 'A' as u32 + 10) as u8)
        } else if c == ' ' {
            Ok(36)
        } else if c == '$' {
            Ok(37)
        } else if c == '%' {
            Ok(38)
        } else if c == '*' {
            Ok(39)
        } else if c == '+' {
            Ok(40)
        } else if c == '-' {
            Ok(41)
        } else if c == '.' {
            Ok(42)
        } else if c == '/' {
            Ok(43)
        } else if c == ':' {
            Ok(44)
        } else {
            Err(EncodeQrSegmentError::InvalidAlphanumericCharacter(c))
        }
    }

    /// Packs the first two codes of `bytes` into an eleven-bit number, or a
    /// single code into a six-bit one; gives the number and its width.
    pub fn encode_alphanumeric_pair(bytes: &[u8]) -> (packed: (u16, usize))
        requires
            bytes@.len() >= 1,
        ensures
            packed == if bytes@.len() >= 2 {
                ((bytes@[0] * ALPHANUMERIC_RADIX + bytes@[1]) as u16, ALPHANUMERIC_CHUNK_BIT_COUNT)
            } else {
                (bytes@[0] as u16, ALPHANUMERIC_REST_BIT_COUNT)
            },
    {
        let b0 = bytes[0] as u16;
        if bytes.len() >= 2 {
            let b1 = bytes[1];
            (b0 * ALPHANUMERIC_RADIX + (b1 as u16), QrSegmentMode::Alphanumeric.chunk_length())
        } else {
            (b0, ALPHANUMERIC_REST_BIT_COUNT)
        }
    }

    /// The alphanumeric codes of `string`, or the error that names its first
    /// character outside the alphabet.
    pub fn alphanumeric_codepoints(string: &str) -> (r: Result<Vec<u8>, EncodeQrSegmentError>)
        ensures
            match r {
                Ok(codes) => is_alphanumeric(string@) && codes@ == codepoints_of(string@),
                Err(e) => exists|i: int|
                    first_invalid_at(string@, i) && e
                        == EncodeQrSegmentError::InvalidAlphanumericCharacter(string@[i]),
            },
    {
        let mut codes: Vec<u8> = Vec::new();
        let mut chars = string.chars();
        loop
            invariant
                codes@.len() <= string@.len(),
                chars.remaining() == string@.skip(codes@.len() as int),
                forall|i: int|
                    0 <= i < codes@.len() ==> alphanumeric_codepoint(#[trigger] string@[i])
                        == Some(codes@[i]),
            decreases string@.len() - codes@.len(),
        {
            match chars.next() {
                None => {
                    assert(codes@ =~= codepoints_of(string@));
                    return Ok(codes);
                },
                Some(c) => {
                    let ghost at = codes@.len() as int;
                    assert(c == string@[at]);
                    match Self::try_as_alphanumeric_codepoint(c) {
                        Ok(code) => {
                            codes.push(code);
                            assert(chars.remaining() =~= string@.skip(codes@.len() as int));
                        },
                        Err(e) => {
                            assert(first_invalid_at(string@, at));
                            return Err(e);
                        },
                    }
                },
            }
        }
    }

    /// Encodes `string` as an alphanumeric segment for a symbol of `version`.
    ///
    /// Fails on the first character outside the alphabet, naming it; then,
    /// on a text whose character count does not fit the count indicator.
    /// Otherwise the segment holds the mode indicator, the character count,
    /// the packed characters, a terminator of four clear bits, and clear bits
    /// up to a whole byte.
    pub fn encode_alphanumeric(version: QrVersion, string: &str) -> (r: Result<
        QrSegment,
        EncodeQrSegmentError,
    >)
        ensures
            r is Ok <==> is_alphanumeric(string@) && count_fits(version@, string@.len()),
            match r {
                Ok(segment) => {
                    &&& segment.mode_of() == QrSegmentMode::Alphanumeric
                    &&& segment.bits() == alphanumeric_bits(version@, string@)
                    &&& segment.bits().len() % 8 == 0
                },
                Err(EncodeQrSegmentError::InvalidAlphanumericCharacter(c)) => exists|i: int|
                    first_invalid_at(string@, i) && c == string@[i],
                Err(EncodeQrSegmentError::InputTooLong) => is_alphanumeric(string@) && !count_fits(
                    version@,
                    string@.len(),
                ),
                Err(EncodeQrSegmentError::UnsupportedMode(_)) => false,
            },
    {
        let mode = QrSegmentMode::Alphanumeric;
        let codes = match Self::alphanumeric_codepoints(string) {
            Ok(codes) => codes,
            Err(e) => {
                return Err(e);
            },
        };
        let count = codes.len();
        let width = mode.character_count_indicator_length(version);
        proof {
            lemma2_to64();
            if width < 16 {
                lemma_pow2_strictly_increases(width as nat, 16);
            }
            lemma_usize_shl_is_mul(1, width);
        }
        if count >= (1usize << width) {
            return Err(EncodeQrSegmentError::InputTooLong);
        }
        let mut vec = bitvec_new();

        // Segment mode
        let indicator = match mode.mode_indicator() {
            Ok(indicator) => indicator,
            Err(e) => {
                return Err(e);
            },
        };
        vec.append_low_bits(indicator as u16, MODE_INDICATOR_BIT_COUNT);

        // Segment count
        vec.append_low_bits(count as u16, width);

        // Segment data
        let ghost head = bits_of(vec);
        let mut done: usize = 0;
        while done < count
            invariant
                done <= count == codes@.len() < 65536,
                done % 2 == 0 || done == count,
                head.len() == MODE_INDICATOR_BIT_COUNT + width,
                width <= 16,
                bits_of(vec) == head + packed(codes@).subrange(0, packed_len(done as nat) as int),
            decreases count - done,
        {
            let end = if count - done >= 2 {
                done + 2
            } else {
                count
            };
            let (value, n_bits) = Self::encode_alphanumeric_pair(
                slice_subrange(codes.as_slice(), done, end),
            );
            proof {
                if end == done + 2 {
                    lemma_packed_pair(codes@, done as int / 2);
                } else {
                    lemma_packed_rest(codes@);
                }
                assert(packed(codes@).subrange(0, packed_len(end as nat) as int) =~= packed(
                    codes@,
                ).subrange(0, packed_len(done as nat) as int) + msb_first(
                    value as nat,
                    n_bits as nat,
                ));
            }
            vec.append_low_bits(value, n_bits);
            done = end;
        }
        assert(packed(codes@).subrange(0, packed_len(count as nat) as int) =~= packed(codes@));

        // Terminator
        proof {
            lemma_msb_first_zero(MODE_INDICATOR_BIT_COUNT as nat);
        }
        vec.append_low_bits(0, MODE_INDICATOR_BIT_COUNT);
        assert(bits_of(vec) =~= alphanumeric_body(version@, string@));

        // Bit padding
        vec.pad_to_byte();

        Ok(QrSegment { mode, bit_vec: vec })
    }

    /// Numeric segments cannot be encoded yet: always the error that says so.
    pub fn encode_numeric(string: &str) -> (r: Result<QrSegment, EncodeQrSegmentError>)
        ensures
            r matches Err(EncodeQrSegmentError::UnsupportedMode(QrSegmentMode::Numeric)),
    {
        Err(EncodeQrSegmentError::UnsupportedMode(QrSegmentMode::Numeric))
    }
}

/// The mode indicator identifies the mode: two different modes never open
/// their segments alike, and no indicator takes more than four bits.
pub proof fn lemma_mode_indicator_identifies(first: QrSegmentMode, second: QrSegmentMode)
    ensures
        first != second ==> mode_indicator_of(first) != mode_indicator_of(second),
        mode_indicator_of(first) matches Some(indicator) ==> indicator < 16,
        mode_indicator_of(first) is None <==> first == QrSegmentMode::Numeric,
{
}

/// The count indicator of an alphanumeric segment has nine bits up to
/// version 9, eleven up to version 26 and thirteen beyond.
pub proof fn lemma_alphanumeric_count_width(version: int)
    requires
        is_version_number(version),
    ensures
        count_indicator_width(QrSegmentMode::Alphanumeric, version) == if version <= 9 {
            9nat
        } else if version <= 26 {
            11nat
        } else {
            13nat
        },
{
}

/// Lower-case letters and `@` are no part of the alphanumeric alphabet, nor
/// is any character beyond ASCII.
pub proof fn lemma_outside_alphabet(c: char)
    requires
        ('a' <= c <= 'z') || c == '@' || c as int > 127,
    ensures
        alphanumeric_codepoint(c) is None,
{
}

/// Every code of the alphanumeric alphabet is below 45.
pub proof fn lemma_codepoint_range(c: char)
    ensures
        alphanumeric_codepoint(c) matches Some(code) ==> code < ALPHANUMERIC_RADIX,
{
}

/// A text with a character outside the alphabet has one first such
/// character.
pub proof fn lemma_first_invalid_unique(text: Seq<char>, i: int, j: int)
    requires
        first_invalid_at(text, i),
        first_invalid_at(text, j),
    ensures
        i == j,
{
    if i < j {
        assert(text.take(j)[i] == text[i]);
    }
    if j < i {
        assert(text.take(i)[j] == text[j]);
    }
}

/// The bits of an alphanumeric segment always make whole bytes, and their
/// number follows from the number of characters alone.
pub proof fn lemma_alphanumeric_bits_len(version: int, text: Seq<char>)
    ensures
        alphanumeric_bits(version, text).len() % 8 == 0,
        alphanumeric_body(version, text).len() == 2 * MODE_INDICATOR_BIT_COUNT
            + count_indicator_width(QrSegmentMode::Alphanumeric, version) + packed_len(text.len()),
        alphanumeric_body(version, text).len() <= alphanumeric_bits(version, text).len()
            < alphanumeric_body(version, text).len() + 8,
{
}

/// Packing goes pair by pair: no bits for no codes, six for a single code,
/// and otherwise the eleven bits of the first pair before the packed rest.
pub proof fn lemma_packed_unfold(codes: Seq<u8>)
    ensures
        codes.len() == 0 ==> packed(codes) == Seq::<bool>::empty(),
        codes.len() == 1 ==> packed(codes) == msb_first(
            codes[0] as nat,
            ALPHANUMERIC_REST_BIT_COUNT as nat,
        ),
        codes.len() >= 2 ==> packed(codes) == msb_first(
            pair_value(codes, 0),
            ALPHANUMERIC_CHUNK_BIT_COUNT as nat,
        ) + packed(codes.skip(2)),
{
    if codes.len() == 0 {
        assert(packed(codes) =~= Seq::<bool>::empty());
    } else if codes.len() == 1 {
        assert(packed(codes) =~= msb_first(codes[0] as nat, ALPHANUMERIC_REST_BIT_COUNT as nat));
    } else {
        let rest = codes.skip(2);
        let first = msb_first(pair_value(codes, 0), ALPHANUMERIC_CHUNK_BIT_COUNT as nat);
        assert forall|p: int| 0 <= p < packed(codes).len() implies packed(codes)[p] == (first
            + packed(rest))[p] by {
            if p >= 11 {
                let q = p - 11;
                assert(q / 11 == p / 11 - 1);
                assert(q % 11 == p % 11);
                if q / 11 < rest.len() / 2 {
                    assert(pair_value(rest, q / 11) == pair_value(codes, p / 11));
                } else {
                    assert(rest[rest.len() - 1] == codes[codes.len() - 1]);
                }
            }
        }
        assert(packed(codes) =~= first + packed(rest));
    }
}

/// The eleven bits of pair `pair`, as they stand among the packed characters.
pub proof fn lemma_packed_pair(codes: Seq<u8>, pair: int)
    requires
        0 <= pair < codes.len() / 2,
    ensures
        packed(codes).subrange(
            ALPHANUMERIC_CHUNK_BIT_COUNT * pair,
            ALPHANUMERIC_CHUNK_BIT_COUNT * pair + ALPHANUMERIC_CHUNK_BIT_COUNT,
        ) == msb_first(pair_value(codes, pair), ALPHANUMERIC_CHUNK_BIT_COUNT as nat),
        packed_len((2 * pair) as nat) == ALPHANUMERIC_CHUNK_BIT_COUNT * pair,
        packed_len((2 * pair + 2) as nat) == ALPHANUMERIC_CHUNK_BIT_COUNT * pair
            + ALPHANUMERIC_CHUNK_BIT_COUNT <= packed_len(codes.len()),
{
    assert(packed(codes).subrange(
        ALPHANUMERIC_CHUNK_BIT_COUNT * pair,
        ALPHANUMERIC_CHUNK_BIT_COUNT * pair + ALPHANUMERIC_CHUNK_BIT_COUNT,
    ) =~= msb_first(pair_value(codes, pair), ALPHANUMERIC_CHUNK_BIT_COUNT as nat));
}

/// The six bits of a code left over, as they stand at the end of the packed
/// characters.
pub proof fn lemma_packed_rest(codes: Seq<u8>)
    requires
        codes.len() % 2 == 1,
    ensures
        packed(codes).subrange(
            packed_len((codes.len() - 1) as nat) as int,
            packed_len(codes.len()) as int,
        ) == msb_first(codes[codes.len() - 1] as nat, ALPHANUMERIC_REST_BIT_COUNT as nat),
        packed_len(codes.len()) == packed_len((codes.len() - 1) as nat)
            + ALPHANUMERIC_REST_BIT_COUNT,
{
    assert(packed(codes).subrange(
        packed_len((codes.len() - 1) as nat) as int,
        packed_len(codes.len()) as int,
    ) =~= msb_first(codes[codes.len() - 1] as nat, ALPHANUMERIC_REST_BIT_COUNT as nat));
}

} // verus!
