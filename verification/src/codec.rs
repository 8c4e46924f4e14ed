//! The radar snapshot codec.
//!
//! Each turn an agent receives its surroundings as a string over a
//! custom base64-style alphabet. Decoding happens in two steps: the
//! string becomes raw bytes (`custom_decode`), and the bytes become a
//! structured view (`decode_and_format`) holding four horizontal
//! passage fields, three vertical passage fields and nine cell
//! classifications laid out as a 3x3 grid in row-major order, with
//! index 4 the agent's own cell.
//!
//! The bit layout is a wire-format contract: a passage field packs one
//! wall per 2-bit group, and each cell is a 4-bit code. The spec
//! functions in this module state that layout exactly and every
//! decoder is proved against them.

use vstd::prelude::*;
use vstd::string::StrSliceExecFns;

verus! {

/// Why a radar string failed to decode. Either kind is non-fatal: the
/// caller skips the turn and keeps its prior state.
#[derive(Clone, Debug, PartialEq, Eq)]
pub enum DecodeError {
    /// The input held a character outside the decoding alphabet.
    InvalidCharacter(char),
    /// Fewer than 11 bytes came out of the character decoding step.
    TooShort,
}

/// The value a character carries in the decoding alphabet:
/// `a-z` map to 0-25, `A-Z` to 26-51, `0-9` to 52-61, `+` to 62 and
/// `/` to 63. Any other character is outside the alphabet.
pub open spec fn char_value(c: char) -> Option<u8> {
    let n = c as u32;
    if 'a' as u32 <= n <= 'z' as u32 {
        Some((n - 'a' as u32) as u8)
    } else if 'A' as u32 <= n <= 'Z' as u32 {
        Some((n - 'A' as u32 + 26) as u8)
    } else if '0' as u32 <= n <= '9' as u32 {
        Some((n - '0' as u32 + 52) as u8)
    } else if c == '+' {
        Some(62u8)
    } else if c == '/' {
        Some(63u8)
    } else {
        None
    }
}

/// True when every character of `s` belongs to the decoding alphabet.
pub open spec fn all_valid_chars(s: Seq<char>) -> bool {
    forall|i: int| 0 <= i < s.len() ==> char_value(s[i]) is Some
}

/// Maps one character to its alphabet value, or reports it as invalid.
fn char_to_value(c: char) -> (r: Result<u8, DecodeError>)
    ensures
        match char_value(c) {
            Some(v) => r == Result::<u8, DecodeError>::Ok(v),
            None => r == Result::<u8, DecodeError>::Err(DecodeError::InvalidCharacter(c)),
        },
{
    let n = c as u32;
    if 'a' as u32 <= n && n <= 'z' as u32 {
        Ok((n - 'a' as u32) as u8)
    } else if 'A' as u32 <= n && n <= 'Z' as u32 {
        Ok((n - 'A' as u32 + 26) as u8)
    } else if '0' as u32 <= n && n <= '9' as u32 {
        Ok((n - '0' as u32 + 52) as u8)
    } else if c == '+' {
        Ok(62)
    } else if c == '/' {
        Ok(63)
    } else {
        Err(DecodeError::InvalidCharacter(c))
    }
}

/// The integer a run of alphabet characters packs to: each character
/// contributes six bits, first character most significant.
pub open spec fn group_value(s: Seq<char>) -> int
    decreases s.len(),
{
    if s.len() == 0 {
        0
    } else {
        group_value(s.drop_last()) * 64 + char_value(s.last())->Some_0
    }
}

/// The bytes a group of up to four characters decodes to. A full group
/// yields three bytes; trailing groups of three or two characters
/// yield two bytes or one, and a lone character yields nothing.
pub open spec fn group_bytes(s: Seq<char>) -> Seq<u8> {
    let a = group_value(s);
    if s.len() == 4 {
        seq![((a / 0x10000) % 0x100) as u8, ((a / 0x100) % 0x100) as u8, (a % 0x100) as u8]
    } else if s.len() == 3 {
        seq![((a / 0x400) % 0x100) as u8, ((a / 4) % 0x100) as u8]
    } else if s.len() == 2 {
        seq![((a / 0x10) % 0x100) as u8]
    } else {
        seq![]
    }
}

/// The bytes a whole character sequence decodes to: the sequence is
/// processed in groups of four characters, the last group possibly
/// shorter.
pub open spec fn decoded_bytes(s: Seq<char>) -> Seq<u8>
    decreases s.len(),
{
    if s.len() > 4 {
        group_bytes(s.subrange(0, 4)) + decoded_bytes(s.subrange(4, s.len() as int))
    } else {
        group_bytes(s)
    }
}

/// A group of valid characters packs to a value bounded by the number
/// of six-bit slots it fills.
proof fn lemma_group_value_bounds(s: Seq<char>)
    requires
        forall|i: int| 0 <= i < s.len() ==> char_value(s[i]) is Some,
    ensures
        0 <= group_value(s),
        s.len() <= 4 ==> group_value(s) < 0x1000000,
        s.len() <= 3 ==> group_value(s) < 0x40000,
        s.len() <= 2 ==> group_value(s) < 0x1000,
        s.len() <= 1 ==> group_value(s) < 0x40,
    decreases s.len(),
{
    if s.len() > 0 {
        assert(char_value(s.last()) is Some);
        assert(char_value(s.last())->Some_0 < 64);
        lemma_group_value_bounds(s.drop_last());
    }
}

/// Decoding distributes over a split at any whole-group boundary.
proof fn lemma_decoded_bytes_split(s: Seq<char>, i: int)
    requires
        0 <= i <= s.len(),
        i % 4 == 0,
    ensures
        decoded_bytes(s) == decoded_bytes(s.subrange(0, i)) + decoded_bytes(
            s.subrange(i, s.len() as int),
        ),
    decreases i,
{
    if i == 0 {
        assert(s.subrange(0, 0).len() == 0);
        assert(decoded_bytes(s.subrange(0, 0)) == Seq::<u8>::empty());
        assert(s.subrange(0, s.len() as int) =~= s);
        assert(decoded_bytes(s) =~= decoded_bytes(s.subrange(0, 0)) + decoded_bytes(
            s.subrange(0, s.len() as int),
        ));
    } else {
        let rest = s.subrange(4, s.len() as int);
        lemma_decoded_bytes_split(rest, i - 4);
        assert(rest.subrange(0, i - 4) =~= s.subrange(4, i));
        assert(rest.subrange(i - 4, rest.len() as int) =~= s.subrange(i, s.len() as int));
        let head = s.subrange(0, i);
        if s.len() > 4 {
            assert(head.len() == i);
            if i > 4 {
                assert(head.subrange(0, 4) =~= s.subrange(0, 4));
                assert(head.subrange(4, head.len() as int) =~= s.subrange(4, i));
                assert(decoded_bytes(head) == group_bytes(s.subrange(0, 4)) + decoded_bytes(
                    s.subrange(4, i),
                ));
            } else {
                assert(head =~= s.subrange(0, 4));
                assert(s.subrange(4, i).len() == 0);
                assert(decoded_bytes(head) =~= group_bytes(s.subrange(0, 4)) + decoded_bytes(
                    s.subrange(4, i),
                ));
            }
            assert(decoded_bytes(s) =~= decoded_bytes(head) + decoded_bytes(
                s.subrange(i, s.len() as int),
            ));
        } else {
            // i is a positive multiple of 4 and i <= s.len() <= 4, so i == s.len() == 4.
            assert(i == 4);
            assert(head =~= s);
            assert(s.subrange(i, s.len() as int).len() == 0);
            assert(decoded_bytes(s) =~= decoded_bytes(head) + decoded_bytes(
                s.subrange(i, s.len() as int),
            ));
        }
    }
}

/// Decodes a string over the custom alphabet into raw bytes.
///
/// The input is processed in four-character groups; a trailing group
/// of three or two characters yields two bytes or one. The first
/// character outside the alphabet stops the decoding and is reported.
pub fn custom_decode(input: &str) -> (r: Result<Vec<u8>, DecodeError>)
    ensures
        r is Ok <==> all_valid_chars(input@),
        r matches Ok(bytes) ==> bytes@ == decoded_bytes(input@),
        r matches Err(e) ==> exists|j: int|
            {
                &&& 0 <= j < input@.len()
                &&& char_value(input@[j]) is None
                &&& (forall|k: int| 0 <= k < j ==> char_value(input@[k]) is Some)
                &&& e == DecodeError::InvalidCharacter(input@[j])
            },
{
    let len = input.unicode_len();
    let mut result: Vec<u8> = Vec::new();
    let mut i: usize = 0;
    while i < len
        invariant
            i <= len,
            len == input@.len(),
            i % 4 == 0 || i == len,
            forall|k: int| 0 <= k < i ==> char_value(input@[k]) is Some,
            result@ == decoded_bytes(input@.subrange(0, i as int)),
        decreases len - i,
    {
        let group_end: usize = if len - i < 4 {
            len
        } else {
            i + 4
        };
        let ghost group = input@.subrange(i as int, group_end as int);
        let mut accum: u32 = 0;
        let mut j: usize = i;
        while j < group_end
            invariant
                i <= j <= group_end <= len,
                len == input@.len(),
                group_end - i <= 4,
                group == input@.subrange(i as int, group_end as int),
                forall|k: int| 0 <= k < j ==> char_value(input@[k]) is Some,
                accum == group_value(input@.subrange(i as int, j as int)),
                forall|k: int| 0 <= k < i ==> char_value(input@[k]) is Some,
                result@ == decoded_bytes(input@.subrange(0, i as int)),
            decreases group_end - j,
        {
            let c = input.get_char(j);
            let v = match char_to_value(c) {
                Ok(v) => v,
                Err(e) => {
                    return Err(e);
                },
            };
            proof {
                let prefix = input@.subrange(i as int, j as int);
                let extended = input@.subrange(i as int, j + 1 as int);
                assert(extended.drop_last() =~= prefix);
                assert(extended.last() == input@[j as int]);
                lemma_group_value_bounds(extended);
            }
            accum = accum * 64 + v as u32;
            j = j + 1;
        }
        proof {
            assert(group =~= input@.subrange(i as int, group_end as int));
            lemma_group_value_bounds(group);
        }
        let n = group_end - i;
        if n == 4 {
            result.push((accum / 0x10000) as u8);
            result.push(((accum / 0x100) % 0x100) as u8);
            result.push((accum % 0x100) as u8);
        } else if n == 3 {
            result.push(((accum / 0x400) % 0x100) as u8);
            result.push(((accum / 4) % 0x100) as u8);
        } else if n == 2 {
            result.push(((accum / 0x10) % 0x100) as u8);
        }
        proof {
            let done = input@.subrange(0, group_end as int);
            lemma_decoded_bytes_split(done, i as int);
            assert(done.subrange(0, i as int) =~= input@.subrange(0, i as int));
            assert(done.subrange(i as int, done.len() as int) =~= group);
            assert(decoded_bytes(group) == group_bytes(group));
            if n == 4 {
                assert(group_bytes(group) =~= seq![
                    ((accum / 0x10000) % 0x100) as u8,
                    ((accum / 0x100) % 0x100) as u8,
                    (accum % 0x100) as u8,
                ]);
                assert((accum / 0x10000) % 0x100 == accum / 0x10000);
            } else if n == 3 {
                assert(group_bytes(group) =~= seq![
                    ((accum / 0x400) % 0x100) as u8,
                    ((accum / 4) % 0x100) as u8,
                ]);
            } else if n == 2 {
                assert(group_bytes(group) =~= seq![((accum / 0x10) % 0x100) as u8]);
            } else {
                assert(group_bytes(group) =~= Seq::<u8>::empty());
            }
        }
        i = group_end;
    }
    proof {
        assert(input@.subrange(0, len as int) =~= input@);
    }
    Ok(result)
}

/// One cell of the decoded 3x3 radar grid.
#[derive(Clone, Copy, Debug, PartialEq, Eq, Hash, Structural)]
pub enum RadarCell {
    /// The snapshot carries no information about this cell.
    Undefined,
    /// Free space the agent could stand on.
    Open,
    /// The maze exit.
    Exit,
    /// An unrecognized four-bit code, kept verbatim for diagnostics.
    Unknown(u8),
}

/// The cell classification a four-bit code decodes to: `1111` is
/// undefined, `0000` open, `1000` and `1001` the exit; anything else
/// is kept as an unknown code.
pub open spec fn cell_from_bits(bits: u8) -> RadarCell {
    if bits == 15 {
        RadarCell::Undefined
    } else if bits == 0 {
        RadarCell::Open
    } else if bits == 8 || bits == 9 {
        RadarCell::Exit
    } else {
        RadarCell::Unknown(bits)
    }
}

impl RadarCell {
    /// Classifies a four-bit cell code.
    pub fn from_bits(bits: u8) -> (r: RadarCell)
        ensures
            r == cell_from_bits(bits),
    {
        match bits {
            15 => RadarCell::Undefined,
            0 => RadarCell::Open,
            8 | 9 => RadarCell::Exit,
            _ => RadarCell::Unknown(bits),
        }
    }
}

/// A decoded radar snapshot: wall state along rows and columns plus
/// the nine cell classifications of the local 3x3 grid (row-major,
/// index 4 the agent's own cell).
#[derive(Clone, Debug, PartialEq, Eq, Hash)]
pub struct DecodedView {
    /// Four 6-bit passage fields along rows, two bits per wall.
    pub horizontal_passages: [u32; 4],
    /// Three 8-bit passage fields along columns, two bits per wall.
    pub vertical_passages: [u32; 3],
    /// The nine cells of the local grid.
    pub cells: Vec<RadarCell>,
}

impl DecodedView {
    /// A structurally sound snapshot carries exactly nine cells.
    pub open spec fn wf(&self) -> bool {
        self.cells@.len() == 9
    }

    /// Reads one of the four horizontal passage fields.
    pub fn get_horizontal_passage(&self, index: usize) -> (r: u32)
        requires
            index < 4,
        ensures
            r == self.horizontal_passages@[index as int],
    {
        self.horizontal_passages[index]
    }

    /// Reads one of the three vertical passage fields.
    pub fn get_vertical_passage(&self, index: usize) -> (r: u32)
        requires
            index < 3,
        ensures
            r == self.vertical_passages@[index as int],
    {
        self.vertical_passages[index]
    }
}

impl Default for DecodedView {
    /// An empty snapshot: all passage fields zero (every wall closed)
    /// and all nine cells undefined.
    fn default() -> (r: DecodedView)
        ensures
            r.wf(),
            r.horizontal_passages@ =~= seq![0u32, 0u32, 0u32, 0u32],
            r.vertical_passages@ =~= seq![0u32, 0u32, 0u32],
            forall|i: int| 0 <= i < 9 ==> r.cells@[i] == RadarCell::Undefined,
    {
        let mut cells: Vec<RadarCell> = Vec::new();
        let mut i: usize = 0;
        while i < 9
            invariant
                i <= 9,
                cells@.len() == i,
                forall|k: int| 0 <= k < i ==> cells@[k] == RadarCell::Undefined,
            decreases 9 - i,
        {
            cells.push(RadarCell::Undefined);
            i = i + 1;
        }
        DecodedView { horizontal_passages: [0, 0, 0, 0], vertical_passages: [0, 0, 0], cells }
    }
}

/// The 24-bit little-endian value held in bytes 0-2 of the decoded
/// payload (wall state along rows).
pub open spec fn horizontal_word(d: Seq<u8>) -> int {
    d[0] + d[1] * 0x100 + d[2] * 0x10000
}

/// The 24-bit little-endian value held in bytes 3-5 of the decoded
/// payload (wall state along columns).
pub open spec fn vertical_word(d: Seq<u8>) -> int {
    d[3] + d[4] * 0x100 + d[5] * 0x10000
}

/// The `k`-th horizontal passage field: six bits wide, field 0 taken
/// from the top of the 24-bit word down to field 3 at the bottom.
pub open spec fn horizontal_field(d: Seq<u8>, k: int) -> u32 {
    let w = horizontal_word(d);
    if k == 0 {
        ((w / 0x40000) % 0x40) as u32
    } else if k == 1 {
        ((w / 0x1000) % 0x40) as u32
    } else if k == 2 {
        ((w / 0x40) % 0x40) as u32
    } else {
        (w % 0x40) as u32
    }
}

/// The `k`-th vertical passage field: eight bits wide, field 0 taken
/// from the top of the 24-bit word down to field 2 at the bottom.
pub open spec fn vertical_field(d: Seq<u8>, k: int) -> u32 {
    let w = vertical_word(d);
    if k == 0 {
        ((w / 0x10000) % 0x100) as u32
    } else if k == 1 {
        ((w / 0x100) % 0x100) as u32
    } else {
        (w % 0x100) as u32
    }
}

/// The `i`-th four-bit cell code of the payload: bytes 6 onward read
/// as a bitstream, most significant bit first.
pub open spec fn cell_code(d: Seq<u8>, i: int) -> u8 {
    if i % 2 == 0 {
        (d[6 + i / 2] / 16) as u8
    } else {
        (d[6 + i / 2] % 16) as u8
    }
}

/// The `i`-th cell classification of the payload.
pub open spec fn cell_at(d: Seq<u8>, i: int) -> RadarCell {
    cell_from_bits(cell_code(d, i))
}

/// The mathematical model of a radar snapshot: the passage fields and
/// cells as plain sequences.
#[verifier::ext_equal]
pub struct RadarSpec {
    /// The four horizontal passage fields.
    pub horizontal_passages: Seq<u32>,
    /// The three vertical passage fields.
    pub vertical_passages: Seq<u32>,
    /// The cell classifications of the 3x3 grid.
    pub cells: Seq<RadarCell>,
}

impl View for DecodedView {
    type V = RadarSpec;

    open spec fn view(&self) -> RadarSpec {
        RadarSpec {
            horizontal_passages: self.horizontal_passages@,
            vertical_passages: self.vertical_passages@,
            cells: self.cells@,
        }
    }
}

/// The radar model a byte payload carries.
pub open spec fn radar_model(d: Seq<u8>) -> RadarSpec {
    RadarSpec {
        horizontal_passages: Seq::new(4, |k: int| horizontal_field(d, k)),
        vertical_passages: Seq::new(3, |k: int| vertical_field(d, k)),
        cells: Seq::new(9, |i: int| cell_at(d, i)),
    }
}

/// True when an encoded string decodes all the way to a radar view:
/// every character is in the alphabet and at least 11 bytes come out.
pub open spec fn decode_ok(s: Seq<char>) -> bool {
    all_valid_chars(s) && decoded_bytes(s).len() >= 11
}

/// The radar model an encoded string decodes to. Only meaningful when
/// decoding succeeds, that is, when the string is over the alphabet
/// and yields at least 11 bytes.
pub open spec fn radar_model_of_str(s: Seq<char>) -> RadarSpec {
    radar_model(decoded_bytes(s))
}

/// Slices the cell portion of the payload into the nine cell
/// classifications.
fn parse_cells_part(d: &[u8]) -> (cells: Vec<RadarCell>)
    requires
        d@.len() >= 11,
    ensures
        cells@ =~= Seq::new(9, |i: int| cell_at(d@, i)),
{
    let mut cells: Vec<RadarCell> = Vec::new();
    let mut i: usize = 0;
    while i < 9
        invariant
            i <= 9,
            d@.len() >= 11,
            cells@.len() == i,
            forall|k: int| 0 <= k < i ==> cells@[k] == cell_at(d@, k),
        decreases 9 - i,
    {
        let byte = d[6 + i / 2];
        let code = if i % 2 == 0 {
            byte / 16
        } else {
            byte % 16
        };
        cells.push(RadarCell::from_bits(code));
        i = i + 1;
    }
    cells
}

/// Builds the structured view from a decoded byte payload. Fails with
/// `TooShort` when fewer than 11 bytes are available.
fn format_decoded(d: &[u8]) -> (r: Result<DecodedView, DecodeError>)
    ensures
        r is Ok <==> d@.len() >= 11,
        r matches Ok(view) ==> view.wf() && view@ =~= radar_model(d@),
        r is Err ==> r == Result::<DecodedView, DecodeError>::Err(DecodeError::TooShort),
{
    if d.len() < 11 {
        return Err(DecodeError::TooShort);
    }
    let horizontal: u32 = d[0] as u32 + d[1] as u32 * 0x100 + d[2] as u32 * 0x10000;
    let vertical: u32 = d[3] as u32 + d[4] as u32 * 0x100 + d[5] as u32 * 0x10000;
    let view = DecodedView {
        horizontal_passages: [
            (horizontal / 0x40000) % 0x40,
            (horizontal / 0x1000) % 0x40,
            (horizontal / 0x40) % 0x40,
            horizontal % 0x40,
        ],
        vertical_passages: [(vertical / 0x10000) % 0x100, (vertical / 0x100) % 0x100, vertical
            % 0x100],
        cells: parse_cells_part(d),
    };
    Ok(view)
}

/// Decodes an encoded radar string all the way to a structured view.
///
/// The result is a function of the input characters alone: the same
/// string always yields the same view, with exactly nine cells.
pub fn decode_and_format(input: &str) -> (r: Result<DecodedView, DecodeError>)
    ensures
        r is Ok <==> all_valid_chars(input@) && decoded_bytes(input@).len() >= 11,
        r matches Ok(view) ==> view.wf() && view@ =~= radar_model_of_str(input@),
        r == Result::<DecodedView, DecodeError>::Err(DecodeError::TooShort) <==> all_valid_chars(
            input@,
        ) && decoded_bytes(input@).len() < 11,
        r matches Err(e) ==> e is InvalidCharacter ==> exists|j: int|
            {
                &&& 0 <= j < input@.len()
                &&& char_value(input@[j]) is None
                &&& (forall|k: int| 0 <= k < j ==> char_value(input@[k]) is Some)
                &&& e == DecodeError::InvalidCharacter(input@[j])
            },
{
    match custom_decode(input) {
        Ok(bytes) => format_decoded(bytes.as_slice()),
        Err(e) => Err(e),
    }
}

/// The two-bit group a passage field holds for `wall_index`: walls are
/// indexed from the top of the field, so wall 0 occupies the highest
/// pair of bits and wall 3 the lowest.
pub open spec fn passage_pair(passage: u32, wall_index: int) -> int {
    if wall_index == 0 {
        (passage as int / 0x40) % 4
    } else if wall_index == 1 {
        (passage as int / 0x10) % 4
    } else if wall_index == 2 {
        (passage as int / 4) % 4
    } else {
        passage as int % 4
    }
}

/// True exactly when the two-bit group for `wall_index` reads `01`,
/// the open-passage pattern; `00` and `10` are closed, and the
/// unexpected pattern `11` is tolerated as closed.
pub open spec fn passage_open(passage: u32, wall_index: int) -> bool {
    passage_pair(passage, wall_index) == 1
}

/// Tests whether a passage field reports the wall at `bit_index` open.
pub fn is_passage_open(passage: u32, bit_index: usize) -> (r: bool)
    requires
        bit_index <= 3,
    ensures
        r == passage_open(passage, bit_index as int),
{
    let divisor: u32 = if bit_index == 0 {
        0x40
    } else if bit_index == 1 {
        0x10
    } else if bit_index == 2 {
        4
    } else {
        1
    };
    let bits = (passage / divisor) % 4;
    bits == 1
}

/// A two-bit pattern of `00` or `10` never reads as an open passage,
/// whichever wall position it occupies.
pub proof fn lemma_closed_patterns(passage: u32, wall_index: int)
    requires
        0 <= wall_index <= 3,
        passage_pair(passage, wall_index) == 0 || passage_pair(passage, wall_index) == 2,
    ensures
        !passage_open(passage, wall_index),
{
}

} // verus!
