//! UTF-16, the encoding of strings at the Win32 boundary.
use vstd::prelude::*;

verus! {

/// `char::from_u32` gives the character with the given code, and `None` for a number that is
/// no Unicode scalar value.
pub assume_specification[ char::from_u32 ](i: u32) -> (c: Option<char>)
    ensures
        c is Some <==> is_scalar_value(i as int),
        c matches Some(ch) ==> ch as int == i,
;

/// Whether `n` is the code of a character.
pub open spec fn is_scalar_value(n: int) -> bool {
    0 <= n <= 0xD7FF || 0xE000 <= n <= 0x10FFFF
}

/// Whether a code unit can only be the first half of a surrogate pair.
pub open spec fn is_high_surrogate(unit: u16) -> bool {
    0xD800 <= unit <= 0xDBFF
}

/// Whether a code unit can only be the second half of a surrogate pair.
pub open spec fn is_low_surrogate(unit: u16) -> bool {
    0xDC00 <= unit <= 0xDFFF
}

/// The code units of one character.
pub open spec fn char_units(c: char) -> Seq<u16> {
    let n = c as int;
    if n < 0x10000 {
        seq![n as u16]
    } else {
        seq![
            (0xD800 + (n - 0x10000) / 0x400) as u16,
            (0xDC00 + (n - 0x10000) % 0x400) as u16,
        ]
    }
}

/// The code units of a string.
pub open spec fn encode(s: Seq<char>) -> Seq<u16>
    decreases s.len(),
{
    if s.len() == 0 {
        Seq::empty()
    } else {
        char_units(s[0]) + encode(s.skip(1))
    }
}

/// The character that a surrogate pair stands for.
pub open spec fn pair_char(high: u16, low: u16) -> char {
    (0x10000 + (high - 0xD800) * 0x400 + (low - 0xDC00)) as char
}

/// The character that a code unit outside any pair stands for; U+FFFD for half a pair.
pub open spec fn lone_char(unit: u16) -> char {
    if is_high_surrogate(unit) || is_low_surrogate(unit) {
        '\u{FFFD}'
    } else {
        unit as char
    }
}

/// The text of a sequence of code units, with U+FFFD for each half of a surrogate pair that
/// stands alone.
pub open spec fn decode_lossy(units: Seq<u16>) -> Seq<char>
    decreases units.len(),
{
    if units.len() == 0 {
        Seq::empty()
    } else if units.len() >= 2 && is_high_surrogate(units[0]) && is_low_surrogate(units[1]) {
        seq![pair_char(units[0], units[1])] + decode_lossy(units.skip(2))
    } else {
        seq![lone_char(units[0])] + decode_lossy(units.skip(1))
    }
}

/// What stands before the first NUL; all of it where there is none.
pub open spec fn before_nul(units: Seq<u16>) -> Seq<u16> {
    match units.index_of_first(0u16) {
        Some(at) => units.take(at),
        None => units,
    }
}

/// The code units that a buffer of little-endian byte pairs holds. An odd last byte is not
/// part of any.
pub open spec fn units_of_bytes(bytes: Seq<u8>) -> Seq<u16> {
    Seq::new(bytes.len() / 2, |i: int| (bytes[2 * i] + 256 * bytes[2 * i + 1]) as u16)
}

/// The little-endian bytes of a sequence of code units.
pub open spec fn bytes_of_units(units: Seq<u16>) -> Seq<u8> {
    Seq::new(
        2 * units.len(),
        |i: int|
            if i % 2 == 0 {
                (units[i / 2] % 256) as u8
            } else {
                (units[i / 2] / 256) as u8
            },
    )
}

/// Appends the code units of one character.
fn push_units(wide: &mut Vec<u16>, c: char)
    ensures
        final(wide)@ == old(wide)@ + char_units(c),
{
    let n: u32 = c as u32;
    if n < 0x10000 {
        wide.push(n as u16);
    } else {
        let offset: u32 = n - 0x10000;
        wide.push((0xD800 + offset / 0x400) as u16);
        wide.push((0xDC00 + offset % 0x400) as u16);
    }
    assert(wide@ =~= old(wide)@ + char_units(c));
}

/// Encode a UTF-8 `&str` as a null-terminated UTF-16 `Vec<u16>`.
pub fn wide_nul(s: &str) -> (wide: Vec<u16>)
    ensures
        wide@ == encode(s@).push(0),
{
    let mut wide: Vec<u16> = Vec::new();
    assert(s@.skip(0) =~= s@);
    assert(wide@ + encode(s@) =~= encode(s@));
    for c in it: s.chars()
        invariant
            it.seq() == s@,
            wide@ + encode(s@.skip(it.index())) == encode(s@),
    {
        let ghost before = wide@;
        push_units(&mut wide, c);
        proof {
            let left = s@.skip(it.index());
            let rest = s@.skip(it.index() + 1);
            assert(left.skip(1) =~= rest);
            assert(left[0] == c);
            assert(before + (char_units(c) + encode(rest)) =~= wide@ + encode(rest));
        }
    }
    assert(s@.skip(s@.len() as int) =~= Seq::<char>::empty());
    assert(wide@ + Seq::<u16>::empty() =~= wide@);
    wide.push(0);
    wide
}

/// Decodes UTF-16, putting U+FFFD in the place of each unpaired surrogate.
pub fn text_of_wide(wide: &[u16]) -> (text: String)
    ensures
        text@ == decode_lossy(wide@),
{
    let mut text: String = String::new();
    let mut i: usize = 0;
    assert(wide@.skip(0) =~= wide@);
    assert(text@ + decode_lossy(wide@) =~= decode_lossy(wide@));
    while i < wide.len()
        invariant
            i <= wide.len(),
            text@ + decode_lossy(wide@.skip(i as int)) == decode_lossy(wide@),
        decreases wide.len() - i,
    {
        let unit: u16 = wide[i];
        let ghost left = wide@.skip(i as int);
        let ghost before = text@;
        let mut next: char = '\u{FFFD}';
        let mut width: usize = 1;
        if 0xD800 <= unit && unit <= 0xDBFF {
            if wide.len() - i >= 2 && 0xDC00 <= wide[i + 1] && wide[i + 1] <= 0xDFFF {
                let code: u32 = 0x10000 + (unit as u32 - 0xD800) * 0x400 + (wide[i + 1] as u32
                    - 0xDC00);
                if let Some(c) = char::from_u32(code) {
                    next = c;
                }
                width = 2;
            }
        } else if !(0xDC00 <= unit && unit <= 0xDFFF) {
            if let Some(c) = char::from_u32(unit as u32) {
                next = c;
            }
        }
        text.push(next);
        i = i + width;
        proof {
            assert(left.skip(width as int) =~= wide@.skip(i as int));
            assert(decode_lossy(left) == seq![next] + decode_lossy(wide@.skip(i as int)));
            assert(before + (seq![next] + decode_lossy(wide@.skip(i as int))) =~= text@
                + decode_lossy(wide@.skip(i as int)));
        }
    }
    assert(wide@.skip(wide@.len() as int) =~= Seq::<u16>::empty());
    assert(text@ + Seq::<char>::empty() =~= text@);
    text
}

/// The string in a buffer of little-endian UTF-16 that ends at the first NUL or with the
/// buffer.
pub open spec fn text_in_buffer(bytes: Seq<u8>) -> Seq<char> {
    decode_lossy(before_nul(units_of_bytes(bytes)))
}

/// Reads the string out of a buffer of little-endian UTF-16.
pub fn text_of_buffer(bytes: &[u8]) -> (text: String)
    ensures
        text@ == text_in_buffer(bytes@),
{
    let mut wide: Vec<u16> = Vec::new();
    let count: usize = bytes.len() / 2;
    let ghost units = units_of_bytes(bytes@);
    let mut i: usize = 0;
    let mut ended: bool = false;
    while i < count && !ended
        invariant
            i <= count,
            2 * count <= bytes.len(),
            count == bytes@.len() / 2,
            units == units_of_bytes(bytes@),
            wide@ == units.take(i as int),
            forall|j: int| 0 <= j < i ==> units[j] != 0,
            ended ==> i < count && units[i as int] == 0,
        decreases count - i + (if ended { 0int } else { 1int }),
    {
        let unit: u16 = bytes[2 * i] as u16 + 256 * (bytes[2 * i + 1] as u16);
        assert(unit == units[i as int]);
        if unit == 0 {
            ended = true;
        } else {
            wide.push(unit);
            i = i + 1;
            assert(wide@ =~= units.take(i as int));
        }
    }
    proof {
        units.index_of_first_ensures(0u16);
        if ended {
            assert(units.contains(0));
            assert(units.index_of_first(0u16) == Some(i as int));
        } else {
            assert(units.take(i as int) =~= units);
        }
    }
    text_of_wide(wide.as_slice())
}

/// The code of a character is a Unicode scalar value.
proof fn char_is_scalar_value(c: char)
    ensures
        is_scalar_value(c as int),
{
}

/// Decoding undoes encoding: every string survives UTF-16 unchanged.
pub proof fn decode_of_encode(s: Seq<char>)
    ensures
        decode_lossy(encode(s)) == s,
    decreases s.len(),
{
    if s.len() > 0 {
        let c = s[0];
        let rest = s.skip(1);
        char_is_scalar_value(c);
        decode_of_encode(rest);
        let units = encode(s);
        if (c as int) < 0x10000 {
            assert(units.skip(1) =~= encode(rest));
            assert(lone_char(units[0]) == c);
        } else {
            assert(units.skip(2) =~= encode(rest));
            assert(pair_char(units[0], units[1]) == c);
        }
        assert(seq![c] + rest =~= s);
    }
}

/// A string without NUL characters has no NUL code unit.
proof fn encode_has_no_nul(s: Seq<char>)
    requires
        !s.contains('\0'),
    ensures
        !encode(s).contains(0),
    decreases s.len(),
{
    if s.len() > 0 {
        let c = s[0];
        let rest = s.skip(1);
        char_is_scalar_value(c);
        assert(s.contains(c));
        assert(!rest.contains('\0')) by {
            assert forall|i: int| 0 <= i < rest.len() implies rest[i] != '\0' by {
                assert(rest[i] == s[i + 1]);
                assert(s.contains(s[i + 1]));
            }
        }
        encode_has_no_nul(rest);
        let units = encode(s);
        let head = char_units(c);
        assert forall|i: int| 0 <= i < units.len() implies units[i] != 0 by {
            if i >= head.len() {
                assert(units[i] == encode(rest)[i - head.len()]);
                assert(encode(rest).contains(encode(rest)[i - head.len()]));
            }
        }
    }
}

/// Reading code units back from their bytes gives them unchanged.
pub proof fn units_of_bytes_of_units(units: Seq<u16>)
    ensures
        units_of_bytes(bytes_of_units(units)) == units,
{
    let bytes = bytes_of_units(units);
    assert forall|i: int| 0 <= i < units.len() implies units_of_bytes(bytes)[i] == units[i] by {
        assert((2 * i) / 2 == i && (2 * i) % 2 == 0);
        assert((2 * i + 1) / 2 == i && (2 * i + 1) % 2 == 1);
    }
    assert(units_of_bytes(bytes) =~= units);
}

/// A NUL behind NUL-free code units ends them, whatever follows.
proof fn before_nul_of_terminated(units: Seq<u16>, junk: Seq<u16>)
    requires
        !units.contains(0),
    ensures
        before_nul(units.push(0) + junk) == units,
{
    let all = units.push(0) + junk;
    let at = units.len() as int;
    assert(all[at] == 0);
    assert(all.contains(0));
    all.index_of_first_ensures(0u16);
    let first = all.index_of_first(0u16)->0;
    if first < at {
        assert(units[first] == 0);
    }
    assert(all.take(at) =~= units);
}

/// What a NUL-terminated UTF-16 buffer reads as is the string that was written to it: for any
/// string `s` without NUL characters, the bytes of [`wide_nul`]`(s)`, with anything at all
/// behind them, read back as `s`.
pub proof fn buffer_reads_back(s: Seq<char>, junk: Seq<u16>)
    requires
        !s.contains('\0'),
    ensures
        text_in_buffer(bytes_of_units(encode(s).push(0) + junk)) == s,
{
    encode_has_no_nul(s);
    units_of_bytes_of_units(encode(s).push(0) + junk);
    before_nul_of_terminated(encode(s), junk);
    decode_of_encode(s);
}

/// A buffer that holds exactly the code units of a NUL-free string, without a terminator,
/// reads as that string too.
pub proof fn unterminated_buffer_reads_back(s: Seq<char>)
    requires
        !s.contains('\0'),
    ensures
        text_in_buffer(bytes_of_units(encode(s))) == s,
{
    encode_has_no_nul(s);
    units_of_bytes_of_units(encode(s));
    encode(s).index_of_first_ensures(0u16);
    decode_of_encode(s);
}

/// A character below U+10000 is one code unit, the number of which is its code. Any other is a
/// high surrogate and a low one, which hold the two halves of the twenty bits of its code above
/// U+10000.
pub proof fn units_of_a_character(c: char)
    ensures
        (c as int) < 0x10000 ==> char_units(c).len() == 1 && char_units(c)[0] as int == c as int,
        (c as int) >= 0x10000 ==> {
            let units = char_units(c);
            &&& units.len() == 2
            &&& 0xD800 <= units[0] <= 0xDBFF
            &&& 0xDC00 <= units[1] <= 0xDFFF
            &&& (units[0] - 0xD800) * 0x400 + (units[1] - 0xDC00) == c as int - 0x10000
        },
{
    char_is_scalar_value(c);
}

/// A string is encoded character by character: in front of the code units of the rest stand
/// those of the first character, one with the number of its code if that is below U+10000, else
/// the surrogate pair that holds the code.
pub proof fn encoding_goes_by_character(c: char, rest: Seq<char>, unit: u16, high: u16, low: u16)
    ensures
        encode(Seq::empty()) == Seq::<u16>::empty(),
        unit as int == c as int ==> encode(seq![c] + rest) == seq![unit] + encode(rest),
        0xD800 <= high <= 0xDBFF && 0xDC00 <= low <= 0xDFFF && c as int == 0x10000 + (high
            - 0xD800) * 0x400 + (low - 0xDC00) ==> encode(seq![c] + rest) == seq![high, low]
            + encode(rest),
{
    units_of_a_character(c);
    assert((seq![c] + rest).skip(1) =~= rest);
    if unit as int == c as int {
        assert(char_units(c) =~= seq![unit]);
    }
    if 0xD800 <= high <= 0xDBFF && 0xDC00 <= low <= 0xDFFF && c as int == 0x10000 + (high
        - 0xD800) * 0x400 + (low - 0xDC00) {
        assert(char_units(c) =~= seq![high, low]);
    }
}

/// A code unit that is no surrogate stands for the character whose code is its number, whatever
/// follows it.
pub proof fn plain_unit_is_its_character(unit: u16, rest: Seq<u16>, c: char)
    requires
        unit as int == c as int,
    ensures
        decode_lossy(seq![unit]) == seq![c],
        decode_lossy(seq![unit] + rest) == seq![c] + decode_lossy(rest),
{
    char_is_scalar_value(c);
    let empty = Seq::<u16>::empty();
    assert((seq![unit] + rest).skip(1) =~= rest);
    assert(seq![unit].skip(1) =~= empty);
    assert(seq![c] + decode_lossy(empty) =~= seq![c]);
}

/// A high surrogate in front of a low one stands, together with it, for the character whose code
/// the two hold, whatever follows.
pub proof fn surrogate_pair_is_its_character(high: u16, low: u16, rest: Seq<u16>, c: char)
    requires
        0xD800 <= high <= 0xDBFF,
        0xDC00 <= low <= 0xDFFF,
        c as int == 0x10000 + (high - 0xD800) * 0x400 + (low - 0xDC00),
    ensures
        decode_lossy(seq![high, low] + rest) == seq![c] + decode_lossy(rest),
{
    assert((seq![high, low] + rest).skip(2) =~= rest);
}

/// A surrogate that is no part of a pair is replaced by U+FFFD, and what follows is read as if it
/// stood alone; no code unit at all is no text.
pub proof fn lone_surrogate_is_replaced(unit: u16, rest: Seq<u16>)
    requires
        0xD800 <= unit <= 0xDFFF,
        unit <= 0xDBFF ==> rest.len() == 0 || rest[0] < 0xDC00 || rest[0] > 0xDFFF,
    ensures
        decode_lossy(Seq::empty()) == Seq::<char>::empty(),
        decode_lossy(seq![unit] + rest) == seq!['\u{FFFD}'] + decode_lossy(rest),
{
    assert((seq![unit] + rest).skip(1) =~= rest);
}

/// Code units that are the codes of the characters of a string read as that string.
pub proof fn plain_units_read_as_their_characters(units: Seq<u16>, s: Seq<char>)
    requires
        units.len() == s.len(),
        forall|i: int| 0 <= i < s.len() ==> #[trigger] units[i] as int == s[i] as int,
    ensures
        decode_lossy(units) == s,
    decreases s.len(),
{
    if s.len() > 0 {
        let rest = units.skip(1);
        assert forall|i: int| 0 <= i < s.skip(1).len() implies #[trigger] rest[i] as int == s.skip(
            1,
        )[i] as int by {
            assert(rest[i] == units[i + 1]);
        }
        plain_units_read_as_their_characters(rest, s.skip(1));
        assert(units[0] as int == s[0] as int);
        plain_unit_is_its_character(units[0], rest, s[0]);
        assert(seq![units[0]] + rest =~= units);
        assert(seq![s[0]] + s.skip(1) =~= s);
    } else {
        assert(units =~= Seq::<u16>::empty());
        assert(s =~= Seq::<char>::empty());
    }
}

/// The text in a buffer is that of the code units that its byte pairs make up, the low byte
/// first, up to the first pair of zeros or the last whole pair.
pub proof fn buffer_text_is_that_of_its_pairs(bytes: Seq<u8>, units: Seq<u16>, end: int)
    requires
        units.len() == bytes.len() / 2,
        forall|i: int|
            0 <= i < units.len() ==> #[trigger] units[i] as int == bytes[2 * i] + 256 * bytes[2 * i
                + 1],
        0 <= end <= units.len(),
        forall|i: int| 0 <= i < end ==> #[trigger] units[i] != 0,
        end < units.len() ==> units[end] == 0,
    ensures
        text_in_buffer(bytes) == decode_lossy(units.take(end)),
{
    let read = units_of_bytes(bytes);
    assert forall|i: int| 0 <= i < units.len() implies read[i] == units[i] by {
        assert(units[i] as int == bytes[2 * i] + 256 * bytes[2 * i + 1]);
    }
    assert(read =~= units);
    units.index_of_first_ensures(0u16);
    if end < units.len() {
        assert(units.contains(0));
        assert(units.index_of_first(0u16) == Some(end));
    } else {
        assert(!units.contains(0));
        assert(units.take(end) =~= units);
    }
}

/// A label whose characters are stored one per byte pair, by their codes and the low byte first,
/// reads as that label, whether a pair of zeros or the end of the buffer ends it.
pub proof fn plain_label_reads_as_its_characters(bytes: Seq<u8>, label: Seq<char>)
    requires
        2 * label.len() <= bytes.len(),
        forall|i: int|
            0 <= i < label.len() ==> 0 < #[trigger] label[i] as int && label[i] as int == bytes[2
                * i] + 256 * bytes[2 * i + 1],
        bytes.len() / 2 == label.len() || (bytes[2 * label.len() as int] == 0 && bytes[2
            * label.len() as int + 1] == 0),
    ensures
        text_in_buffer(bytes) == label,
{
    let units = Seq::new(
        bytes.len() / 2,
        |i: int| (bytes[2 * i] + 256 * bytes[2 * i + 1]) as u16,
    );
    let end = label.len() as int;
    assert forall|i: int| 0 <= i < units.len() implies #[trigger] units[i] as int == bytes[2 * i]
        + 256 * bytes[2 * i + 1] by {}
    assert forall|i: int| 0 <= i < end implies #[trigger] units[i] != 0 by {
        assert(label[i] as int == bytes[2 * i] + 256 * bytes[2 * i + 1]);
    }
    buffer_text_is_that_of_its_pairs(bytes, units, end);
    let kept = units.take(end);
    assert forall|i: int| 0 <= i < label.len() implies #[trigger] kept[i] as int
        == label[i] as int by {
        assert(kept[i] == units[i]);
    }
    plain_units_read_as_their_characters(kept, label);
}

/// The bytes of a sequence of code units are two for each, the low one first.
pub proof fn bytes_hold_their_units(units: Seq<u16>)
    ensures
        bytes_of_units(units).len() == 2 * units.len(),
        forall|i: int|
            0 <= i < units.len() ==> #[trigger] units[i] as int == bytes_of_units(units)[2 * i]
                + 256 * bytes_of_units(units)[2 * i + 1],
{
    assert forall|i: int| 0 <= i < units.len() implies #[trigger] units[i] as int
        == bytes_of_units(units)[2 * i] + 256 * bytes_of_units(units)[2 * i + 1] by {
        assert((2 * i) / 2 == i && (2 * i) % 2 == 0);
        assert((2 * i + 1) / 2 == i && (2 * i + 1) % 2 == 1);
    }
}

} // verus!
