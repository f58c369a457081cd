//! Strings as sequences of characters: cutting at a separator, joining, decimal numbers.
use vstd::prelude::*;

verus! {

/// `std::string::String::push` appends one character to the end of the string.
pub assume_specification[ String::push ](s: &mut String, c: char)
    ensures
        final(s)@ == old(s)@.push(c),
;

/// The pieces of `s` between its separators, in order.
///
/// A string with `n` separators has `n + 1` pieces, some of them possibly empty.
pub open spec fn fields(s: Seq<char>, sep: char) -> Seq<Seq<char>>
    decreases s.len(),
{
    match s.index_of_first(sep) {
        Some(at) if 0 <= at < s.len() => seq![s.take(at)] + fields(s.skip(at + 1), sep),
        _ => seq![s],
    }
}

/// The pieces written one after another with a separator between neighbours.
pub open spec fn join(parts: Seq<Seq<char>>, sep: char) -> Seq<char>
    decreases parts.len(),
{
    if parts.len() == 0 {
        Seq::empty()
    } else if parts.len() == 1 {
        parts[0]
    } else {
        parts[0] + seq![sep] + join(parts.skip(1), sep)
    }
}

/// The characters of each string of a list.
pub open spec fn texts(list: Seq<String>) -> Seq<Seq<char>> {
    list.map_values(|s: String| s@)
}

/// A separator-free head stands in front of the pieces of what follows the first separator.
pub proof fn fields_of_head_and_rest(head: Seq<char>, rest: Seq<char>, sep: char)
    requires
        !head.contains(sep),
    ensures
        fields(head + seq![sep] + rest, sep) == seq![head] + fields(rest, sep),
{
    let s = head + seq![sep] + rest;
    let at = head.len() as int;
    assert(s[at] == sep);
    assert(s.contains(sep));
    s.index_of_first_ensures(sep);
    let first = s.index_of_first(sep)->0;
    if first < at {
        assert(head[first] == sep);
    }
    assert(first == at);
    assert(s.take(at) =~= head);
    assert(s.skip(at + 1) =~= rest);
}

/// A string without separators is its own single piece.
pub proof fn fields_of_single(s: Seq<char>, sep: char)
    requires
        !s.contains(sep),
    ensures
        fields(s, sep) == seq![s],
{
    s.index_of_first_ensures(sep);
}

/// Cutting undoes joining: separator-free pieces come back as they were.
pub proof fn fields_of_join(parts: Seq<Seq<char>>, sep: char)
    requires
        parts.len() > 0,
        forall|i: int| 0 <= i < parts.len() ==> !(#[trigger] parts[i]).contains(sep),
    ensures
        fields(join(parts, sep), sep) == parts,
    decreases parts.len(),
{
    if parts.len() == 1 {
        fields_of_single(parts[0], sep);
        assert(seq![parts[0]] =~= parts);
    } else {
        let rest = parts.skip(1);
        assert forall|i: int| 0 <= i < rest.len() implies !(#[trigger] rest[i]).contains(sep) by {
            assert(rest[i] == parts[i + 1]);
        }
        fields_of_join(rest, sep);
        fields_of_head_and_rest(parts[0], join(rest, sep), sep);
        assert(seq![parts[0]] + rest =~= parts);
    }
}

/// Joining undoes cutting: the pieces of a string give the string back, and none of them
/// holds the separator.
pub proof fn join_of_fields(s: Seq<char>, sep: char)
    ensures
        fields(s, sep).len() > 0,
        join(fields(s, sep), sep) == s,
        forall|i: int| 0 <= i < fields(s, sep).len() ==> !(#[trigger] fields(s, sep)[i]).contains(
            sep,
        ),
    decreases s.len(),
{
    s.index_of_first_ensures(sep);
    if s.contains(sep) {
        let at = s.index_of_first(sep)->0;
        let rest = s.skip(at + 1);
        join_of_fields(rest, sep);
        let parts = fields(s, sep);
        assert(parts == seq![s.take(at)] + fields(rest, sep));
        assert(parts.skip(1) =~= fields(rest, sep));
        assert(s.take(at) + seq![sep] + rest =~= s);
        assert forall|i: int| 0 <= i < parts.len() implies !(#[trigger] parts[i]).contains(
            sep,
        ) by {
            if i > 0 {
                assert(parts[i] == fields(rest, sep)[i - 1]);
            }
        }
    }
}

/// Cuts `s` at every `sep`.
pub fn split(s: &str, sep: char) -> (parts: Vec<String>)
    ensures
        texts(parts@) == fields(s@, sep),
{
    let mut parts: Vec<String> = Vec::new();
    let mut piece: String = String::new();
    proof {
        assert(texts(parts@) + fields(s@, sep) =~= fields(s@, sep));
        assert(piece@ + s@.skip(0) =~= s@);
    }
    for c in it: s.chars()
        invariant
            it.seq() == s@,
            !piece@.contains(sep),
            texts(parts@) + fields(piece@ + s@.skip(it.index()), sep) == fields(s@, sep),
    {
        let ghost before = s@.skip(it.index());
        let ghost left = s@.skip(it.index() + 1);
        assert(before =~= seq![c] + left);
        if c == sep {
            proof {
                fields_of_head_and_rest(piece@, left, sep);
                assert(piece@ + before =~= piece@ + seq![sep] + left);
                assert(texts(parts@.push(piece)) =~= texts(parts@).push(piece@));
                assert(texts(parts@) + (seq![piece@] + fields(left, sep)) =~= texts(parts@).push(
                    piece@,
                ) + fields(left, sep));
                assert(Seq::<char>::empty() + left =~= left);
            }
            parts.push(piece);
            piece = String::new();
        } else {
            assert(piece@ + before =~= piece@.push(c) + left);
            piece.push(c);
        }
    }
    proof {
        assert(piece@ + s@.skip(s@.len() as int) =~= piece@);
        fields_of_single(piece@, sep);
        assert(texts(parts@.push(piece)) =~= texts(parts@) + seq![piece@]);
    }
    parts.push(piece);
    parts
}

/// The decimal digit that stands for `d`.
pub open spec fn digit(d: nat) -> char {
    (d + 48) as char
}

/// A number in decimal, without leading zeros.
pub open spec fn decimal(n: nat) -> Seq<char>
    decreases n,
{
    if n < 10 {
        seq![digit(n)]
    } else {
        decimal(n / 10).push(digit(n % 10))
    }
}

/// Writes `n` in decimal.
pub fn decimal_text(n: u32) -> (text: String)
    ensures
        text@ == decimal(n as nat),
    decreases n,
{
    let last: char = ((n % 10) as u8 + 48) as char;
    let mut text: String = if n < 10 {
        String::new()
    } else {
        decimal_text(n / 10)
    };
    text.push(last);
    assert(text@ =~= decimal(n as nat));
    text
}

/// A list of strings has the characters of each string, in its place.
pub proof fn texts_are_those_of_the_strings(list: Seq<String>)
    ensures
        texts(list).len() == list.len(),
        forall|i: int| 0 <= i < list.len() ==> #[trigger] texts(list)[i] == list[i]@,
{
}

/// A single digit is written as itself, and writing a further digit behind a number, other than
/// zero, multiplies it by ten and adds the digit.
pub proof fn decimal_goes_by_digit(n: nat, d: nat, c: char)
    requires
        d < 10,
        c as int == '0' as int + d,
    ensures
        decimal(d) == seq![c],
        n > 0 ==> decimal(10 * n + d) == decimal(n).push(c),
{
    if n > 0 {
        assert((10 * n + d) / 10 == n);
        assert((10 * n + d) % 10 == d);
    }
}

/// A number is written in decimal digits, and without a leading zero unless it is zero.
pub proof fn decimal_is_all_digits(n: nat)
    ensures
        decimal(n).len() > 0,
        forall|i: int| 0 <= i < decimal(n).len() ==> '0' <= #[trigger] decimal(n)[i] <= '9',
        n > 0 ==> decimal(n)[0] != '0',
    decreases n,
{
    if n >= 10 {
        decimal_is_all_digits(n / 10);
    }
}

} // verus!
