//! The cypher mapping table: each of the 26 Latin letters is associated with
//! a Unicode combining diacritical mark (the letter `A` alone stands for
//! itself), and every encoded form is the base character `A`/`a` followed by
//! that mark.

use vstd::prelude::*;

verus! {

/// `c` is an uppercase Latin letter `A`..`Z`.
pub open spec fn is_upper_letter(c: char) -> bool {
    'A' <= c && c <= 'Z'
}

/// `c` is a lowercase Latin letter `a`..`z`.
pub open spec fn is_lower_letter(c: char) -> bool {
    'a' <= c && c <= 'z'
}

/// `c` is a Latin letter of either case.
pub open spec fn is_letter(c: char) -> bool {
    is_upper_letter(c) || is_lower_letter(c)
}

/// `c` is a letter whose encoded form carries a combining mark, i.e. any
/// letter other than `A`/`a` (which encode as themselves, mark-free).
pub open spec fn has_mark(c: char) -> bool {
    is_letter(c) && c != 'A' && c != 'a'
}

/// The combining diacritical mark assigned to the letter `c` (either case).
/// For characters without an entry in the table the result is the null
/// character, which is never a valid mark.
pub open spec fn mark_of(c: char) -> char {
    match c {
        'B' | 'b' => '\u{0307}',
        'C' | 'c' => '\u{0321}',
        'D' | 'd' => '\u{0331}',
        'E' | 'e' => '\u{0301}',
        'F' | 'f' => '\u{032E}',
        'G' | 'g' => '\u{030B}',
        'H' | 'h' => '\u{0330}',
        'I' | 'i' => '\u{0309}',
        'J' | 'j' => '\u{0313}',
        'K' | 'k' => '\u{0323}',
        'L' | 'l' => '\u{0306}',
        'M' | 'm' => '\u{030C}',
        'N' | 'n' => '\u{0302}',
        'O' | 'o' => '\u{030A}',
        'P' | 'p' => '\u{032F}',
        'Q' | 'q' => '\u{0324}',
        'R' | 'r' => '\u{0311}',
        'S' | 's' => '\u{0303}',
        'T' | 't' => '\u{0304}',
        'U' | 'u' => '\u{0308}',
        'V' | 'v' => '\u{0300}',
        'W' | 'w' => '\u{030F}',
        'X' | 'x' => '\u{036F}',
        'Y' | 'y' => '\u{0326}',
        'Z' | 'z' => '\u{0337}',
        _ => '\u{0000}',
    }
}

/// `m` is one of the 25 combining marks used by the table.
pub open spec fn is_cypher_mark(m: char) -> bool {
    match m {
        '\u{0307}' | '\u{0321}' | '\u{0331}' | '\u{0301}' | '\u{032E}'
        | '\u{030B}' | '\u{0330}' | '\u{0309}' | '\u{0313}' | '\u{0323}'
        | '\u{0306}' | '\u{030C}' | '\u{0302}' | '\u{030A}' | '\u{032F}'
        | '\u{0324}' | '\u{0311}' | '\u{0303}' | '\u{0304}' | '\u{0308}'
        | '\u{0300}' | '\u{030F}' | '\u{036F}' | '\u{0326}' | '\u{0337}' => true,
        _ => false,
    }
}

/// The uppercase letter whose table entry carries the mark `m`; the null
/// character if `m` is not a mark of the table.
pub open spec fn upper_for_mark(m: char) -> char {
    match m {
        '\u{0307}' => 'B',
        '\u{0321}' => 'C',
        '\u{0331}' => 'D',
        '\u{0301}' => 'E',
        '\u{032E}' => 'F',
        '\u{030B}' => 'G',
        '\u{0330}' => 'H',
        '\u{0309}' => 'I',
        '\u{0313}' => 'J',
        '\u{0323}' => 'K',
        '\u{0306}' => 'L',
        '\u{030C}' => 'M',
        '\u{0302}' => 'N',
        '\u{030A}' => 'O',
        '\u{032F}' => 'P',
        '\u{0324}' => 'Q',
        '\u{0311}' => 'R',
        '\u{0303}' => 'S',
        '\u{0304}' => 'T',
        '\u{0308}' => 'U',
        '\u{0300}' => 'V',
        '\u{030F}' => 'W',
        '\u{036F}' => 'X',
        '\u{0326}' => 'Y',
        '\u{0337}' => 'Z',
        _ => '\u{0000}',
    }
}

/// The lowercase counterpart of an uppercase Latin letter; any other
/// character is left as it is.
pub open spec fn to_lower(c: char) -> char {
    match c {
        'A' => 'a',
        'B' => 'b',
        'C' => 'c',
        'D' => 'd',
        'E' => 'e',
        'F' => 'f',
        'G' => 'g',
        'H' => 'h',
        'I' => 'i',
        'J' => 'j',
        'K' => 'k',
        'L' => 'l',
        'M' => 'm',
        'N' => 'n',
        'O' => 'o',
        'P' => 'p',
        'Q' => 'q',
        'R' => 'r',
        'S' => 's',
        'T' => 't',
        'U' => 'u',
        'V' => 'v',
        'W' => 'w',
        'X' => 'x',
        'Y' => 'y',
        'Z' => 'z',
        _ => c,
    }
}

/// The encoded form of one character: letters become the base `A`/`a`
/// followed by their combining mark (`A`/`a` themselves stay bare), every
/// other character stands for itself.
pub open spec fn encode_char(c: char) -> Seq<char> {
    if is_upper_letter(c) {
        if c == 'A' {
            seq!['A']
        } else {
            seq!['A', mark_of(c)]
        }
    } else if is_lower_letter(c) {
        if c == 'a' {
            seq!['a']
        } else {
            seq!['a', mark_of(c)]
        }
    } else {
        seq![c]
    }
}

/// The character an encoded pair decodes to: an uppercase base `A` yields
/// the uppercase letter of the mark, a lowercase base its lowercase form.
pub open spec fn decode_pair(base: char, m: char) -> char {
    if base == 'A' {
        upper_for_mark(m)
    } else {
        to_lower(upper_for_mark(m))
    }
}

/// The table's marks identify their letters: each marked letter is recovered
/// from its own mark, case included.
pub proof fn lemma_mark_inverse(c: char)
    requires
        has_mark(c),
    ensures
        is_cypher_mark(mark_of(c)),
        is_upper_letter(c) ==> upper_for_mark(mark_of(c)) == c,
        is_lower_letter(c) ==> to_lower(upper_for_mark(mark_of(c))) == c,
{
}

/// The mapping is injective: no two characters share an encoded form, so
/// decryption is unambiguous. In particular the 26 uppercase entries of the
/// table are pairwise distinct.
pub proof fn lemma_encode_injective(c1: char, c2: char)
    requires
        c1 != c2,
    ensures
        encode_char(c1) != encode_char(c2),
{
    if encode_char(c1).len() == 1 && encode_char(c2).len() == 1 {
        assert(encode_char(c1)[0] != encode_char(c2)[0]);
    } else if encode_char(c1).len() == 2 && encode_char(c2).len() == 2 {
        assert(has_mark(c1) && has_mark(c2));
        if encode_char(c1)[0] == encode_char(c2)[0] {
            assert(encode_char(c1)[1] != encode_char(c2)[1]);
        }
    }
}

/// Relies on `String::push`: appends the given character to the end of the
/// string.
pub assume_specification[ String::push ](s: &mut String, c: char)
    ensures
        final(s)@ == old(s)@.push(c),
;

/// The combining mark of a marked letter, as executable code.
pub(crate) fn mark_for(c: char) -> (m: char)
    ensures
        m == mark_of(c),
{
    match c {
        'B' | 'b' => '\u{0307}',
        'C' | 'c' => '\u{0321}',
        'D' | 'd' => '\u{0331}',
        'E' | 'e' => '\u{0301}',
        'F' | 'f' => '\u{032E}',
        'G' | 'g' => '\u{030B}',
        'H' | 'h' => '\u{0330}',
        'I' | 'i' => '\u{0309}',
        'J' | 'j' => '\u{0313}',
        'K' | 'k' => '\u{0323}',
        'L' | 'l' => '\u{0306}',
        'M' | 'm' => '\u{030C}',
        'N' | 'n' => '\u{0302}',
        'O' | 'o' => '\u{030A}',
        'P' | 'p' => '\u{032F}',
        'Q' | 'q' => '\u{0324}',
        'R' | 'r' => '\u{0311}',
        'S' | 's' => '\u{0303}',
        'T' | 't' => '\u{0304}',
        'U' | 'u' => '\u{0308}',
        'V' | 'v' => '\u{0300}',
        'W' | 'w' => '\u{030F}',
        'X' | 'x' => '\u{036F}',
        'Y' | 'y' => '\u{0326}',
        'Z' | 'z' => '\u{0337}',
        _ => '\u{0000}',
    }
}

/// Looks `m` up among the table's marks: the uppercase letter it belongs to,
/// or `None` if no entry carries it.
pub(crate) fn letter_for_mark(m: char) -> (r: Option<char>)
    ensures
        r is Some <==> is_cypher_mark(m),
        r is Some ==> r->Some_0 == upper_for_mark(m),
{
    match m {
        '\u{0307}' => Some('B'),
        '\u{0321}' => Some('C'),
        '\u{0331}' => Some('D'),
        '\u{0301}' => Some('E'),
        '\u{032E}' => Some('F'),
        '\u{030B}' => Some('G'),
        '\u{0330}' => Some('H'),
        '\u{0309}' => Some('I'),
        '\u{0313}' => Some('J'),
        '\u{0323}' => Some('K'),
        '\u{0306}' => Some('L'),
        '\u{030C}' => Some('M'),
        '\u{0302}' => Some('N'),
        '\u{030A}' => Some('O'),
        '\u{032F}' => Some('P'),
        '\u{0324}' => Some('Q'),
        '\u{0311}' => Some('R'),
        '\u{0303}' => Some('S'),
        '\u{0304}' => Some('T'),
        '\u{0308}' => Some('U'),
        '\u{0300}' => Some('V'),
        '\u{030F}' => Some('W'),
        '\u{036F}' => Some('X'),
        '\u{0326}' => Some('Y'),
        '\u{0337}' => Some('Z'),
        _ => None,
    }
}

/// The lowercase counterpart of an uppercase letter, as executable code.
pub(crate) fn lower_letter(c: char) -> (r: char)
    ensures
        r == to_lower(c),
{
    match c {
        'A' => 'a',
        'B' => 'b',
        'C' => 'c',
        'D' => 'd',
        'E' => 'e',
        'F' => 'f',
        'G' => 'g',
        'H' => 'h',
        'I' => 'i',
        'J' => 'j',
        'K' => 'k',
        'L' => 'l',
        'M' => 'm',
        'N' => 'n',
        'O' => 'o',
        'P' => 'p',
        'Q' => 'q',
        'R' => 'r',
        'S' => 's',
        'T' => 't',
        'U' => 'u',
        'V' => 'v',
        'W' => 'w',
        'X' => 'x',
        'Y' => 'y',
        'Z' => 'z',
        _ => c,
    }
}

/// The cypher mapping table as a value: the 26 pairs of an uppercase letter
/// and its encoded form, in letter order `A`..`Z`.
pub fn cypher_map() -> (entries: Vec<(char, String)>)
    ensures
        entries@.len() == 26,
        forall|j: int|
            0 <= j < 26 ==> (#[trigger] entries@[j].0) as int == 'A' as int + j
                && entries@[j].1@ == encode_char(entries@[j].0),
{
    let mut entries: Vec<(char, String)> = Vec::new();
    let mut j: usize = 0;
    while j < 26
        invariant
            0 <= j <= 26,
            entries@.len() == j,
            forall|k: int|
                0 <= k < j ==> (#[trigger] entries@[k].0) as int == 'A' as int + k
                    && entries@[k].1@ == encode_char(entries@[k].0),
        decreases 26 - j,
    {
        let letter: char = (65u8 + j as u8) as char;
        let mut encoded = String::new();
        encoded.push('A');
        if letter != 'A' {
            encoded.push(mark_for(letter));
        }
        entries.push((letter, encoded));
        j = j + 1;
    }
    entries
}

} // verus!
