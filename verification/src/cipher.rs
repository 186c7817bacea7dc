//! The two transformations: `encrypt` renders every Latin letter as the base
//! character `A`/`a` plus its combining mark, `decrypt` reads such pairs back
//! into plain letters. Both pass every other character through unchanged.

use vstd::prelude::*;
use vstd::string::StrSliceExecFns;

use crate::table::decode_pair;
use crate::table::encode_char;
use crate::table::has_mark;
use crate::table::is_cypher_mark;
use crate::table::is_letter;
use crate::table::is_upper_letter;
use crate::table::lemma_mark_inverse;
use crate::table::mark_of;

verus! {

/// The encryption of a whole text: each character's encoded form, in order.
pub open spec fn encrypt_spec(s: Seq<char>) -> Seq<char>
    decreases s.len(),
{
    if s.len() == 0 {
        Seq::empty()
    } else {
        encode_char(s[0]) + encrypt_spec(s.skip(1))
    }
}

/// The decryption of a whole text, scanned left to right: a base `A`/`a`
/// followed by a mark of the table decodes to that mark's letter, and any
/// other character stands for itself (a bare base decodes to `A`/`a`, the
/// letters that encode without a mark).
pub open spec fn decrypt_spec(s: Seq<char>) -> Seq<char>
    decreases s.len(),
{
    if s.len() == 0 {
        Seq::empty()
    } else if (s[0] == 'A' || s[0] == 'a') && s.len() >= 2 && is_cypher_mark(s[1]) {
        seq![decode_pair(s[0], s[1])] + decrypt_spec(s.skip(2))
    } else {
        seq![s[0]] + decrypt_spec(s.skip(1))
    }
}

/// Encryption distributes over concatenation: texts are encrypted piecewise.
pub proof fn lemma_encrypt_append(a: Seq<char>, b: Seq<char>)
    ensures
        encrypt_spec(a + b) == encrypt_spec(a) + encrypt_spec(b),
    decreases a.len(),
{
    if a.len() == 0 {
        assert(a + b =~= b);
        assert(encrypt_spec(a) + encrypt_spec(b) =~= encrypt_spec(b));
    } else {
        lemma_encrypt_append(a.skip(1), b);
        assert((a + b).skip(1) =~= a.skip(1) + b);
        assert((a + b)[0] == a[0]);
        assert(encode_char(a[0]) + (encrypt_spec(a.skip(1)) + encrypt_spec(b)) =~= (encode_char(
            a[0],
        ) + encrypt_spec(a.skip(1))) + encrypt_spec(b));
    }
}

/// Encrypting one more character appends its encoded form.
proof fn lemma_encrypt_take_succ(s: Seq<char>, i: int)
    requires
        0 <= i < s.len(),
    ensures
        encrypt_spec(s.take(i + 1)) == encrypt_spec(s.take(i)) + encode_char(s[i]),
{
    let unit = seq![s[i]];
    assert(s.take(i + 1) =~= s.take(i) + unit);
    lemma_encrypt_append(s.take(i), unit);
    assert(unit.skip(1) =~= Seq::<char>::empty());
    assert(encrypt_spec(Seq::<char>::empty()) == Seq::<char>::empty());
    assert(encrypt_spec(unit) == encode_char(s[i]) + Seq::<char>::empty());
    assert(encode_char(s[i]) + Seq::<char>::empty() =~= encode_char(s[i]));
}

/// One step of the decryption scan, read off at position `i` of the text.
proof fn lemma_decrypt_skip_step(s: Seq<char>, i: int)
    requires
        0 <= i < s.len(),
    ensures
        (s[i] == 'A' || s[i] == 'a') && i + 1 < s.len() && is_cypher_mark(
            s[i + 1],
        ) ==> decrypt_spec(s.skip(i)) == seq![decode_pair(s[i], s[i + 1])] + decrypt_spec(
            s.skip(i + 2),
        ),
        !((s[i] == 'A' || s[i] == 'a') && i + 1 < s.len() && is_cypher_mark(s[i + 1]))
            ==> decrypt_spec(s.skip(i)) == seq![s[i]] + decrypt_spec(s.skip(i + 1)),
{
    let t = s.skip(i);
    assert(t[0] == s[i]);
    assert(t.skip(1) =~= s.skip(i + 1));
    if t.len() >= 2 {
        assert(t[1] == s[i + 1]);
        assert(t.skip(2) =~= s.skip(i + 2));
    }
}

/// No character of `s` is a combining mark of the table. Every string of
/// ASCII letters, digits, whitespace and punctuation satisfies this, since
/// the table's marks all lie in the U+0300–U+036F combining block.
pub open spec fn mark_free(s: Seq<char>) -> bool {
    forall|i: int| 0 <= i < s.len() ==> !is_cypher_mark(#[trigger] s[i])
}

/// An encryption of a mark-free text never begins with a mark of the table.
proof fn lemma_encrypt_head_no_mark(s: Seq<char>)
    requires
        mark_free(s),
    ensures
        encrypt_spec(s).len() > 0 ==> !is_cypher_mark(encrypt_spec(s)[0]),
{
    if s.len() > 0 {
        assert(encode_char(s[0]).len() > 0);
        assert(encrypt_spec(s)[0] == encode_char(s[0])[0]);
        assert(!is_cypher_mark('A'));
        assert(!is_cypher_mark('a'));
        assert(!is_cypher_mark(s[0]));
    }
}

/// The round-trip law: decrypting an encryption returns the original text,
/// for any text free of the table's combining marks — in particular for any
/// text of ASCII letters, digits, whitespace and punctuation.
pub proof fn lemma_decrypt_encrypt_roundtrip(s: Seq<char>)
    requires
        mark_free(s),
    ensures
        decrypt_spec(encrypt_spec(s)) == s,
    decreases s.len(),
{
    if s.len() > 0 {
        let c = s[0];
        let rest = s.skip(1);
        assert(mark_free(rest)) by {
            assert forall|i: int| 0 <= i < rest.len() implies !is_cypher_mark(
                #[trigger] rest[i],
            ) by {
                assert(rest[i] == s[i + 1]);
            }
        }
        lemma_decrypt_encrypt_roundtrip(rest);
        let e = encrypt_spec(rest);
        let t = encrypt_spec(s);
        assert(t == encode_char(c) + e);
        if has_mark(c) {
            lemma_mark_inverse(c);
            let base: char = if is_upper_letter(c) {
                'A'
            } else {
                'a'
            };
            assert(t[0] == base && t[1] == mark_of(c));
            assert(t.skip(2) =~= e);
            assert(decode_pair(base, mark_of(c)) == c);
            assert(decrypt_spec(t) == seq![c] + decrypt_spec(e));
        } else {
            assert(encode_char(c) == seq![c]);
            assert(t[0] == c);
            assert(t.skip(1) =~= e);
            if c == 'A' || c == 'a' {
                lemma_encrypt_head_no_mark(rest);
                assert(t.len() >= 2 ==> t[1] == e[0]);
            }
            assert(decrypt_spec(t) == seq![c] + decrypt_spec(e));
        }
        assert(seq![c] + rest =~= s);
    }
}

/// A character outside the Latin alphabet is untouched by encryption: it
/// appears identically in the output, between the encryptions of the text
/// before and after it.
pub proof fn lemma_non_letter_unchanged(s: Seq<char>, i: int)
    requires
        0 <= i < s.len(),
        !is_letter(s[i]),
    ensures
        encrypt_spec(s) == encrypt_spec(s.take(i)) + seq![s[i]] + encrypt_spec(s.skip(i + 1)),
{
    assert(s =~= s.take(i) + seq![s[i]] + s.skip(i + 1));
    lemma_encrypt_append(s.take(i) + seq![s[i]], s.skip(i + 1));
    lemma_encrypt_append(s.take(i), seq![s[i]]);
    assert(seq![s[i]].skip(1) =~= Seq::<char>::empty());
    assert(encrypt_spec(Seq::<char>::empty()) == Seq::<char>::empty());
    assert(encode_char(s[i]) == seq![s[i]]);
    assert(encrypt_spec(seq![s[i]]) == seq![s[i]] + Seq::<char>::empty());
    assert(seq![s[i]] + Seq::<char>::empty() =~= seq![s[i]]);
}

/// Encrypts the given plaintext with the scream cypher: every Latin letter
/// becomes `A`/`a` carrying the letter's combining mark, every other
/// character is kept as it is.
pub fn encrypt(message: &str) -> (r: String)
    ensures
        r@ == encrypt_spec(message@),
{
    let n = message.unicode_len();
    let mut r = String::new();
    let mut i: usize = 0;
    while i < n
        invariant
            n == message@.len(),
            0 <= i <= n,
            r@ == encrypt_spec(message@.take(i as int)),
        decreases n - i,
    {
        let c = message.get_char(i);
        let ghost prefix = r@;
        if 'A' <= c && c <= 'Z' {
            r.push('A');
            if c != 'A' {
                r.push(crate::table::mark_for(c));
            }
        } else if 'a' <= c && c <= 'z' {
            r.push('a');
            if c != 'a' {
                r.push(crate::table::mark_for(c));
            }
        } else {
            r.push(c);
        }
        proof {
            assert(r@ =~= prefix + encode_char(c));
            lemma_encrypt_take_succ(message@, i as int);
        }
        i = i + 1;
    }
    proof {
        assert(message@.take(n as int) =~= message@);
    }
    r
}

/// Decrypts the given cyphertext with the scream cypher: every base `A`/`a`
/// followed by a mark of the table becomes the mark's letter in the base's
/// case, every other character is kept as it is.
pub fn decrypt(message: &str) -> (r: String)
    ensures
        r@ == decrypt_spec(message@),
{
    let n = message.unicode_len();
    let mut r = String::new();
    let mut i: usize = 0;
    proof {
        assert(message@.skip(0) =~= message@);
        assert(Seq::<char>::empty() + decrypt_spec(message@) =~= decrypt_spec(message@));
    }
    while i < n
        invariant
            n == message@.len(),
            0 <= i <= n,
            decrypt_spec(message@) == r@ + decrypt_spec(message@.skip(i as int)),
        decreases n - i,
    {
        let ghost s = message@;
        let ghost i0 = i as int;
        let ghost prefix = r@;
        proof {
            lemma_decrypt_skip_step(s, i0);
        }
        let c = message.get_char(i);
        let mut stepped = false;
        if (c == 'A' || c == 'a') && i + 1 < n {
            let m = message.get_char(i + 1);
            match crate::table::letter_for_mark(m) {
                Some(u) => {
                    if c == 'A' {
                        r.push(u);
                    } else {
                        r.push(crate::table::lower_letter(u));
                    }
                    proof {
                        assert(r@ =~= prefix + seq![decode_pair(c, m)]);
                        assert(prefix + (seq![decode_pair(c, m)] + decrypt_spec(s.skip(i0 + 2)))
                            =~= (prefix + seq![decode_pair(c, m)]) + decrypt_spec(s.skip(i0 + 2)));
                    }
                    i = i + 2;
                    stepped = true;
                },
                None => {},
            }
        }
        if !stepped {
            r.push(c);
            proof {
                assert(r@ =~= prefix + seq![c]);
                assert(prefix + (seq![c] + decrypt_spec(s.skip(i0 + 1))) =~= (prefix + seq![c])
                    + decrypt_spec(s.skip(i0 + 1)));
            }
            i = i + 1;
        }
    }
    proof {
        assert(message@.skip(n as int) =~= Seq::<char>::empty());
        assert(r@ + Seq::<char>::empty() =~= r@);
    }
    r
}

} // verus!
