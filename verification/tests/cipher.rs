use scream_cipher::cypher_map;
use scream_cipher::decrypt;
use scream_cipher::encrypt;

const UPPER_ALPHABET: &str = "ABCDEFGHIJKLMNOPQRSTUVWXYZ";
const LOWER_ALPHABET: &str = "abcdefghijklmnopqrstuvwxyz";

const UPPER_ENCODED: &str = "AA\u{307}A\u{321}A\u{331}A\u{301}A\u{32E}A\u{30B}A\u{330}A\u{309}A\u{313}A\u{323}A\u{306}A\u{30C}A\u{302}A\u{30A}A\u{32F}A\u{324}A\u{311}A\u{303}A\u{304}A\u{308}A\u{300}A\u{30F}A\u{36F}A\u{326}A\u{337}";
const LOWER_ENCODED: &str = "aa\u{307}a\u{321}a\u{331}a\u{301}a\u{32E}a\u{30B}a\u{330}a\u{309}a\u{313}a\u{323}a\u{306}a\u{30C}a\u{302}a\u{30A}a\u{32F}a\u{324}a\u{311}a\u{303}a\u{304}a\u{308}a\u{300}a\u{30F}a\u{36F}a\u{326}a\u{337}";

const TEST_SENTENCE: &str = "This is a test.";
const TEST_SENTENCE_ENCODED: &str =
    "A\u{304}a\u{330}a\u{309}a\u{303} a\u{309}a\u{303} a a\u{304}a\u{301}a\u{303}a\u{304}.";

#[test]
fn encrypted_messages_decrypt_to_original_messages() {
    let messages = [
        "ABCDEFGHIJKLMNOPQRSTUVWXYZ",
        "abcdefghijklmnopqrstuvwxyz",
        "This is a test of the emergency broadcast system.",
    ];

    for &message in messages.iter() {
        assert_eq!(message, decrypt(&encrypt(message)));
    }
}

#[test]
fn uppercase_alphabet_encrypts_to_table_entries_in_order() {
    assert_eq!(encrypt(UPPER_ALPHABET), UPPER_ENCODED);
    assert_eq!(decrypt(UPPER_ENCODED), UPPER_ALPHABET);
}

#[test]
fn lowercase_alphabet_encrypts_to_lowered_table_entries_in_order() {
    assert_eq!(encrypt(LOWER_ALPHABET), LOWER_ENCODED);
    assert_eq!(decrypt(LOWER_ENCODED), LOWER_ALPHABET);
}

#[test]
fn literal_sentence_encrypts_and_decrypts_exactly() {
    assert_eq!(encrypt(TEST_SENTENCE), TEST_SENTENCE_ENCODED);
    assert_eq!(decrypt(TEST_SENTENCE_ENCODED), TEST_SENTENCE);
}

#[test]
fn non_alphabetic_characters_pass_through_unchanged() {
    assert_eq!(encrypt("123"), "123");
    assert_eq!(encrypt("!?."), "!?.");
    assert_eq!(encrypt(" \t\n"), " \t\n");
    assert_eq!(encrypt("a1? b"), "a1? a\u{307}");
    assert_eq!(encrypt("\u{4F60}\u{597D}"), "\u{4F60}\u{597D}");
}

#[test]
fn empty_message_stays_empty() {
    assert_eq!(encrypt(""), "");
    assert_eq!(decrypt(""), "");
}

#[test]
fn decrypt_is_total_on_arbitrary_input() {
    assert_eq!(decrypt("xyz"), "xyz");
    assert_eq!(decrypt("A"), "A");
    assert_eq!(decrypt("a\u{307}"), "b");
    // U+0305 is a combining mark, but not one of the table's.
    assert_eq!(decrypt("A\u{305}"), "A\u{305}");
}

#[test]
fn cypher_map_has_26_distinct_entries() {
    let entries = cypher_map();
    assert_eq!(entries.len(), 26);
    for (j, (letter, encoded)) in entries.iter().enumerate() {
        assert_eq!(*letter as u32, 'A' as u32 + j as u32);
        assert_eq!(&encrypt(&letter.to_string()), encoded);
    }
    for (j, (_, left)) in entries.iter().enumerate() {
        for (_, right) in entries.iter().skip(j + 1) {
            assert_ne!(left, right);
        }
    }
    assert_eq!(entries[0].1, "A");
    assert_eq!(entries[1].1, "A\u{307}");
    assert_eq!(entries[25].1, "A\u{337}");
}
