//! Byte encodings: lowercase hexadecimal (`hex`), big-endian integers, and BIP39
//! recovery phrases (`bip39`).
use vstd::prelude::*;
use vstd::string::StringExecFns;

verus! {

/// The lowercase hexadecimal digit of a value below 16.
pub open spec fn hex_digit(v: u8) -> char {
    if v < 10 {
        (48 + v) as char
    } else {
        (87 + v) as char
    }
}

/// Whether `c` is one of `0-9`, `a-f`.
pub open spec fn is_lower_hex_char(c: char) -> bool {
    ('0' <= c && c <= '9') || ('a' <= c && c <= 'f')
}

/// Copies the first 32 bytes of `bytes`.
pub(crate) fn first_32(bytes: &[u8]) -> (out: [u8; 32])
    requires
        bytes@.len() >= 32,
    ensures
        out@ == bytes@.subrange(0, 32),
{
    let mut out = [0u8; 32];
    let mut i: usize = 0;
    while i < 32
        invariant
            i <= 32,
            bytes@.len() >= 32,
            forall|j: int| 0 <= j < i ==> out@[j] == bytes@[j],
        decreases 32 - i,
    {
        out[i] = bytes[i];
        i += 1;
    }
    assert(out@ =~= bytes@.subrange(0, 32));
    out
}

/// Lowercase hexadecimal: two digits per byte, high half first.
pub open spec fn hex_lower(bytes: Seq<u8>) -> Seq<char>
    decreases bytes.len(),
{
    if bytes.len() == 0 {
        Seq::empty()
    } else {
        seq![hex_digit(bytes[0] / 16), hex_digit(bytes[0] % 16)] + hex_lower(bytes.drop_first())
    }
}

/// Hex text is twice as long as its bytes and made of hex digits only.
pub proof fn lemma_hex_lower(bytes: Seq<u8>)
    ensures
        hex_lower(bytes).len() == 2 * bytes.len(),
        forall|i: int| 0 <= i < hex_lower(bytes).len() ==> is_lower_hex_char(#[trigger] hex_lower(bytes)[i]),
    decreases bytes.len(),
{
    if bytes.len() > 0 {
        lemma_hex_lower(bytes.drop_first());
        let head = seq![hex_digit(bytes[0] / 16), hex_digit(bytes[0] % 16)];
        assert forall|i: int| 0 <= i < hex_lower(bytes).len() implies is_lower_hex_char(
            #[trigger] hex_lower(bytes)[i],
        ) by {
            if i >= 2 {
                assert(hex_lower(bytes)[i] == hex_lower(bytes.drop_first())[i - 2]);
            }
        }
    }
}

/// `hex::encode`: lowercase hexadecimal of the bytes.
#[verifier::external_body]
pub(crate) fn hex_encode(bytes: &[u8]) -> (text: String)
    ensures
        text@ == hex_lower(bytes@),
{
    hex::encode(bytes)
}

/// The decimal digit of a value below 10.
pub open spec fn digit_char(d: nat) -> char {
    (48 + d) as char
}

/// The decimal numeral of `n`, without leading zeros.
pub open spec fn decimal(n: nat) -> Seq<char>
    decreases n,
{
    if n < 10 {
        seq![digit_char(n)]
    } else {
        decimal(n / 10) + seq![digit_char(n % 10)]
    }
}

/// The one-character string of a decimal digit.
fn digit_str(d: usize) -> (s: &'static str)
    requires
        d < 10,
    ensures
        s@ == seq![digit_char(d as nat)],
{
    proof {
        reveal_strlit("0");
        reveal_strlit("1");
        reveal_strlit("2");
        reveal_strlit("3");
        reveal_strlit("4");
        reveal_strlit("5");
        reveal_strlit("6");
        reveal_strlit("7");
        reveal_strlit("8");
        reveal_strlit("9");
    }
    if d == 0 {
        "0"
    } else if d == 1 {
        "1"
    } else if d == 2 {
        "2"
    } else if d == 3 {
        "3"
    } else if d == 4 {
        "4"
    } else if d == 5 {
        "5"
    } else if d == 6 {
        "6"
    } else if d == 7 {
        "7"
    } else if d == 8 {
        "8"
    } else {
        "9"
    }
}

/// The decimal numeral of `n`, as `Display` writes it.
pub fn decimal_string(n: usize) -> (s: String)
    ensures
        s@ == decimal(n as nat),
    decreases n,
{
    if n < 10 {
        String::from_str(digit_str(n))
    } else {
        let mut s = decimal_string(n / 10);
        s.append(digit_str(n % 10));
        s
    }
}

/// The four big-endian bytes of `x`.
pub open spec fn be32(x: u32) -> Seq<u8> {
    seq![(x >> 24u32) as u8, (x >> 16u32) as u8, (x >> 8u32) as u8, x as u8]
}

/// The four bytes of `be32(x)` read back as a base-256 numeral, most significant first,
/// give `x`.
pub proof fn lemma_be32_value(x: u32)
    ensures
        be32(x).len() == 4,
        be32(x)[0] * 16777216 + be32(x)[1] * 65536 + be32(x)[2] * 256 + be32(x)[3] == x,
{
    let b0: u8 = be32(x)[0];
    let b1: u8 = be32(x)[1];
    let b2: u8 = be32(x)[2];
    let b3: u8 = be32(x)[3];
    assert(b0 * 16777216 + b1 * 65536 + b2 * 256 + b3 == x) by (bit_vector)
        requires
            b0 == (x >> 24u32) as u8,
            b1 == (x >> 16u32) as u8,
            b2 == (x >> 8u32) as u8,
            b3 == x as u8,
    ;
}

/// Different numbers have different big-endian bytes.
pub proof fn lemma_be32_injective(x: u32, y: u32)
    ensures
        be32(x) == be32(y) ==> x == y,
{
    if be32(x) == be32(y) {
        assert(be32(x)[0] == be32(y)[0]);
        assert(be32(x)[1] == be32(y)[1]);
        assert(be32(x)[2] == be32(y)[2]);
        assert(be32(x)[3] == be32(y)[3]);
        assert(x == y) by (bit_vector)
            requires
                (x >> 24u32) as u8 == (y >> 24u32) as u8,
                (x >> 16u32) as u8 == (y >> 16u32) as u8,
                (x >> 8u32) as u8 == (y >> 8u32) as u8,
                x as u8 == y as u8,
        ;
    }
}

/// The bytes of `x`, most significant first (as `u32::to_be_bytes` gives them).
pub(crate) fn u32_to_be_bytes(x: u32) -> (bytes: [u8; 4])
    ensures
        bytes@ == be32(x),
        bytes@[0] * 16777216 + bytes@[1] * 65536 + bytes@[2] * 256 + bytes@[3] == x,
{
    proof {
        lemma_be32_value(x);
    }
    let bytes = [(x >> 24u32) as u8, (x >> 16u32) as u8, (x >> 8u32) as u8, x as u8];
    assert(bytes@ =~= be32(x));
    bytes
}

/// Words joined by single spaces.
pub open spec fn join_words(words: Seq<Seq<char>>) -> Seq<char>
    decreases words.len(),
{
    if words.len() == 0 {
        Seq::empty()
    } else if words.len() == 1 {
        words[0]
    } else {
        join_words(words.drop_last()) + seq![' '] + words.last()
    }
}

/// A word of the English BIP39 list's shape: three to eight lowercase ASCII letters.
pub open spec fn is_list_word(word: Seq<char>) -> bool {
    3 <= word.len() <= 8 && forall|i: int| 0 <= i < word.len() ==> 'a' <= #[trigger] word[i] <= 'z'
}

/// Whether `text` is `count` such words separated by single spaces.
pub open spec fn is_phrase_of(text: Seq<char>, count: nat) -> bool {
    exists|words: Seq<Seq<char>>|
        words.len() == count && (forall|i: int| 0 <= i < count ==> is_list_word(#[trigger] words[i]))
            && text == join_words(words)
}

/// The English BIP39 phrase (words separated by single spaces) that encodes the entropy.
pub uninterp spec fn bip39_phrase(entropy: Seq<u8>) -> Seq<char>;

/// What reading an English BIP39 phrase gives: the entropy it encodes, or, when it
/// does not parse (wrong word count, unknown word or bad checksum), the text of the
/// error.
pub uninterp spec fn bip39_entropy(phrase: Seq<char>) -> Result<Seq<u8>, Seq<char>>;

/// `bip39::Mnemonic::from_entropy(entropy)` shown through `Display`, its error shown
/// through `Display` too. The crate refuses only entropy whose length is not 16, 20, 24,
/// 28 or 32 bytes, so 32 bytes always succeed. Claimed beyond the name: the phrase
/// reads back as the entropy it was made from (`Mnemonic::to_entropy`, as documented),
/// and, as `Display` writes it, it is the 24 words (three bytes of entropy to four 11-bit
/// word indices, plus the checksum word) of the English list, whose words are three to
/// eight lowercase ASCII letters, separated by single spaces.
#[verifier::external_body]
pub(crate) fn bip39_phrase_of(entropy: &[u8; 32]) -> (phrase: Result<String, String>)
    ensures
        phrase is Ok,
        phrase matches Ok(p) ==> p@ == bip39_phrase(entropy@),
        phrase matches Ok(p) ==> (bip39_entropy(p@) matches Ok(e) && e == entropy@),
        phrase matches Ok(p) ==> is_phrase_of(p@, 24),
{
    match bip39::Mnemonic::from_entropy(entropy) {
        Ok(mnemonic) => Ok(mnemonic.to_string()),
        Err(e) => Err(e.to_string()),
    }
}

/// `bip39::Mnemonic::parse_in_normalized(Language::English, phrase)` then
/// `to_entropy_array`, keeping the entropy bytes, or the error shown through `Display`;
/// named by `bip39_entropy`.
#[verifier::external_body]
pub(crate) fn bip39_entropy_of(phrase: &str) -> (entropy: Result<Vec<u8>, String>)
    ensures
        match entropy {
            Ok(e) => bip39_entropy(phrase@) matches Ok(x) && x == e@,
            Err(t) => bip39_entropy(phrase@) matches Err(x) && x == t@,
        },
{
    match bip39::Mnemonic::parse_in_normalized(bip39::Language::English, phrase) {
        Ok(mnemonic) => {
            let (bytes, len) = mnemonic.to_entropy_array();
            Ok(bytes[..len].to_vec())
        },
        Err(e) => Err(e.to_string()),
    }
}

} // verus!
