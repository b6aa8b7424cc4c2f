//! Randomly generated server-instance identifiers and their
//! human-readable names.
//!
//! An identifier is a 64-bit value rendered in lowercase Crockford
//! base32 (13 symbols). Reading one back checks the length and the
//! character set here; the base32 bit-twiddling itself is the encoding
//! crate's job.

use vstd::prelude::*;

verus! {

use vstd::string::*;

/// Length in symbols of a rendered identifier: 64 bits, 5 bits each.
pub const IDENTIFIER_LENGTH: usize = 13;

/// What `data_encoding::Encoding::encode` returns for these bytes under
/// the lowercase Crockford specification; it depends on the bytes alone.
pub uninterp spec fn b32_str_of(bytes: Seq<u8>) -> Seq<char>;

/// What `data_encoding::Encoding::decode` returns for these symbols
/// under the same specification; it depends on the characters alone.
pub uninterp spec fn b32_decoded(s: Seq<char>) -> Option<Seq<u8>>;

/// A symbol the encoder emits: a digit or a lowercase letter other than
/// `i`, `l`, `o`, `u`.
pub open spec fn is_b32_symbol(c: char) -> bool {
    ('0' <= c && c <= '9') || ('a' <= c && c <= 'z' && c != 'i' && c != 'l' && c != 'o' && c != 'u')
}

/// A character the decoder accepts: the symbols themselves plus the
/// specification's translated characters (`O`/`o` for zero, `I`, `i`,
/// `L`, `l` for one, and the remaining uppercase letters) — every ASCII
/// alphanumeric except `u` and `U`.
pub open spec fn is_b32_accepted(c: char) -> bool {
    ('0' <= c && c <= '9') || ('a' <= c && c <= 'z' && c != 'u') || ('A' <= c && c <= 'Z' && c
        != 'U')
}

/// Relies on data_encoding::Specification::encoding and
/// Encoding::encode, with the lowercase Crockford base32 alphabet, no
/// padding, and the usual confusable-character translation. The fixed
/// specification is valid (32 distinct ASCII symbols), so building the
/// encoding cannot fail. Eight bytes encode to ceil(64 / 5) == 13
/// symbols drawn from the alphabet (`encode_len`); encoding is
/// canonical, so decoding the result gives the bytes back.
#[verifier::external_body]
fn b32_encode(bytes: &Vec<u8>) -> (r: String)
    requires
        bytes@.len() == 8,
    ensures
        r@ == b32_str_of(bytes@),
        r@.len() == 13,
        forall|i: int| 0 <= i < r@.len() ==> is_b32_symbol(#[trigger] r@[i]),
        b32_decoded(r@) == Some(bytes@),
{
    let mut spec = data_encoding::Specification::new();
    spec.symbols.push_str("0123456789abcdefghjkmnpqrstvwxyz");
    spec.translate.from.push_str("OoIiLlABCDEFGHJKMNPQRSTVWXYZ");
    spec.translate.to.push_str("001111abcdefghjkmnpqrstvwxyz");
    match spec.encoding() {
        Ok(enc) => enc.encode(bytes.as_slice()),
        Err(_) => String::new(),
    }
}

/// Relies on data_encoding::Encoding::decode with the same
/// specification: the result depends on the characters alone. Thirteen
/// accepted symbols decode to eight bytes, unless the unused trailing
/// bit is set, which decode rejects (`DecodeKind::Trailing`).
#[verifier::external_body]
fn b32_decode(s: &str) -> (r: Option<Vec<u8>>)
    requires
        s@.len() == 13,
        forall|i: int| 0 <= i < s@.len() ==> is_b32_accepted(#[trigger] s@[i]),
    ensures
        match r {
            Some(b) => b32_decoded(s@) == Some(b@) && b@.len() == 8,
            None => b32_decoded(s@) is None,
        },
{
    let mut spec = data_encoding::Specification::new();
    spec.symbols.push_str("0123456789abcdefghjkmnpqrstvwxyz");
    spec.translate.from.push_str("OoIiLlABCDEFGHJKMNPQRSTVWXYZ");
    spec.translate.to.push_str("001111abcdefghjkmnpqrstvwxyz");
    match spec.encoding() {
        Ok(enc) => enc.decode(s.as_bytes()).ok(),
        Err(_) => None,
    }
}

/// Relies on fastrand::u64 for a pseudo-random value; nothing is
/// promised of it.
#[verifier::external_body]
fn random_u64() -> u64 {
    fastrand::u64(..)
}

/// Failure to read a string back as a generated identifier.
#[derive(Clone, Copy, Debug, PartialEq, Eq, Structural)]
pub enum IdentifierParseError {
    /// The string has this length instead of the required thirteen.
    InvalidLength(usize),
    /// This character is outside the accepted set.
    InvalidCharacter(char),
    /// The characters are acceptable but name no identifier (the unused
    /// trailing bit is set).
    Other,
}

/// Randomly generated identifier for a server instance.
#[derive(Clone, Copy, Debug, PartialEq, Eq, Structural, Hash)]
pub struct GeneratedIdentifier {
    pub value: u64,
}

impl GeneratedIdentifier {
    /// A fresh random identifier.
    pub fn new() -> GeneratedIdentifier {
        GeneratedIdentifier { value: random_u64() }
    }

    /// The thirteen-symbol rendering of this identifier.
    pub fn as_str(&self) -> (r: String)
        ensures
            r@ == b32_str_of(vstd::bytes::spec_u64_to_le_bytes(self.value)),
            r@.len() == 13,
            b32_decoded(r@) == Some(vstd::bytes::spec_u64_to_le_bytes(self.value)),
    {
        let bytes = vstd::bytes::u64_to_le_bytes(self.value);
        b32_encode(&bytes)
    }

    /// Reads a rendering back: the length and the character set are
    /// checked here (the length first, as its error reports), then the
    /// symbols are decoded.
    pub fn parse(s: &str) -> (r: Result<GeneratedIdentifier, IdentifierParseError>)
        ensures
            match r {
                Ok(id) => s@.len() == 13 && b32_decoded(s@) == Some(
                    vstd::bytes::spec_u64_to_le_bytes(id.value),
                ),
                Err(IdentifierParseError::InvalidLength(n)) => n == s@.len() && s@.len() != 13,
                Err(IdentifierParseError::InvalidCharacter(c)) => s@.len() == 13 && exists|i: int|
                    0 <= i < s@.len() && s@[i] == c && !is_b32_accepted(c),
                Err(IdentifierParseError::Other) => s@.len() == 13 && b32_decoded(s@) is None,
            },
    {
        let n: usize = s.unicode_len();
        if n != IDENTIFIER_LENGTH {
            return Err(IdentifierParseError::InvalidLength(n));
        }
        let mut i: usize = 0;
        while i < n
            invariant
                i <= n,
                n == s@.len(),
                n == 13,
                forall|j: int| 0 <= j < i ==> is_b32_accepted(#[trigger] s@[j]),
            decreases n - i,
        {
            let c = s.get_char(i);
            let ok = ('0' <= c && c <= '9') || ('a' <= c && c <= 'z' && c != 'u') || ('A' <= c && c
                <= 'Z' && c != 'U');
            if !ok {
                proof {
                    assert(s@[i as int] == c);
                }
                return Err(IdentifierParseError::InvalidCharacter(c));
            }
            i = i + 1;
        }
        match b32_decode(s) {
            Some(bytes) => {
                proof {
                    vstd::bytes::lemma_auto_spec_u64_to_from_le_bytes();
                }
                let value = vstd::bytes::u64_from_le_bytes(bytes.as_slice());
                Ok(GeneratedIdentifier { value })
            },
            None => Err(IdentifierParseError::Other),
        }
    }
}

impl std::str::FromStr for GeneratedIdentifier {
    type Err = IdentifierParseError;

    fn from_str(s: &str) -> Result<GeneratedIdentifier, IdentifierParseError> {
        GeneratedIdentifier::parse(s)
    }
}

/// A generated identifier with an associated human-readable name.
#[derive(Clone, Debug)]
pub struct NamedId {
    pub name: String,
    pub id: GeneratedIdentifier,
}

impl NamedId {
    /// A new `NamedId` with the given name and a random identifier.
    pub fn new(name: String) -> (r: NamedId)
        ensures
            r.name@ == name@,
    {
        let id = GeneratedIdentifier::new();
        NamedId { name, id }
    }

    /// Display form: the name, then the identifier in parentheses.
    pub fn to_string(&self) -> (r: String)
        ensures
            r@ == self.name@ + " ("@ + b32_str_of(
                vstd::bytes::spec_u64_to_le_bytes(self.id.value),
            ) + ")"@,
    {
        let mut out = self.name.clone();
        out.append(" (");
        out.append(self.id.as_str().as_str());
        out.append(")");
        out
    }
}

impl Default for NamedId {
    /// A `NamedId` with the name `unnamed` and a random identifier.
    fn default() -> (r: NamedId)
        ensures
            r.name@ == "unnamed"@,
    {
        NamedId::new("unnamed".to_owned())
    }
}

} // verus!
