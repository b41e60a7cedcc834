//! Identifiers and codes drawn at random.

use rand::distributions::Alphanumeric;
use rand::Rng;
use uuid::Uuid;
use vstd::prelude::*;
use vstd::string::StringExecFns;

pub mod hash;

verus! {

/// The number of bytes of the salt that a password is hashed under.
pub const SALT_LENGTH: usize = 16;

/// `c` is an ASCII letter or digit.
pub open spec fn is_alphanumeric(c: char) -> bool {
    ||| 'a' <= c <= 'z'
    ||| 'A' <= c <= 'Z'
    ||| '0' <= c <= '9'
}

/// `text` has `len` characters, each an ASCII letter or digit.
pub open spec fn is_alphanumeric_token(text: Seq<char>, len: int) -> bool {
    &&& text.len() == len
    &&& forall|i: int| 0 <= i < text.len() ==> is_alphanumeric(#[trigger] text[i])
}

/// `c` is a digit or one of the letters `a` to `f`.
pub open spec fn is_lower_hex(c: char) -> bool {
    '0' <= c <= '9' || 'a' <= c <= 'f'
}

/// `text` has the hyphenated form of a UUID: 36 characters, hyphens at the
/// four places where the groups meet, digits of base 16 elsewhere.
pub open spec fn is_uuid_text(text: Seq<char>) -> bool {
    &&& text.len() == 36
    &&& forall|i: int|
        0 <= i < 36 ==> if i == 8 || i == 13 || i == 18 || i == 23 {
            #[trigger] text[i] == '-'
        } else {
            is_lower_hex(text[i])
        }
}

/// `text` is `TXN-` followed by a UUID in its hyphenated form.
pub open spec fn is_transaction_id(text: Seq<char>) -> bool {
    &&& text.len() == 40
    &&& text.subrange(0, 4) == "TXN-"@
    &&& is_uuid_text(text.subrange(4, 40))
}

/// A fresh transaction identifier for an invoice: `TXN-` and a random
/// version 4 UUID.
pub fn generate_transaction_id() -> (r: String)
    ensures
        is_transaction_id(r@),
{
    let id = uuid_v4_text();
    let r = String::from_str("TXN-").concat(id.as_str());
    proof {
        reveal_strlit("TXN-");
        assert(r@.subrange(0, 4) =~= "TXN-"@);
        assert(r@.subrange(4, 40) =~= id@);
    }
    r
}

/// Draws a version 4 UUID with `Uuid::new_v4` and writes it out. Trusted:
/// the text is the hyphenated form in lower case. The call does not return
/// where the machine has no source of randomness.
#[verifier::external_body]
fn uuid_v4_text() -> (r: String)
    ensures
        is_uuid_text(r@),
{
    Uuid::new_v4().to_string()
}

/// Draws `len` characters from rand's `Alphanumeric` distribution with the
/// thread's generator. Trusted: the distribution gives ASCII letters and
/// digits only, and exactly `len` of them are taken. The call does not
/// return where the generator cannot be seeded.
#[verifier::external_body]
pub(crate) fn random_alphanumeric(len: usize) -> (r: String)
    ensures
        is_alphanumeric_token(r@, len as int),
{
    rand::thread_rng().sample_iter(&Alphanumeric).take(len).map(char::from).collect()
}

/// Draws 16 random bytes from the thread's generator with `Rng::gen`.
/// Trusted: the length. The call does not return where the generator
/// cannot be seeded.
#[verifier::external_body]
pub(crate) fn random_salt() -> (r: Vec<u8>)
    ensures
        r@.len() == SALT_LENGTH,
{
    let bytes: [u8; 16] = rand::thread_rng().gen();
    bytes.to_vec()
}

} // verus!
