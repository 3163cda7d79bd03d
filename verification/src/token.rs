//! Random tokens, used for sessions, game servers and administrators.
use crate::error::Error;
use rand::rngs::StdRng;
use rand::rngs::SysError;
use vstd::prelude::*;

verus! {

/// Declaration of the random number generator seeded from the system.
#[verifier::external_type_specification]
#[verifier::external_body]
pub struct ExStdRng(StdRng);

/// Declaration of the failure of the random source of the system.
#[verifier::external_type_specification]
#[verifier::external_body]
pub struct ExSysError(SysError);

/// The character of the standard base64 alphabet for the six bits `v`.
pub open spec fn base64_char(v: int) -> char {
    if v < 26 {
        (('A' as int) + v) as char
    } else if v < 52 {
        (('a' as int) + (v - 26)) as char
    } else if v < 62 {
        (('0' as int) + (v - 52)) as char
    } else if v == 62 {
        '+'
    } else {
        '/'
    }
}

/// The standard base64 encoding, with padding, of `bytes`: four characters
/// for each group of three bytes, the last group, of one or two bytes,
/// completed by `=`.
pub open spec fn base64_standard(bytes: Seq<u8>) -> Seq<char>
    decreases bytes.len(),
{
    if bytes.len() == 0 {
        Seq::empty()
    } else if bytes.len() == 1 {
        seq![base64_char((bytes[0] as int) / 4), base64_char(((bytes[0] as int) % 4) * 16), '=', '=']
    } else if bytes.len() == 2 {
        seq![
            base64_char((bytes[0] as int) / 4),
            base64_char(((bytes[0] as int) % 4) * 16 + (bytes[1] as int) / 16),
            base64_char(((bytes[1] as int) % 16) * 4),
            '=',
        ]
    } else {
        seq![
            base64_char((bytes[0] as int) / 4),
            base64_char(((bytes[0] as int) % 4) * 16 + (bytes[1] as int) / 16),
            base64_char(((bytes[1] as int) % 16) * 4 + (bytes[2] as int) / 64),
            base64_char((bytes[2] as int) % 64),
        ] + base64_standard(bytes.skip(3))
    }
}

/// The length of the standard base64 encoding of `n` bytes: four
/// characters per group of three bytes, the last group padded.
pub open spec fn base64_padded_len(n: nat) -> nat {
    4 * ((n + 2) / 3)
}

/// Calls `<StdRng as SeedableRng>::try_from_rng` on `SysRng`: a generator
/// seeded from the random source of the system, or the failure of that
/// source. Nothing is claimed of the generator.
#[verifier::external_body]
fn std_rng_from_system() -> Result<StdRng, SysError> {
    <StdRng as rand::SeedableRng>::try_from_rng(&mut rand::rngs::SysRng)
}

/// Calls `rand::Rng::fill_bytes`: overwrites the bytes of `bytes` with
/// random ones, keeping their number. Nothing is claimed of the values.
#[verifier::external_body]
fn fill_random(rng: &mut StdRng, bytes: &mut Vec<u8>)
    ensures
        final(bytes)@.len() == old(bytes)@.len(),
{
    rand::Rng::fill_bytes(rng, bytes.as_mut_slice())
}

/// Calls `base64::Engine::encode` with `base64::prelude::BASE64_STANDARD`:
/// the standard encoding of `bytes`, with padding. The engine panics where
/// the length of the encoding does not fit in a `usize`, which `requires`
/// leaves out.
#[verifier::external_body]
fn base64_encode(bytes: &[u8]) -> (r: String)
    requires
        base64_padded_len(bytes@.len()) <= usize::MAX,
    ensures
        r@ == base64_standard(bytes@),
{
    base64::Engine::encode(&base64::prelude::BASE64_STANDARD, bytes)
}

/// The token written for `bytes`: their standard base64 encoding.
pub fn encode_token(bytes: &[u8]) -> (r: String)
    requires
        base64_padded_len(bytes@.len()) <= usize::MAX,
    ensures
        r@ == base64_standard(bytes@),
        r@.len() == base64_padded_len(bytes@.len()),
{
    proof {
        lemma_base64_shape(bytes@);
    }
    base64_encode(bytes)
}

/// The padding that ends the encoding `e` of `n` bytes: two `=` when one
/// byte is left over from the groups of three, one `=` when two are, and
/// none when the bytes make whole groups.
pub open spec fn base64_padding(e: Seq<char>, n: nat) -> bool {
    &&& n % 3 == 1 ==> e[e.len() - 1] == '=' && e[e.len() - 2] == '=' && e[e.len() - 3] != '='
    &&& n % 3 == 2 ==> e[e.len() - 1] == '=' && e[e.len() - 2] != '='
    &&& n % 3 == 0 && n > 0 ==> e[e.len() - 1] != '='
}

/// The shape of a standard base64 encoding: four characters per group of
/// three bytes, the last group padded; two `=` end it when one byte is left
/// over, one `=` when two are, and none when the bytes make whole groups.
pub proof fn lemma_base64_shape(bytes: Seq<u8>)
    ensures
        base64_standard(bytes).len() == base64_padded_len(bytes.len()),
        base64_padding(base64_standard(bytes), bytes.len()),
    decreases bytes.len(),
{
    if bytes.len() >= 3 {
        lemma_base64_shape(bytes.skip(3));
        let head = seq![
            base64_char((bytes[0] as int) / 4),
            base64_char(((bytes[0] as int) % 4) * 16 + (bytes[1] as int) / 16),
            base64_char(((bytes[1] as int) % 16) * 4 + (bytes[2] as int) / 64),
            base64_char((bytes[2] as int) % 64),
        ];
        let rest = base64_standard(bytes.skip(3));
        assert(base64_standard(bytes) == head + rest);
        if bytes.len() == 3 {
            assert(rest.len() == 0);
            assert(base64_char((bytes[2] as int) % 64) != '=');
        }
    }
}

/// A new token: the encoding of `length` random bytes. A failure of the
/// random source of the system is an internal error.
pub fn generate_token(length: u8) -> (r: Result<String, Error>)
    ensures
        r matches Ok(s) ==> exists|bytes: Seq<u8>|
            bytes.len() == length && s@ == base64_standard(bytes),
        r matches Ok(s) ==> s@.len() == base64_padded_len(length as nat),
        r matches Ok(s) ==> base64_padding(s@, length as nat),
        r matches Err(e) ==> e == Error::Internal,
{
    let mut rng: StdRng = match std_rng_from_system() {
        Ok(rng) => rng,
        Err(_) => {
            return Err(Error::from_failure(crate::error::FailureSource::Random));
        },
    };
    let mut bytes: Vec<u8> = vec![0u8; length as usize];
    fill_random(&mut rng, &mut bytes);
    let s: String = encode_token(bytes.as_slice());
    proof {
        lemma_base64_shape(bytes@);
    }
    Ok(s)
}

} // verus!
