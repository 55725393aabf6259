//! The trusted boundary: thin wrappers around the outside crates this
//! library leans on, with the named results their contracts speak of.
//! Everything else in the crate is verified against these contracts.

use vstd::prelude::*;

verus! {

/// What `bs58::encode` returns for a byte string: its Base58 text.
pub uninterp spec fn base58_of(bytes: Seq<u8>) -> Seq<char>;

/// What `bs58::decode` returns for a text: the bytes it denotes, or
/// nothing when the text is not Base58.
pub uninterp spec fn base58_decode_of(text: Seq<char>) -> Option<Seq<u8>>;

/// What `base64::Engine::decode` under the standard alphabet returns
/// for a text: the bytes it denotes, or nothing when the text is not
/// Base64.
pub uninterp spec fn base64_decode_of(text: Seq<char>) -> Option<Seq<u8>>;

/// What `Pubkey::try_find_program_address` returns for seed byte
/// strings and a 32-byte program id: the first program-derived address
/// found by the bump search, or nothing when none exists.
pub uninterp spec fn pda_of(seeds: Seq<Seq<u8>>, program_id: Seq<u8>) -> Option<(Seq<u8>, u8)>;

/// Relies on `bs58::encode`: the text depends on the bytes alone, and
/// `bs58::decode` reads it back to the same bytes.
#[verifier::external_body]
pub fn base58_encode(bytes: &Vec<u8>) -> (r: String)
    ensures
        r@ == base58_of(bytes@),
        base58_decode_of(r@) == Some(bytes@),
{
    bs58::encode(bytes.as_slice()).into_string()
}

/// Relies on `bs58::decode`: malformed text is rejected; otherwise the
/// result depends on the text alone.
#[verifier::external_body]
pub fn base58_decode(text: &str) -> (r: Option<Vec<u8>>)
    ensures
        match r {
            Some(b) => base58_decode_of(text@) == Some(b@),
            None => base58_decode_of(text@) is None,
        },
{
    bs58::decode(text).into_vec().ok()
}

/// Relies on `base64::Engine::decode` with the standard alphabet:
/// malformed text is rejected; otherwise the result depends on the
/// text alone.
#[verifier::external_body]
pub fn base64_decode(text: &str) -> (r: Option<Vec<u8>>)
    ensures
        match r {
            Some(b) => base64_decode_of(text@) == Some(b@),
            None => base64_decode_of(text@) is None,
        },
{
    base64::Engine::decode(&base64::engine::general_purpose::STANDARD, text).ok()
}

/// Relies on `String::from_utf8`: it accepts exactly the valid UTF-8
/// byte strings and yields their decoding.
#[verifier::external_body]
pub fn string_from_utf8(bytes: Vec<u8>) -> (r: Option<String>)
    ensures
        match r {
            Some(s) => vstd::utf8::valid_utf8(bytes@) && s@ == vstd::utf8::decode_utf8(bytes@),
            None => !vstd::utf8::valid_utf8(bytes@),
        },
{
    String::from_utf8(bytes).ok()
}

/// Relies on `Pubkey::try_find_program_address`: the bump search is a
/// pure function of the seeds and the program id, and a found address
/// is 32 bytes.
#[verifier::external_body]
pub fn find_program_address(seeds: &Vec<Vec<u8>>, program_id: &Vec<u8>) -> (r: Option<
    (Vec<u8>, u8),
>)
    requires
        program_id@.len() == 32,
    ensures
        match r {
            Some(pair) => pda_of(seeds.deep_view(), program_id@) == Some((pair.0@, pair.1))
                && pair.0@.len() == 32,
            None => pda_of(seeds.deep_view(), program_id@) is None,
        },
{
    let mut array = [0u8; 32];
    array.copy_from_slice(program_id.as_slice());
    let program = solana_pubkey::Pubkey::new_from_array(array);
    let mut slices: Vec<&[u8]> = Vec::new();
    for seed in seeds {
        slices.push(seed.as_slice());
    }
    solana_pubkey::Pubkey::try_find_program_address(&slices, &program)
        .map(|(address, bump)| (address.to_bytes().to_vec(), bump))
}

/// Relies on `String::push`: it appends exactly the one character.
#[verifier::external_body]
pub fn string_push(s: String, c: char) -> (r: String)
    ensures
        r@ == s@.push(c),
{
    let mut s = s;
    s.push(c);
    s
}

/// What `Pubkey::create_with_seed` returns: a hash of the base
/// address, the seed text and the owner, a pure function of the three;
/// an over-long seed or a reserved owner suffix is rejected.
pub uninterp spec fn create_with_seed_of(
    base: Seq<u8>,
    seed: Seq<char>,
    owner: Seq<u8>,
) -> Option<Seq<u8>>;

/// Relies on `Pubkey::create_with_seed`: deterministic in its
/// arguments, never panics, and a derived address is 32 bytes.
#[verifier::external_body]
pub fn create_with_seed(base: &Vec<u8>, seed: &str, owner: &Vec<u8>) -> (r: Option<Vec<u8>>)
    requires
        base@.len() == 32,
        owner@.len() == 32,
    ensures
        match r {
            Some(address) => create_with_seed_of(base@, seed@, owner@) == Some(address@)
                && address@.len() == 32,
            None => create_with_seed_of(base@, seed@, owner@) is None,
        },
{
    let mut base_array = [0u8; 32];
    base_array.copy_from_slice(base.as_slice());
    let mut owner_array = [0u8; 32];
    owner_array.copy_from_slice(owner.as_slice());
    solana_pubkey::Pubkey::create_with_seed(
        &solana_pubkey::Pubkey::new_from_array(base_array),
        seed,
        &solana_pubkey::Pubkey::new_from_array(owner_array),
    )
    .ok()
    .map(|address| address.to_bytes().to_vec())
}

} // verus!
