//! The signer: derives an sr25519 key pair from a secret URI, exposes the
//! derived account identifier, and signs byte buffers. The secret lives
//! only inside the key pair, for the lifetime of one invocation.

use vstd::prelude::*;

use crate::error::Error;
use crate::parse::{hex_bytes, is_valid_hex};

verus! {

#[verifier::external_type_specification]
#[verifier::external_body]
pub struct ExPair(sp_core::sr25519::Pair);

/// The 32 account-identifier bytes that a textual account form denotes;
/// the outside decoder fixes them from the text alone.
pub uninterp spec fn account_id_bytes_of(s: Seq<char>) -> Seq<u8>;

/// Whether a secret URI, under this password override, derives a key
/// pair; the outside derivation reads nothing but the two strings.
pub uninterp spec fn suri_derives(suri: Seq<char>, password: Option<Seq<char>>) -> bool;

/// The account-identifier bytes of the key pair a secret URI derives:
/// phrase, junctions and public key are a function of the two strings
/// alone, so equal inputs always derive the same account.
pub uninterp spec fn account_of_suri(suri: Seq<char>, password: Option<Seq<char>>) -> Seq<u8>;

/// The characters of an optional password.
pub open spec fn password_chars(password: Option<&String>) -> Option<Seq<char>> {
    match password {
        Some(p) => Some(p@),
        None => None,
    }
}

/// Relies on `<sp_core::crypto::AccountId32 as FromStr>::from_str`: decodes
/// a 64-digit hexadecimal form (with or without a `0x` prefix) or an SS58
/// address into 32 bytes, and rejects anything else. On the hexadecimal
/// forms the decoder is deterministic and total over well-formed digits,
/// so success is owed there and the bytes are the digit pairs; on the SS58
/// path only the Ok shape is stated.
#[verifier::external_body]
fn account_id_from_str(s: &str) -> (r: Result<Vec<u8>, Error>)
    ensures
        r matches Ok(b) ==> b@.len() == 32 && b@ == account_id_bytes_of(s@),
        r matches Err(e) ==> e == Error::IdentifierParseError,
        s@.len() == 66 && s@[0] == '0' && s@[1] == 'x' && is_valid_hex(s@.subrange(2, 66))
            ==> r is Ok && r->Ok_0@ == hex_bytes(s@.subrange(2, 66)),
        s@.len() == 64 && is_valid_hex(s@) ==> r is Ok && r->Ok_0@ == hex_bytes(s@),
{
    match <sp_core::crypto::AccountId32 as std::str::FromStr>::from_str(s) {
        Ok(a) => Ok(AsRef::<[u8]>::as_ref(&a).to_vec()),
        Err(_) => Err(Error::IdentifierParseError),
    }
}

/// Resolves the textual form of an account identifier into its 32 bytes;
/// a malformed identifier is an [`Error::IdentifierParseError`]. A
/// 64-digit hexadecimal form, bare or `0x`-prefixed, always resolves, to
/// exactly its digit pairs.
pub fn resolve_account(s: &str) -> (r: Result<Vec<u8>, Error>)
    ensures
        r matches Ok(b) ==> b@.len() == 32 && b@ == account_id_bytes_of(s@),
        r is Err ==> r == Err::<Vec<u8>, Error>(Error::IdentifierParseError),
        (s@.len() == 66 && s@[0] == '0' && s@[1] == 'x' && is_valid_hex(s@.subrange(2, 66))) ==> (r
            matches Ok(b) && b@ == hex_bytes(s@.subrange(2, 66))),
        s@.len() == 64 && is_valid_hex(s@) ==> r is Ok && r->Ok_0@ == hex_bytes(s@),
{
    account_id_from_str(s)
}

/// Relies on `sp_core::crypto::Pair::from_string` and `Pair::public` for
/// sr25519: parsing the secret URI, applying the password override and
/// deriving the public key are deterministic in the two strings, so
/// success and the 32 account bytes are functions of them alone; a
/// malformed URI or phrase fails.
#[verifier::external_body]
fn pair_from_suri(suri: &str, password: Option<&String>) -> (r: Result<
    (sp_core::sr25519::Pair, Vec<u8>),
    Error,
>)
    ensures
        r matches Ok(p) ==> suri_derives(suri@, password_chars(password)) && p.1@.len() == 32
            && p.1@ == account_of_suri(suri@, password_chars(password)),
        r matches Err(e) ==> e == Error::SecretParseError && !suri_derives(
            suri@,
            password_chars(password),
        ),
{
    let pw = password.map(|p| p.as_str());
    match <sp_core::sr25519::Pair as sp_core::crypto::Pair>::from_string(suri, pw) {
        Ok(pair) => {
            let account = <sp_core::sr25519::Pair as sp_core::crypto::Pair>::public(&pair)
                .0
                .to_vec();
            Ok((pair, account))
        },
        Err(_) => Err(Error::SecretParseError),
    }
}

/// Relies on `sp_core::crypto::Pair::sign` for sr25519: a signature is
/// exactly 64 bytes; the signing scheme is randomised, so two calls on the
/// same message may differ.
#[verifier::external_body]
fn pair_sign(pair: &sp_core::sr25519::Pair, message: &Vec<u8>) -> (r: Vec<u8>)
    ensures
        r@.len() == 64,
{
    <sp_core::sr25519::Pair as sp_core::crypto::Pair>::sign(pair, message.as_slice()).0.to_vec()
}

/// A derived key pair together with its account identifier. Viewed as the
/// 32 account-identifier bytes.
pub struct Signer {
    pair: sp_core::sr25519::Pair,
    account: Vec<u8>,
}

impl View for Signer {
    type V = Seq<u8>;

    closed spec fn view(&self) -> Seq<u8> {
        self.account@
    }
}

impl Signer {
    /// The account identifier is always the 32 bytes derived from the
    /// public key.
    pub open spec fn wf(&self) -> bool {
        self@.len() == 32
    }

    /// Derives a key pair from a secret URI and an optional password:
    /// success, and the account identifier, depend on the two strings
    /// alone; a URI that does not parse is an [`Error::SecretParseError`].
    pub fn derive(suri: &str, password: Option<&String>) -> (r: Result<Signer, Error>)
        ensures
            r is Ok <==> suri_derives(suri@, password_chars(password)),
            r matches Ok(s) ==> s.wf() && s@ == account_of_suri(suri@, password_chars(password)),
            r is Err ==> r == Err::<Signer, Error>(Error::SecretParseError),
    {
        match pair_from_suri(suri, password) {
            Ok((pair, account)) => Ok(Signer { pair, account }),
            Err(_) => Err(Error::SecretParseError),
        }
    }

    /// The account identifier derived from the public key: the extrinsic
    /// origin and the simulated call's origin field.
    pub fn account_id(&self) -> (r: &Vec<u8>)
        ensures
            r@ == self@,
    {
        &self.account
    }

    /// Signs an arbitrary byte buffer; the signature is 64 bytes.
    pub fn sign(&self, message: &Vec<u8>) -> (r: Vec<u8>)
        ensures
            r@.len() == 64,
    {
        pair_sign(&self.pair, message)
    }
}

} // verus!
