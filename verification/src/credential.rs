//! Secure Remote Password arithmetic over the 2048-bit group, with SHA-256.
//!
//! The modular arithmetic and the hashing are done by the `srp` crate; this
//! module fixes what is handed to it and says when it refuses.

use crate::error::AuthError;
use rand::RngCore;
use sha2::Sha256;
use srp::client::SrpClient;
use srp::groups::G_2048;
use srp::types::SrpAuthError;
use vstd::arithmetic::power::pow;
use vstd::prelude::*;
use vstd::utf8::encode_utf8;

verus! {

/// Number of random bytes drawn for a salt or for an ephemeral secret.
pub const SECRET_LEN: usize = 32;

/// The safe prime `N` of the 2048-bit group: every exchanged value is a
/// residue modulo this number.
pub open spec fn group_prime() -> nat {
    0xAC6BDB41324A9A9BF166DE5E1389582FAF72B6651987EE07FC3192943DB56050A37329CBB4A099ED8193E0757767A13DD52312AB4B03310DCD7F48A9DA04FD50E8083969EDB767B0CF6095179A163AB3661A05FBD5FAAAE82918A9962F0B93B855F97993EC975EEAA80D740ADBF4FF747359D041D5C33EA71D281E446B14773BCA97B43A23FB801676BD207A436C6481F1D2B9078717461A5B9D32E688F87748544523B524B0D57D5EA77A2775D2ECFA032CFBDBF52FB3786160279004E57AE6AF874E7303CE53299CCC041C7BC308D82A5698F3A8D0C38271AE35F8E9DBFBB694B5C803D89F7AE435DE236D525F54759B65E372FCD68EF20FA7111F9E4AFF73nat
}

/// The number that a byte string denotes when read big-endian. The empty
/// string denotes zero.
pub open spec fn be_value(bytes: Seq<u8>) -> nat
    decreases bytes.len(),
{
    if bytes.len() == 0 {
        0
    } else {
        be_value(bytes.drop_last()) * 256 + bytes.last() as nat
    }
}

/// The shortest byte string that denotes `n` when read big-endian; one
/// zero byte for zero.
pub open spec fn be_bytes(n: nat) -> Seq<u8>
    decreases n,
{
    if n < 256 {
        seq![n as u8]
    } else {
        be_bytes(n / 256).push((n % 256) as u8)
    }
}

/// The generator `g` of the 2048-bit group.
pub open spec fn group_generator() -> nat {
    2
}

/// The public value `g^a mod N` that announces the ephemeral secret `a`,
/// where `a` is the number that `secret` denotes.
pub open spec fn public_ephemeral_of(secret: Seq<u8>) -> Seq<u8> {
    be_bytes((pow(group_generator() as int, be_value(secret)) % (group_prime() as int)) as nat)
}

/// A server public value is degenerate when it is congruent to zero modulo
/// the group prime. The protocol forbids the client to go on with one.
pub open spec fn is_degenerate(server_public: Seq<u8>) -> bool {
    be_value(server_public) % group_prime() == 0
}

/// What the identity is for the arithmetic: the player name in lower case,
/// encoded as UTF-8. The name as typed is kept for everything else.
pub open spec fn identity_bytes(username: Seq<char>) -> Seq<u8> {
    encode_utf8(lowercase(username))
}

/// The verifier that a server stores for a player at registration.
pub open spec fn verifier_of(username: Seq<char>, password: Seq<char>, salt: Seq<u8>) -> Seq<u8> {
    srp_verifier(identity_bytes(username), encode_utf8(password), salt)
}

/// What deriving a proof gives: a refusal exactly when the server's public
/// value is degenerate, the proof of the exchange otherwise.
pub open spec fn proof_outcome(
    secret: Seq<u8>,
    username: Seq<char>,
    password: Seq<char>,
    server_salt: Seq<u8>,
    server_public: Seq<u8>,
) -> Result<Seq<u8>, AuthError> {
    if is_degenerate(server_public) {
        Err(AuthError::AuthMathError)
    } else {
        Ok(srp_proof(secret, identity_bytes(username), encode_utf8(password), server_salt, server_public))
    }
}

/// Lower-case form of a string, as `str::to_lowercase` computes it.
pub uninterp spec fn lowercase(s: Seq<char>) -> Seq<char>;

/// Password verifier `g^x mod N` with `x = H(salt | H(username ":" password))`,
/// as `SrpClient::<Sha256>::compute_verifier` computes it in the 2048-bit group.
pub uninterp spec fn srp_verifier(username: Seq<u8>, password: Seq<u8>, salt: Seq<u8>) -> Seq<u8>;

/// Client proof `M1` of an exchange, as `SrpClient::<Sha256>::process_reply`
/// followed by `SrpClientVerifier::proof` computes it.
pub uninterp spec fn srp_proof(
    secret: Seq<u8>,
    username: Seq<u8>,
    password: Seq<u8>,
    salt: Seq<u8>,
    server_public: Seq<u8>,
) -> Seq<u8>;

/// The error type of the `srp` crate, carried from the call to the place
/// where it is mapped to [`AuthError`].
#[verifier::external_type_specification]
#[verifier::external_body]
pub struct ExSrpAuthError(SrpAuthError);

/// Calls `str::to_lowercase`. Trusted: the result is the lower-case form of
/// the argument, a function of the argument alone.
#[verifier::external_body]
fn to_lowercase(s: &str) -> (res: String)
    ensures
        res@ == lowercase(s@),
{
    s.to_lowercase()
}

/// Calls `SrpClient::<Sha256>::compute_verifier` in the 2048-bit group.
/// Trusted: the result depends on the three byte strings alone.
#[verifier::external_body]
fn srp_compute_verifier(username: &[u8], password: &[u8], salt: &[u8]) -> (res: Vec<u8>)
    ensures
        res@ == srp_verifier(username@, password@, salt@),
{
    SrpClient::<Sha256>::new(&G_2048).compute_verifier(username, password, salt)
}

/// Calls `SrpClient::<Sha256>::compute_public_ephemeral` in the 2048-bit
/// group. Trusted: with the secret read big-endian as the number `a`, the
/// result is `2^a mod N` in the fewest bytes, big-endian.
#[verifier::external_body]
fn srp_compute_public_ephemeral(secret: &[u8]) -> (res: Vec<u8>)
    ensures
        res@ == public_ephemeral_of(secret@),
{
    SrpClient::<Sha256>::new(&G_2048).compute_public_ephemeral(secret)
}

/// Calls `SrpClient::<Sha256>::process_reply` in the 2048-bit group and, on
/// success, copies out `SrpClientVerifier::proof`. Trusted: the call fails
/// exactly when the server's public value, read big-endian, is a multiple of
/// the group prime; otherwise the proof depends on the five byte strings
/// alone.
#[verifier::external_body]
fn srp_process_reply(
    secret: &[u8],
    username: &[u8],
    password: &[u8],
    salt: &[u8],
    server_public: &[u8],
) -> (res: Result<Vec<u8>, SrpAuthError>)
    ensures
        res is Err <==> is_degenerate(server_public@),
        res matches Ok(m) ==> m@ == srp_proof(
            secret@,
            username@,
            password@,
            salt@,
            server_public@,
        ),
{
    match SrpClient::<Sha256>::new(&G_2048).process_reply(
        secret,
        username,
        password,
        salt,
        server_public,
    ) {
        Ok(verifier) => Ok(verifier.proof().to_vec()),
        Err(e) => Err(e),
    }
}

/// Calls `RngCore::fill_bytes` on `rand::thread_rng()`. Trusted: the buffer
/// keeps its length. Nothing is known of the bytes.
#[verifier::external_body]
fn fill_random(buf: &mut Vec<u8>)
    ensures
        final(buf)@.len() == old(buf)@.len(),
{
    rand::thread_rng().fill_bytes(buf.as_mut_slice());
}

/// Draws [`SECRET_LEN`] bytes from the operating system's secure generator.
/// Each salt and each ephemeral secret is one such draw, used for one
/// connection.
pub fn fresh_secret() -> (secret: Vec<u8>)
    ensures
        secret@.len() == SECRET_LEN,
{
    let mut buf: Vec<u8> = vec![0u8; SECRET_LEN];
    fill_random(&mut buf);
    buf
}

/// Computes the verifier that binds a player name, a password and a salt,
/// for registration with a server that has no record of the player yet.
pub fn compute_verifier(username: &str, password: &str, salt: &[u8]) -> (verifier: Vec<u8>)
    ensures
        verifier@ == verifier_of(username@, password@, salt@),
{
    let identity = to_lowercase(username);
    srp_compute_verifier(identity.as_str().as_bytes(), password.as_bytes(), salt)
}

/// Computes the public value that announces an ephemeral secret. The same
/// secret must later go into [`derive_proof`].
pub fn compute_public_ephemeral(secret: &[u8]) -> (public: Vec<u8>)
    ensures
        public@ == public_ephemeral_of(secret@),
{
    srp_compute_public_ephemeral(secret)
}

/// Derives the proof that answers the server's salt and public value.
/// Refuses a degenerate public value with [`AuthError::AuthMathError`].
pub fn derive_proof(
    secret: &[u8],
    username: &str,
    password: &str,
    server_salt: &[u8],
    server_public: &[u8],
) -> (res: Result<Vec<u8>, AuthError>)
    ensures
        match res {
            Ok(proof) => proof_outcome(
                secret@,
                username@,
                password@,
                server_salt@,
                server_public@,
            ) == Ok::<Seq<u8>, AuthError>(proof@),
            Err(e) => proof_outcome(secret@, username@, password@, server_salt@, server_public@)
                == Err::<Seq<u8>, AuthError>(e),
        },
{
    let identity = to_lowercase(username);
    match srp_process_reply(
        secret,
        identity.as_str().as_bytes(),
        password.as_bytes(),
        server_salt,
        server_public,
    ) {
        Ok(proof) => Ok(proof),
        Err(_) => Err(AuthError::AuthMathError),
    }
}

/// A byte string of zeros denotes zero, whatever its length.
pub proof fn lemma_zero_bytes_denote_zero(bytes: Seq<u8>)
    requires
        forall|i: int| 0 <= i < bytes.len() ==> bytes[i] == 0,
    ensures
        be_value(bytes) == 0,
    decreases bytes.len(),
{
    if bytes.len() > 0 {
        lemma_zero_bytes_denote_zero(bytes.drop_last());
    }
}

/// Reading back what was written gives the number that was written, so
/// what `be_bytes` returns denotes its argument and nothing else.
pub proof fn lemma_be_bytes_denote(n: nat)
    ensures
        be_value(be_bytes(n)) == n,
        be_bytes(n).len() >= 1,
        n > 0 ==> be_bytes(n)[0] != 0,
    decreases n,
{
    if n < 256 {
        let one = seq![n as u8];
        assert(one.drop_last() =~= Seq::<u8>::empty());
        assert(be_value(one.drop_last()) == 0);
    } else {
        let head = be_bytes(n / 256);
        let all = head.push((n % 256) as u8);
        lemma_be_bytes_denote(n / 256);
        assert(all.drop_last() =~= head);
        assert(all[0] == head[0]);
    }
}

/// The verifier is a function of its inputs: equal inputs give equal
/// verifiers, on every call.
pub proof fn lemma_verifier_deterministic(
    username1: Seq<char>,
    password1: Seq<char>,
    salt1: Seq<u8>,
    username2: Seq<char>,
    password2: Seq<char>,
    salt2: Seq<u8>,
)
    requires
        username1 == username2,
        password1 == password2,
        salt1 == salt2,
    ensures
        verifier_of(username1, password1, salt1) == verifier_of(username2, password2, salt2),
{
}

/// Deriving a proof with the secret behind a public ephemeral value succeeds
/// for every server public value that is not degenerate, and is refused for
/// every one that is; the zero element in particular is refused.
pub proof fn lemma_proof_succeeds_unless_degenerate(
    secret: Seq<u8>,
    username: Seq<char>,
    password: Seq<char>,
    server_salt: Seq<u8>,
    server_public: Seq<u8>,
)
    ensures
        !is_degenerate(server_public) ==> proof_outcome(
            secret,
            username,
            password,
            server_salt,
            server_public,
        ) is Ok,
        is_degenerate(server_public) ==> proof_outcome(
            secret,
            username,
            password,
            server_salt,
            server_public,
        ) == Err::<Seq<u8>, AuthError>(AuthError::AuthMathError),
        (forall|i: int| 0 <= i < server_public.len() ==> server_public[i] == 0)
            ==> is_degenerate(server_public),
{
    if forall|i: int| 0 <= i < server_public.len() ==> server_public[i] == 0 {
        lemma_zero_bytes_denote_zero(server_public);
    }
}

} // verus!
