use texmodbot::credential::{
    compute_public_ephemeral, compute_verifier, derive_proof, fresh_secret, SECRET_LEN,
};
use texmodbot::error::AuthError;

const SALT: &[u8] = b"saltsaltsaltsalt";

const VERIFIER: &str = "7106c06e34bbac583dd59abb7b0e64d3aa3d0ce482d87fca0a3e2af69041a8d1c331a3761639e531da2c777c3bb1c449b78936d808229f12c2108929571a9e5144ae0b30c22a595a08c995139934cec264091f905dfd2824be82c604ea4204a056bb040cc4ec465e7c82051df39f8992940ce0061e66cb6335211d78364b5cc229d839f64e5635e52621b2d92eaa672dddb9f055cf4ca7014e2fb0f366861e13b2590107cc37294040afcd9c5aa5a7816b2926babedd5024252d606760b5f342d680398d2c48886ff992f5593b80e457b8e7ef1d4e5144381b146e65b5763fa54015f0993c6cdd8584adb62cfe782b4c023e3fcfd0e959eb37cedf9f547845d5";

const VERIFIER_EMPTY_PASSWORD: &str = "051cb436cb3eaa706c41de0365250e4fe49d2b737ba135c533821b29f4c59f9426d9058b68cd6877f070f09a84ac8c766f7d6689a44377d1cd0b10b708492db6e387d37c3fcba6e6b10a67631d13a28f9face8590e9abc64434b48b579e261d532fdc85ee819db53095d269f1f288b09d62023354bb6c96b9536c92020b3f17d5ecaf8dfe9e8dec408dc93780d31c0fbf685385c50ac39bde8d564aa254f4281286bb03220724056ec80a9661bc4730159f980c1bb848874b4f9e670b49b0f7ed0ae33c08cdf44b648291f9f05ebc635a443c334b443dfafd941361b3af6dbaa46431e2b4d0ee66360c9d88677a8896ec42f14243b67c8e96dc58e94a803c5c7";

const PUBLIC_A: &str = "630acdff5d334462d92a29e0b7fa6e20020f3333292f6d3a640f1c7a76ad9d317531c57979952e5736c88db118d060dc0539a812b9b0af3b4002380a9f28ae4a7c45a896542de05fbcf76a4e7e0739b9a55d5d6c7aba4f1e1b58729a79bc084d5ff513eaec33ce978f5bad87e579b5a95fc773198e22697b2eadab9eb94f84cdcf1fe94ff09f88d4ca46e968bba443ff71167571f19feb052869bd28d7dabf963b7fe399a1f70e7e08d00e1a3778ed1dddc3325dd09e05d31e774d1fd295c4abfbc613446232004d67cb03d6a034d2ce6ca0a544a0ff5b434b4b4267fa6c6d72acbbda2efc1ef1d1fe36d35382b089abe556862aec35b29d3d0cdf359a9cfed3";

const PUBLIC_B: &str = "8060c8a5a9105767a007db687cfb034aa8679d04873ebc334f4f6341f1d974b143f9d907808450a2b07e824efbd241d82904f0097c05cf5138b3a26d7df01a07e7b014b62bedd4cf72c0451264a98f5684c47b9ed8a954d004df75c04f78d2662df930462d20350ba4541dc3270bd7be4e7c9a3e2fe002f851f85f1ce6f01614ab4016494a290e7424506e6979ca9c28a4cd1fc657978de2f08edddbc41e62aacbf86edcc0190a237b998df86e8880033224dc7c3d61b3ec88ca7eabf702cdae7e87d958488d2a6f620d12b88be9480a9d9ab0ef27ea432585d4727f370baa23124a4b05169bef368c487003aeb085c2a3c4f068e0c6f897b25c579cf6277c08";

const PROOF: &str = "3f491d23755c645b84e286ee83dcafed6dae72ab260d483f6ec322189e69f93b";

const PROOF_FOR_ONE: &str = "512e4f72db9d1e882c0ab770c4b2affeffc30c0439b56887ab0d814def9b3a1a";

const PROOF_FOR_PRIME_PLUS_ONE: &str =
    "8bef39e4abedb7dcf7837542440259f20741a9303f81e7155862f61374b7c096";

const PRIME: &str = "ac6bdb41324a9a9bf166de5e1389582faf72b6651987ee07fc3192943db56050a37329cbb4a099ed8193e0757767a13dd52312ab4b03310dcd7f48a9da04fd50e8083969edb767b0cf6095179a163ab3661a05fbd5faaae82918a9962f0b93b855f97993ec975eeaa80d740adbf4ff747359d041d5c33ea71d281e446b14773bca97b43a23fb801676bd207a436c6481f1d2b9078717461a5b9d32e688f87748544523b524b0d57d5ea77a2775d2ecfa032cfbdbf52fb3786160279004e57ae6af874e7303ce53299ccc041c7bc308d82a5698f3a8d0c38271ae35f8e9dbfbb694b5c803d89f7ae435de236d525f54759b65e372fcd68ef20fa7111f9e4aff73";

const TWICE_PRIME: &str = "0158d7b68264953537e2cdbcbc2712b05f5ee56cca330fdc0ff86325287b6ac0a146e65397694133db0327c0eaeecf427baa4625569606621b9afe9153b409faa1d01072d3db6ecf619ec12a2f342c7566cc340bf7abf555d05231532c5e172770abf2f327d92ebdd5501ae815b7e9fee8e6b3a083ab867d4e3a503c88d628ee77952f687447f7002ced7a40f486d8c903e3a5720f0e2e8c34b73a65cd11f0ee90a88a476a4961aafabd4ef44eeba5d9f40659f7b7ea5f66f0c2c04f2009caf5cd5f0e9ce6079ca65339980838f78611b054ad31e751a18704e35c6bf1d3b7f76d296b9007b13ef5c86bbc46daa4bea8eb36cbc6e5f9ad1de41f4e223f3c95fee6";

fn unhex(text: &str) -> Vec<u8> {
    let mut bytes: Vec<u8> = Vec::new();
    let mut at: usize = 0;
    while at < text.len() {
        bytes.push(u8::from_str_radix(&text[at..at + 2], 16).unwrap());
        at += 2;
    }
    bytes
}

fn secret_a() -> Vec<u8> {
    (1u8..=32u8).collect()
}

fn secret_b() -> Vec<u8> {
    (33u8..=64u8).collect()
}

#[test]
fn verifier_has_the_expected_value() {
    assert_eq!(compute_verifier("alice", "password123", SALT), unhex(VERIFIER));
}

#[test]
fn verifier_is_not_its_salt() {
    assert_ne!(compute_verifier("alice", "password123", SALT), SALT.to_vec());
}

#[test]
fn verifier_of_empty_password() {
    assert_eq!(compute_verifier("alice", "", SALT), unhex(VERIFIER_EMPTY_PASSWORD));
}

#[test]
fn verifier_is_deterministic() {
    let first = compute_verifier("alice", "password123", SALT);
    let second = compute_verifier("alice", "password123", SALT);
    assert_eq!(first, second);
}

#[test]
fn verifier_ignores_case_of_the_name_only() {
    assert_eq!(compute_verifier("Alice", "password123", SALT), unhex(VERIFIER));
    assert_eq!(compute_verifier("ALICE", "password123", SALT), unhex(VERIFIER));
    assert_ne!(compute_verifier("alice", "Password123", SALT), unhex(VERIFIER));
}

#[test]
fn verifier_depends_on_each_input() {
    let reference = compute_verifier("alice", "password123", SALT);
    assert_ne!(compute_verifier("bob", "password123", SALT), reference);
    assert_ne!(compute_verifier("alice", "password124", SALT), reference);
    assert_ne!(compute_verifier("alice", "password123", b"tlastlastlastlas"), reference);
}

#[test]
fn public_ephemeral_has_the_expected_value() {
    assert_eq!(compute_public_ephemeral(&secret_a()), unhex(PUBLIC_A));
}

#[test]
fn public_ephemeral_of_zero_is_one() {
    assert_eq!(compute_public_ephemeral(&[]), vec![1u8]);
    assert_eq!(compute_public_ephemeral(&[0u8, 0u8]), vec![1u8]);
}

#[test]
fn public_ephemeral_of_one_is_the_generator() {
    assert_eq!(compute_public_ephemeral(&[1u8]), vec![2u8]);
}

#[test]
fn proof_has_the_expected_value() {
    let proof = derive_proof(&secret_a(), "alice", "password123", SALT, &unhex(PUBLIC_B));
    assert_eq!(proof, Ok(unhex(PROOF)));
}

#[test]
fn proof_ignores_case_of_the_name() {
    let proof = derive_proof(&secret_a(), "Alice", "password123", SALT, &unhex(PUBLIC_B));
    assert_eq!(proof, Ok(unhex(PROOF)));
}

#[test]
fn proof_for_small_public_value() {
    let proof = derive_proof(&secret_a(), "alice", "password123", SALT, &[1u8]);
    assert_eq!(proof, Ok(unhex(PROOF_FOR_ONE)));
}

#[test]
fn proof_for_public_value_above_the_prime() {
    let mut above = unhex(PRIME);
    let last: usize = above.len() - 1;
    above[last] += 1;
    let proof = derive_proof(&secret_a(), "alice", "password123", SALT, &above);
    assert_eq!(proof, Ok(unhex(PROOF_FOR_PRIME_PLUS_ONE)));
}

#[test]
fn proof_is_accepted_by_a_server() {
    let server = srp::server::SrpServer::<sha2::Sha256>::new(&srp::groups::G_2048);
    let verifier = compute_verifier("alice", "password123", SALT);
    let a = secret_a();
    let b = secret_b();
    let a_pub = compute_public_ephemeral(&a);
    let b_pub = server.compute_public_ephemeral(&b, &verifier);
    assert_eq!(b_pub, unhex(PUBLIC_B));
    let proof = derive_proof(&a, "alice", "password123", SALT, &b_pub).unwrap();
    let session = server.process_reply(&b, &verifier, &a_pub).unwrap();
    assert!(session.verify_client(&proof).is_ok());
}

#[test]
fn proof_with_wrong_password_is_rejected_by_a_server() {
    let server = srp::server::SrpServer::<sha2::Sha256>::new(&srp::groups::G_2048);
    let verifier = compute_verifier("alice", "password123", SALT);
    let a = secret_a();
    let b = secret_b();
    let a_pub = compute_public_ephemeral(&a);
    let b_pub = server.compute_public_ephemeral(&b, &verifier);
    let proof = derive_proof(&a, "alice", "guess", SALT, &b_pub).unwrap();
    let session = server.process_reply(&b, &verifier, &a_pub).unwrap();
    assert!(session.verify_client(&proof).is_err());
}

#[test]
fn proof_with_another_secret_is_rejected_by_a_server() {
    let server = srp::server::SrpServer::<sha2::Sha256>::new(&srp::groups::G_2048);
    let verifier = compute_verifier("alice", "password123", SALT);
    let b = secret_b();
    let a_pub = compute_public_ephemeral(&secret_a());
    let b_pub = server.compute_public_ephemeral(&b, &verifier);
    let proof = derive_proof(&secret_b(), "alice", "password123", SALT, &b_pub).unwrap();
    let session = server.process_reply(&b, &verifier, &a_pub).unwrap();
    assert!(session.verify_client(&proof).is_err());
}

#[test]
fn zero_public_value_is_refused() {
    let a = secret_a();
    assert_eq!(derive_proof(&a, "alice", "password123", SALT, &[]), Err(AuthError::AuthMathError));
    assert_eq!(
        derive_proof(&a, "alice", "password123", SALT, &[0u8]),
        Err(AuthError::AuthMathError)
    );
    assert_eq!(
        derive_proof(&a, "alice", "password123", SALT, &[0u8; 256]),
        Err(AuthError::AuthMathError)
    );
}

#[test]
fn multiples_of_the_prime_are_refused() {
    let a = secret_a();
    assert_eq!(
        derive_proof(&a, "alice", "password123", SALT, &unhex(PRIME)),
        Err(AuthError::AuthMathError)
    );
    assert_eq!(
        derive_proof(&a, "alice", "password123", SALT, &unhex(TWICE_PRIME)),
        Err(AuthError::AuthMathError)
    );
    let mut padded: Vec<u8> = vec![0u8; 4];
    padded.extend(unhex(PRIME));
    assert_eq!(
        derive_proof(&a, "alice", "password123", SALT, &padded),
        Err(AuthError::AuthMathError)
    );
}

#[test]
fn fresh_secret_has_the_full_length() {
    assert_eq!(SECRET_LEN, 32);
    assert_eq!(fresh_secret().len(), 32);
}

#[test]
fn fresh_secrets_differ() {
    let first = fresh_secret();
    let second = fresh_secret();
    assert_ne!(first, second);
    assert_ne!(first, vec![0u8; 32]);
}

const TWO_TO_THE_2048: &str = "539424becdb565640e9921a1ec76a7d0508d499ae67811f803ce6d6bc24a9faf5c8cd6344b5f66127e6c1f8a88985ec22adced54b4fccef23280b75625fb02af17f7c6961248984f309f6ae865e9c54c99e5fa042a055517d6e75669d0f46c47aa06866c1368a11557f28bf5240b008b8ca62fbe2a3cc158e2d7e1bb94eb88c435684bc5dc047fe98942df85bc939b7e0e2d46f878e8b9e5a462cd19770788b7abbadc4adb4f2a82a15885d88a2d1305fcd304240ad04c879e9fd86ffb1a85195078b18cfc31acd66333fbe3843cf727d5a9670c572f3c7d8e51ca07162404496b4a37fc2760851bca21dc92ada0ab8a649a1c8d0329710df058eee061b5008d";

#[test]
fn public_ephemeral_is_reduced_modulo_the_prime() {
    assert_eq!(compute_public_ephemeral(&[8u8, 0u8]), unhex(TWO_TO_THE_2048));
    assert_eq!(compute_public_ephemeral(&[0u8, 0u8, 8u8, 0u8]), unhex(TWO_TO_THE_2048));
}

#[test]
fn public_ephemeral_of_small_secrets_is_a_power_of_two() {
    assert_eq!(compute_public_ephemeral(&[8u8]), vec![1u8, 0u8]);
    assert_eq!(compute_public_ephemeral(&[15u8]), vec![128u8, 0u8]);
    assert_eq!(compute_public_ephemeral(&[0u8, 16u8]), vec![1u8, 0u8, 0u8]);
}

#[test]
fn public_ephemeral_has_no_leading_zero() {
    let mut secret: u8 = 0;
    while secret < 200 {
        let public = compute_public_ephemeral(&[secret, 77u8, secret]);
        assert!(!public.is_empty());
        assert!(public.len() <= 256);
        assert_ne!(public[0], 0u8);
        secret += 1;
    }
}
