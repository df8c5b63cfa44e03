use polygone::error::PolygoneError;
use polygone::message::{receive, send, Fragment, SendOutput};
use polygone::shamir::{reconstruct, split};
use polygone::sign::{generate_keypair, sign, verify, Signature, SignPublicKey, SignSecretKey, SIGNATURE_BYTES};
use polygone::symmetric::{decrypt, encrypt, SessionKey};

fn key(b: u8) -> SessionKey {
    SessionKey::from_bytes([b; 32])
}

#[test]
fn shamir_4_of_7_round_trip() {
    let secret = b"polygone-shared-secret-32-bytes!";
    let frags = split(secret, 4, 7).unwrap();
    assert_eq!(frags.len(), 7);
    let recovered = reconstruct(&frags[..4], 4).unwrap();
    assert_eq!(recovered, secret);
}

#[test]
fn shamir_3_of_7_fails() {
    let secret = b"post-quantum-secret";
    let frags = split(secret, 4, 7).unwrap();
    assert!(reconstruct(&frags[..3], 4).is_err());
}

#[test]
fn shamir_any_4_of_7_reconstruct() {
    let secret = b"any four fragments suffice";
    let frags = split(secret, 4, 7).unwrap();
    for i in 0..7 {
        for j in (i + 1)..7 {
            for k in (j + 1)..7 {
                for l in (k + 1)..7 {
                    let subset = vec![frags[i].clone(), frags[j].clone(), frags[k].clone(), frags[l].clone()];
                    let rec = reconstruct(&subset, 4).unwrap();
                    assert_eq!(rec, secret, "Combination ({i},{j},{k},{l}) failed");
                }
            }
        }
    }
}

#[test]
fn shamir_fragment_ids_are_one_to_n() {
    let frags = split(b"ids", 4, 7).unwrap();
    let ids: Vec<u8> = frags.iter().map(|f| f.id.0).collect();
    assert_eq!(ids, vec![1, 2, 3, 4, 5, 6, 7]);
    // Each share is its x byte, then one byte per secret byte.
    for f in &frags {
        assert_eq!(f.data.len(), 4);
        assert_eq!(f.data[0], f.id.0);
    }
}

#[test]
fn symmetric_round_trip_and_wrong_key() {
    let data = encrypt(b"attack at dawn", &key(1)).unwrap();
    // A 12-byte nonce, then the ciphertext and its 16-byte tag.
    assert_eq!(data.len(), 12 + 14 + 16);
    assert_eq!(decrypt(&data, &key(1)).unwrap(), b"attack at dawn");
    assert!(decrypt(&data, &key(2)).is_err());
    assert!(decrypt(&data[..11], &key(1)).is_err());
}

#[test]
fn session_key_payload_round_trip() {
    let k = key(9);
    let p = k.encrypt(b"hello").unwrap();
    assert_eq!(k.decrypt(&p).unwrap(), b"hello");
}

#[test]
fn send_receive_round_trip() {
    let k = key(3);
    let msg = "Coucou L\u{e9}vy \u{2014} Polygone fonctionne.";
    let output = send(msg, &k, vec![1, 2, 3], vec![4, 5]).unwrap();
    assert_eq!(output.fragments.len(), 7);
    let decrypted = receive(&output, &k).unwrap();
    assert_eq!(decrypted, msg);
}

#[test]
fn send_receive_long_message() {
    let k = key(4);
    let msg = "\u{2B21} The network dissolves. Keys are zeroed. The exchange did not happen. ".repeat(20);
    let output = send(&msg, &k, vec![9; 32], vec![8; 32]).unwrap();
    let decrypted = receive(&output, &k).unwrap();
    assert_eq!(decrypted, msg);
}

#[test]
fn insufficient_fragments_rejected() {
    let k = key(5);
    let mut output = send("Ce message sera fragment\u{e9}.", &k, vec![], vec![]).unwrap();
    output.fragments.truncate(3);
    let result = receive(&output, &k);
    assert!(result.is_err());
}

#[test]
fn fragment_hex_roundtrip() {
    let f = Fragment { index: 3, share: vec![0x42; 64] };
    let hex = f.to_hex();
    let f2 = Fragment::from_hex(&hex).unwrap();
    assert_eq!(f2.index, 3);
    assert_eq!(f2.share, vec![0x42; 64]);
}

#[test]
fn send_output_display_parse() {
    let k = key(6);
    let output = send("Test display/parse", &k, vec![0xab, 0xcd], vec![0x01]).unwrap();
    let text = output.display();
    let parsed = SendOutput::parse(&text).unwrap();
    assert_eq!(parsed.fragments.len(), 7);
    assert_eq!(parsed.kem_ct, output.kem_ct);
    assert_eq!(receive(&parsed, &k).unwrap(), "Test display/parse");
}

#[test]
fn alice_bob_full_flow() {
    let shared = key(7);
    let msg = "Alice, on se retrouve \u{e0} 20h. \u{2014} Bob";
    let output = send(msg, &shared, vec![7; 16], vec![1; 16]).unwrap();
    let decrypted = receive(&output, &shared).unwrap();
    assert_eq!(decrypted, msg);
}

#[test]
fn fragment_text_form() {
    let f = Fragment { index: 5, share: vec![0x0f, 0xa0] };
    assert_eq!(f.to_hex(), "05:0fa0");
    assert!(matches!(Fragment::from_hex("05:0fa"), Err(PolygoneError::ParseFragment)));
    assert!(matches!(Fragment::from_hex("nope"), Err(PolygoneError::ParseFragment)));
}

#[test]
fn parse_reports_missing_fields_and_bad_keys() {
    match SendOutput::parse("SENDER_PK:00\n") {
        Err(PolygoneError::MissingField(m)) => assert_eq!(m, "KEM_CT"),
        _ => panic!("expected a missing KEM_CT"),
    }
    match SendOutput::parse("KEM_CT:zz\n") {
        Err(PolygoneError::KeyFile(m)) => assert!(m.starts_with("hex decode: ")),
        _ => panic!("expected a key error"),
    }
}

#[test]
fn signatures_verify_and_bind_the_message() {
    let (pk, sk) = generate_keypair().unwrap();
    let sig = sign(&sk, b"hello mesh");
    assert_eq!(sig.as_bytes().len(), SIGNATURE_BYTES);
    assert!(verify(&pk, b"hello mesh", &sig).is_ok());
    assert!(matches!(verify(&pk, b"hello mess", &sig), Err(PolygoneError::SignatureInvalid)));
    assert!(verify(&pk, b"x", &Signature(vec![0; 10])).is_err());
}

#[test]
fn sign_keys_round_trip_through_hex() {
    let (pk, sk) = generate_keypair().unwrap();
    let pk2 = SignPublicKey::from_hex(&format!("  {}\n", pk.to_hex())).unwrap();
    assert_eq!(pk2.as_bytes(), pk.as_bytes());
    let sk2 = SignSecretKey::from_hex(&sk.to_hex()).unwrap();
    assert_eq!(sk2.as_bytes(), sk.as_bytes());
    assert!(matches!(SignPublicKey::from_bytes(&[1, 2, 3]), Err(PolygoneError::Serialization(_))));
    assert!(matches!(SignPublicKey::from_hex("xyz"), Err(PolygoneError::KeyFile(_))));
    assert!(matches!(SignSecretKey::from_hex("00"), Err(PolygoneError::Serialization(_))));
}

#[test]
fn any_four_sent_fragments_read_back() {
    let k = key(6);
    let msg = "quatre sur sept suffisent";
    let output = send(msg, &k, vec![], vec![]).unwrap();
    for pick in [[0usize, 1, 2, 3], [3, 4, 5, 6], [0, 2, 4, 6], [6, 5, 1, 0]] {
        let mut sub = output.clone();
        sub.fragments = pick.iter().map(|&i| output.fragments[i].clone()).collect();
        assert_eq!(receive(&sub, &k).unwrap(), msg);
    }
}
