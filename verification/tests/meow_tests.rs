//! Tests of the protocol engine: the encryption round-trips, authenticated
//! encryption, PRF separation and streaming behaviour, exercised through the
//! public surface with the real permutation linked in.

use ck_meow::MEOW_R;
use ck_meow::Meow;

#[test]
fn test_basic_encryption() {
    let key = [0xAA; 32];
    let message0 = [0xFF; MEOW_R as usize];

    let mut encrypted = message0.to_vec();
    {
        let mut meow = Meow::new(b"test protocol");
        meow.key(&key, false);
        meow.send_enc(&mut encrypted, false);
    }

    assert_ne!(message0.to_vec(), encrypted);

    let mut message1 = encrypted.clone();
    {
        let mut meow = Meow::new(b"test protocol");
        meow.key(&key, false);
        meow.recv_enc(&mut message1, false);
    }

    assert_eq!(message0.to_vec(), message1);
}

#[test]
fn test_encryption_with_nonce() {
    let key = [0xAA; 32];
    let nonce = [0xBB; 32];
    let message0 = [0xFF; MEOW_R as usize];

    let mut encrypted = message0.to_vec();
    {
        let mut meow = Meow::new(b"test protocol");
        meow.key(&key, false);
        meow.send_clr(&nonce, false);
        meow.send_enc(&mut encrypted, false);
    }

    assert_ne!(message0.to_vec(), encrypted);

    let mut message1 = encrypted.clone();
    {
        let mut meow = Meow::new(b"test protocol");
        meow.key(&key, false);
        meow.recv_clr(&nonce, false);
        meow.recv_enc(&mut message1, false);
    }

    assert_eq!(message0.to_vec(), message1);
}

#[test]
fn test_authenticated_encryption() {
    let key = [0xAA; 32];
    let nonce = [0xBB; 32];
    let message0 = [0xFF; MEOW_R as usize];

    let mut mac = vec![0u8; 32];

    let mut encrypted = message0.to_vec();
    {
        let mut meow = Meow::new(b"test protocol");
        meow.key(&key, false);
        meow.send_clr(&nonce, false);
        meow.send_enc(&mut encrypted, false);
        meow.send_mac(&mut mac);
    }

    assert_ne!(message0.to_vec(), encrypted);

    let mut bad_mac = mac.clone();
    bad_mac[0] ^= 0xFF;

    let mut message1 = encrypted.clone();
    {
        let mut meow = Meow::new(b"test protocol");
        meow.key(&key, false);
        meow.recv_clr(&nonce, false);
        meow.recv_enc(&mut message1, false);
        assert!(meow.clone().recv_mac(&mut mac).is_ok());
        assert!(meow.clone().recv_mac(&mut bad_mac).is_err());
    }

    assert_eq!(message0.to_vec(), message1);
}

#[test]
fn test_prf() {
    let mut hash0 = vec![0u8; 32];
    {
        let mut meow = Meow::new(b"test protocol");
        meow.ad(b"hello A", false);
        meow.prf(&mut hash0, false);
    }

    let mut hash1 = vec![0u8; 32];
    {
        let mut meow = Meow::new(b"test protocol");
        meow.ad(b"hello B", false);
        meow.prf(&mut hash1, false);
    }

    assert_ne!(hash0, hash1);
}

#[test]
fn test_streaming() {
    let mut hash0 = vec![0u8; 32];
    {
        let mut meow = Meow::new(b"test protocol");
        meow.ad(b"hello world!", false);
        meow.prf(&mut hash0, false);
    }

    let mut hash1 = vec![0u8; 32];
    {
        let mut meow = Meow::new(b"test protocol");
        meow.ad(b"hello", false);
        meow.ad(b" world!", true);
        meow.prf(&mut hash1, false);
    }

    assert_eq!(hash0, hash1);
}

/// Streaming equivalence holds at every split point, here across a payload
/// longer than one rate so the framing step runs mid-stream.
#[test]
fn test_streaming_every_split() {
    let data = [0x5Au8; 200];
    let mut reference = vec![0u8; 32];
    {
        let mut meow = Meow::new(b"splits");
        meow.ad(&data, false);
        meow.prf(&mut reference, false);
    }
    for split in [0usize, 1, 7, 165, 166, 167, 199, 200] {
        let mut hash = vec![0u8; 32];
        let mut meow = Meow::new(b"splits");
        meow.ad(&data[..split], false);
        meow.ad(&data[split..], true);
        meow.prf(&mut hash, false);
        assert_eq!(reference, hash, "split at {split}");
    }
}

/// An empty message round-trips, and the instances agree afterwards.
#[test]
fn test_empty_message_round_trip() {
    let key = [0x11; 32];
    let mut buf: Vec<u8> = Vec::new();

    let mut sender = Meow::new(b"empty");
    sender.key(&key, false);
    sender.send_enc(&mut buf, false);
    assert!(buf.is_empty());

    let mut receiver = Meow::new(b"empty");
    receiver.key(&key, false);
    receiver.recv_enc(&mut buf, false);
    assert!(buf.is_empty());

    let mut out0 = vec![0u8; 16];
    let mut out1 = vec![0u8; 16];
    sender.prf(&mut out0, false);
    receiver.prf(&mut out1, false);
    assert_eq!(out0, out1);
}

/// Flipping any single bit of a MAC makes verification fail.
#[test]
fn test_mac_every_bit_flip_fails() {
    let mut mac = vec![0u8; 16];
    let mut sender = Meow::new(b"bit flips");
    sender.key(&[0x42; 32], false);
    sender.send_mac(&mut mac);

    let mut receiver = Meow::new(b"bit flips");
    receiver.key(&[0x42; 32], false);
    assert!(receiver.clone().recv_mac(&mut mac.clone()).is_ok());
    for byte in 0..mac.len() {
        for bit in 0..8 {
            let mut flipped = mac.clone();
            flipped[byte] ^= 1u8 << bit;
            assert!(receiver.clone().recv_mac(&mut flipped).is_err());
        }
    }
}

/// Party A sends cleartext, ciphertext and a MAC; party B receives them with
/// the matching calls; both then squeeze identical PRF output.
#[test]
fn test_role_symmetry() {
    let nonce = [0xC3u8; 24];
    let plaintext = b"a short message".to_vec();
    let mut a = Meow::new(b"roles");
    let mut b = Meow::new(b"roles");
    a.key(&[0x77; 32], false);
    b.key(&[0x77; 32], false);

    a.send_clr(&nonce, false);
    b.recv_clr(&nonce, false);

    let mut transfer = plaintext.clone();
    a.send_enc(&mut transfer, false);
    b.recv_enc(&mut transfer, false);
    assert_eq!(transfer, plaintext);

    let mut mac = vec![0u8; 32];
    a.send_mac(&mut mac);
    assert!(b.recv_mac(&mut mac).is_ok());

    let mut out_a = vec![0u8; 32];
    let mut out_b = vec![0u8; 32];
    a.prf(&mut out_a, false);
    b.prf(&mut out_b, false);
    assert_eq!(out_a, out_b);
}

/// The reverse direction works too: the responder may answer over the same
/// pair of instances once the roles are decided.
#[test]
fn test_roles_both_directions() {
    let mut a = Meow::new(b"two way");
    let mut b = Meow::new(b"two way");
    a.key(&[0x10; 32], false);
    b.key(&[0x10; 32], false);

    let mut first = b"from a to b".to_vec();
    a.send_enc(&mut first, false);
    b.recv_enc(&mut first, false);
    assert_eq!(first, b"from a to b".to_vec());

    let mut reply = b"from b back to a".to_vec();
    b.send_enc(&mut reply, false);
    a.recv_enc(&mut reply, false);
    assert_eq!(reply, b"from b back to a".to_vec());

    let mut mac = vec![0u8; 32];
    a.send_mac(&mut mac);
    assert!(b.recv_mac(&mut mac).is_ok());
}

/// `ratchet` equals `ratchet_many` with the default length.
#[test]
fn test_ratchet_default_length() {
    let mut a = Meow::new(b"ratchets");
    let mut b = Meow::new(b"ratchets");
    a.ad(b"shared", false);
    b.ad(b"shared", false);
    a.ratchet();
    b.ratchet_many(ck_meow::RATCHET_LEN, false);
    let mut out_a = vec![0u8; 32];
    let mut out_b = vec![0u8; 32];
    a.prf(&mut out_a, false);
    b.prf(&mut out_b, false);
    assert_eq!(out_a, out_b);
}

/// A full AEAD flow: key, nonce, associated data, encryption and a MAC, with
/// the associated data absorbed mid-transport.
#[test]
fn test_aead_flow() {
    let key = [0xFF; 32];
    let nonce = [0xAA; 32];
    let message = b"hello world!";

    let mut encrypted = message.to_vec();
    let mut meow0 = Meow::new(b"my protocol");
    meow0.key(&key, false);
    meow0.send_clr(&nonce, false);
    meow0.ad(b"hello again!", false);
    meow0.send_enc(&mut encrypted, false);
    let mut mac = vec![0u8; 32];
    meow0.send_mac(&mut mac);

    let mut plaintext = encrypted.clone();
    let mut meow1 = Meow::new(b"my protocol");
    meow1.key(&key, false);
    meow1.recv_clr(&nonce, false);
    meow1.ad(b"hello again!", false);
    meow1.recv_enc(&mut plaintext, false);
    assert!(meow1.recv_mac(&mut mac).is_ok());

    assert_eq!(plaintext, message.to_vec());

    // Different associated data must break the MAC.
    let mut meow2 = Meow::new(b"my protocol");
    let mut mac2 = vec![0u8; 32];
    {
        let mut sender = Meow::new(b"my protocol");
        sender.key(&key, false);
        sender.send_clr(&nonce, false);
        sender.ad(b"hello again!", false);
        sender.send_mac(&mut mac2);
    }
    meow2.key(&key, false);
    meow2.recv_clr(&nonce, false);
    meow2.ad(b"goodbye now!", false);
    assert!(meow2.recv_mac(&mut mac2).is_err());
}

/// Absorbing and squeezing can alternate, as in a Fiat–Shamir transform:
/// each challenge depends on everything absorbed before it.
#[test]
fn test_alternating_absorb_squeeze() {
    let mut one = Meow::new(b"my protocol");
    one.ad(b"some data", false);
    one.ad(b"some more data", false);
    let mut challenge_one = vec![0u8; 32];
    one.prf(&mut challenge_one, false);
    one.ad(b"even more data", false);
    let mut challenge_two = vec![0u8; 32];
    one.prf(&mut challenge_two, false);
    assert_ne!(challenge_one, challenge_two);

    let mut two = Meow::new(b"my protocol");
    two.ad(b"some data", false);
    two.ad(b"some more data", false);
    let mut replay_one = vec![0u8; 32];
    two.prf(&mut replay_one, false);
    two.ad(b"other data here", false);
    let mut replay_two = vec![0u8; 32];
    two.prf(&mut replay_two, false);
    assert_eq!(challenge_one, replay_one);
    assert_ne!(challenge_two, replay_two);
}

/// Wiping erases everything: instances with different secret histories are
/// indistinguishable after `wipe`.
#[test]
fn test_wipe_erases_history() {
    let mut a = Meow::new(b"wipe one");
    a.key(&[0xAB; 32], false);
    a.ad(b"secret data", false);

    let mut b = Meow::new(b"wipe two");
    b.key(&[0xCD; 32], false);

    a.wipe();
    b.wipe();

    let mut out_a = vec![0u8; 32];
    let mut out_b = vec![0u8; 32];
    a.prf(&mut out_a, false);
    b.prf(&mut out_b, false);
    assert_eq!(out_a, out_b);
}
