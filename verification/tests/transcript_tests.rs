//! Paired-transcript tests: two parties run the same command sequence and
//! must agree on everything; different sequences must derive different
//! output.

use ck_meow::Meow;

/// One command of a two-party transcript. `swap` says which party sends.
enum Command {
    Ad(Vec<u8>),
    Clr(bool, Vec<u8>),
    Enc(bool, Vec<u8>),
    Prf(usize),
    Mac(usize),
    Ratchet,
}

/// Run a transcript on a pair of instances, asserting that the parties stay
/// consistent, and return all PRF output derived along the way.
fn run_and_assert_commands(protocol: &[u8], commands: &[Command]) -> Vec<u8> {
    let mut prf_out = Vec::new();

    let mut meow0 = Meow::new(protocol);
    let mut meow1 = Meow::new(protocol);

    for command in commands {
        match command {
            Command::Ad(data) => {
                meow0.ad(data, false);
                meow1.ad(data, false);
            }
            Command::Clr(swap, plaintext) => {
                if *swap {
                    meow0.send_clr(plaintext, false);
                    meow1.recv_clr(plaintext, false);
                } else {
                    meow1.send_clr(plaintext, false);
                    meow0.recv_clr(plaintext, false);
                }
            }
            Command::Enc(swap, plaintext) => {
                let mut ciphertext = plaintext.clone();
                if *swap {
                    meow0.send_enc(&mut ciphertext, false);
                    meow1.recv_enc(&mut ciphertext, false);
                } else {
                    meow1.send_enc(&mut ciphertext, false);
                    meow0.recv_enc(&mut ciphertext, false);
                }
                assert_eq!(&ciphertext, plaintext);
            }
            Command::Prf(len) => {
                let mut scratch0 = vec![0u8; *len];
                let mut scratch1 = vec![0u8; *len];
                meow0.prf(&mut scratch0, false);
                meow1.prf(&mut scratch1, false);
                assert_eq!(scratch0, scratch1);
                prf_out.extend_from_slice(&scratch0);
            }
            Command::Mac(len) => {
                let mut scratch = vec![0u8; *len];
                meow0.send_mac(&mut scratch);
                assert!(meow1.recv_mac(&mut scratch).is_ok());
            }
            Command::Ratchet => {
                meow0.ratchet();
                meow1.ratchet();
            }
        }
    }

    prf_out
}

fn sample_commands() -> Vec<Command> {
    vec![
        Command::Ad(b"associated".to_vec()),
        Command::Clr(true, vec![0xBB; 40]),
        Command::Enc(true, vec![0x5A; 170]),
        Command::Prf(32),
        Command::Enc(false, b"a reply".to_vec()),
        Command::Mac(32),
        Command::Ratchet,
        Command::Prf(32),
    ]
}

/// Equal command sequences derive equal output.
#[test]
fn test_equal_transcripts_agree() {
    let out0 = run_and_assert_commands(b"paired", &sample_commands());
    let out1 = run_and_assert_commands(b"paired", &sample_commands());
    assert_eq!(out0, out1);
}

/// Command sequences that differ anywhere derive different output.
#[test]
fn test_diverging_transcripts_disagree() {
    let base = run_and_assert_commands(b"paired", &sample_commands());

    let mut other_ad = sample_commands();
    other_ad[0] = Command::Ad(b"associatee".to_vec());
    assert_ne!(base, run_and_assert_commands(b"paired", &other_ad));

    let mut other_payload = sample_commands();
    other_payload[2] = Command::Enc(true, vec![0x5B; 170]);
    assert_ne!(base, run_and_assert_commands(b"paired", &other_payload));

    let mut other_direction = sample_commands();
    other_direction[1] = Command::Clr(false, vec![0xBB; 40]);
    assert_ne!(base, run_and_assert_commands(b"paired", &other_direction));

    assert_ne!(base, run_and_assert_commands(b"a different label", &sample_commands()));
}
