use constraint_engine::checker::{check, check_synthesized, SatisfiabilityResult};
use constraint_engine::assignment::Assignment;
use constraint_engine::circuit::{synthesize_for_proof, synthesize_for_setup, Circuit};
use constraint_engine::commitment::{le_u64, pack_digest};
use constraint_engine::error::{ProofError, SynthesisError};
use constraint_engine::field::Field;
use constraint_engine::goldilocks::Goldilocks;
use constraint_engine::hash_circuit::{allocate_bytes, DigestVisibility, Sha256Circuit};
use constraint_engine::preimage::{
    allocate_bit_witnesses, assert_bit, build_preimage_statement, prove_sha256,
};
use constraint_engine::scalar::Scalar;
use constraint_engine::sha256::{
    array_to_bits, block_words, first_block, sha256, sha256_block_count, sha256_pad,
};
use constraint_engine::system::{ConstraintSystem, Mode};
use constraint_engine::variable::Variable;

fn hex(bytes: &[u8]) -> String {
    bytes.iter().map(|b| format!("{:02x}", b)).collect()
}

#[test]
fn sha256_of_known_messages() {
    assert_eq!(
        hex(&sha256(b"abc")),
        "ba7816bf8f01cfea414140de5dae2223b00361a396177a9cb410ff61f20015ad"
    );
    assert_eq!(
        hex(&sha256(b"")),
        "e3b0c44298fc1c149afbf4c8996fb92427ae41e4649b934ca495991b7852b855"
    );
    assert_eq!(
        hex(&sha256(b"Hello, World!")),
        "dffd6021bb2bd5b0af676290809ec3a53191dd81c7f70a4b28688a362182986f"
    );
}

#[test]
fn padding_of_a_short_message() {
    let padded = sha256_pad(b"Hello, ZK!");
    assert_eq!(padded.len(), 64);
    assert_eq!(
        hex(&padded),
        "48656c6c6f2c205a4b2180000000000000000000000000000000000000000000\
         0000000000000000000000000000000000000000000000000000000000000050"
    );
}

#[test]
fn padding_fills_whole_blocks() {
    assert_eq!(sha256_pad(b"").len(), 64);
    assert_eq!(sha256_pad(&[b'a'; 55]).len(), 64);
    assert_eq!(sha256_pad(&[b'a'; 56]).len(), 128);
    assert_eq!(sha256_pad(&[b'a'; 64]).len(), 128);
    let padded = sha256_pad(&[b'a'; 56]);
    assert_eq!(padded[56], 0x80);
    assert!(padded[57..120].iter().all(|&b| b == 0));
    assert_eq!(&padded[120..], &[0, 0, 0, 0, 0, 0, 0x01, 0xc0]);
}

#[test]
fn words_are_big_endian() {
    let padded = sha256_pad(b"Hello, ZK!");
    let words = block_words(&padded);
    assert_eq!(words.len(), 16);
    assert_eq!(&words[..3], &[0x48656c6c, 0x6f2c205a, 0x4b218000]);
    assert!(words[3..15].iter().all(|&w| w == 0));
    assert_eq!(words[15], 0x50);
    // A chunk that is cut short is filled up with zeros.
    assert_eq!(block_words(&[0x12, 0x34, 0x56, 0x78, 0x9a]), vec![0x12345678, 0x9a000000]);
    assert_eq!(block_words(&[]), Vec::<u32>::new());
}

#[test]
fn first_block_takes_sixteen_words() {
    let few = vec![7u32, 8, 9];
    let block = first_block(&few);
    assert_eq!(&block[..3], &[7, 8, 9]);
    assert!(block[3..].iter().all(|&w| w == 0));
    let many: Vec<u32> = (100..140).collect();
    let block = first_block(&many);
    assert_eq!(block.to_vec(), (100..116).collect::<Vec<u32>>());
}

#[test]
fn bits_start_at_the_most_significant() {
    let bits = array_to_bits(&[0xa5, 0x01]);
    let expected = [1, 0, 1, 0, 0, 1, 0, 1, 0, 0, 0, 0, 0, 0, 0, 1];
    assert_eq!(bits, expected.iter().map(|&b| b == 1).collect::<Vec<bool>>());
    assert_eq!(array_to_bits(&[]), Vec::<bool>::new());
}

#[test]
fn block_count_of_padded_messages() {
    assert_eq!(sha256_block_count(13), 1);
    assert_eq!(sha256_block_count(55), 1);
    assert_eq!(sha256_block_count(56), 2);
    assert_eq!(sha256_block_count(0), 1);
}

#[test]
fn little_endian_chunks() {
    let bytes = [1u8, 2, 3, 4, 5, 6, 7, 8, 9];
    assert_eq!(le_u64(&bytes, 0, 8), 0x0807060504030201);
    assert_eq!(le_u64(&bytes, 8, 9), 9);
    assert_eq!(le_u64(&bytes, 3, 3), 0);
    assert_eq!(le_u64(&bytes, 1, 3), 0x0302);
}

#[test]
fn packed_digest_has_the_expected_value() {
    let digest = sha256(b"Hello, World!");
    assert_eq!(pack_digest::<Goldilocks>(&digest).to_u64(), 17987250199314007150);
    let packed = pack_digest::<Scalar>(&digest).to_bytes();
    let expected: [u8; 32] = [
        223, 253, 96, 33, 187, 43, 213, 176, 8, 97, 202, 72, 105, 24, 103, 96, 1, 0, 0, 0, 0, 0,
        0, 0, 0, 0, 0, 0, 0, 0, 0, 0,
    ];
    assert_eq!(packed, expected);
    let short: Vec<u8> = (1..12).collect();
    assert_eq!(pack_digest::<Goldilocks>(&short).to_u64(), 581544954266384376);
    assert_eq!(pack_digest::<Goldilocks>(&[]).to_u64(), 0);
}

fn hash_circuit(preimage: &[u8], hash: Vec<u8>, visibility: DigestVisibility) -> Sha256Circuit {
    Sha256Circuit {
        preimage_len: preimage.len(),
        preimage: Some(preimage.to_vec()),
        hash: Some(hash),
        visibility,
    }
}

#[test]
fn hash_circuit_accepts_the_true_digest() {
    let preimage = b"Hello, World!";
    let digest = sha256(preimage).to_vec();
    for visibility in [DigestVisibility::Witness, DigestVisibility::PublicInput] {
        let circuit = hash_circuit(preimage, digest.clone(), visibility);
        let mut cs = ConstraintSystem::<Goldilocks>::new(Mode::Proving);
        assert_eq!(circuit.generate_constraints(&mut cs), Ok(()));
        assert_eq!(cs.num_constraints(), 32);
        match visibility {
            DigestVisibility::Witness => {
                assert_eq!(cs.num_witnesses(), 13 + 32 + 32);
                assert_eq!(cs.num_public_inputs(), 0);
            }
            DigestVisibility::PublicInput => {
                assert_eq!(cs.num_witnesses(), 13 + 32);
                assert_eq!(cs.num_public_inputs(), 32);
                let public: Vec<u64> =
                    cs.assignment().public_inputs.iter().map(|b| b.to_u64()).collect();
                assert_eq!(public, digest.iter().map(|&b| b as u64).collect::<Vec<u64>>());
            }
        }
        assert_eq!(cs.assignment().witnesses[0].to_u64(), b'H' as u64);
        assert_eq!(check_synthesized(&cs), SatisfiabilityResult::Satisfied);
    }
}

#[test]
fn hash_circuit_rejects_a_wrong_digest_at_the_wrong_byte() {
    let preimage = b"Hello, World!";
    let digest = sha256(preimage).to_vec();
    for k in [0usize, 7, 31] {
        let mut claimed = digest.clone();
        claimed[k] = claimed[k].wrapping_add(1);
        let circuit = hash_circuit(preimage, claimed, DigestVisibility::PublicInput);
        let mut cs = ConstraintSystem::<Scalar>::new(Mode::Proving);
        assert_eq!(circuit.generate_constraints(&mut cs), Ok(()));
        assert_eq!(check_synthesized(&cs), SatisfiabilityResult::Violated(k));
        assert!(matches!(
            synthesize_for_proof::<Scalar, Sha256Circuit>(&circuit),
            Err(ProofError::ConstraintUnsatisfied(i)) if i == k
        ));
    }
}

#[test]
fn hash_circuit_with_a_given_digest() {
    // The digest that the constraints compare against is the one handed in.
    let circuit = hash_circuit(b"xy", vec![3u8; 32], DigestVisibility::Witness);
    let mut cs = ConstraintSystem::<Goldilocks>::new(Mode::Proving);
    assert_eq!(circuit.synthesize_with_digest(&mut cs, &[3u8; 32]), Ok(()));
    assert_eq!(check_synthesized(&cs), SatisfiabilityResult::Satisfied);
    let mut other = [3u8; 32];
    other[20] = 4;
    let mut cs = ConstraintSystem::<Goldilocks>::new(Mode::Proving);
    assert_eq!(circuit.synthesize_with_digest(&mut cs, &other), Ok(()));
    assert_eq!(check_synthesized(&cs), SatisfiabilityResult::Violated(20));
}

#[test]
fn hash_circuit_without_input() {
    let blank = Sha256Circuit {
        preimage_len: 13,
        preimage: None,
        hash: None,
        visibility: DigestVisibility::Witness,
    };
    assert!(!blank.check_input());
    let mut cs = ConstraintSystem::<Goldilocks>::new(Mode::Proving);
    assert_eq!(blank.generate_constraints(&mut cs), Err(SynthesisError::AssignmentMissing));
    assert_eq!(cs.num_witnesses(), 0);
    assert!(matches!(
        synthesize_for_proof::<Goldilocks, Sha256Circuit>(&blank),
        Err(ProofError::AssignmentMissing)
    ));
    // A preimage of the wrong length is no input either.
    let wrong = Sha256Circuit {
        preimage_len: 13,
        preimage: Some(vec![1, 2, 3]),
        hash: Some(vec![0; 32]),
        visibility: DigestVisibility::Witness,
    };
    assert!(!wrong.check_input());
    let mut cs = ConstraintSystem::<Goldilocks>::new(Mode::Proving);
    assert_eq!(wrong.generate_constraints(&mut cs), Err(SynthesisError::AssignmentMissing));
    // Setup needs no input and has the shape of the proving run.
    let setup = synthesize_for_setup::<Goldilocks, Sha256Circuit>(&blank);
    let full = hash_circuit(b"Hello, World!", sha256(b"Hello, World!").to_vec(),
        DigestVisibility::Witness);
    let proving = synthesize_for_proof::<Goldilocks, Sha256Circuit>(&full).unwrap();
    assert_eq!(setup.num_witnesses(), proving.num_witnesses());
    assert_eq!(setup.num_public_inputs(), proving.num_public_inputs());
    assert_eq!(setup.num_constraints(), proving.num_constraints());
    assert!(<Sha256Circuit as Circuit<Goldilocks>>::synthesize(&blank,
        &mut ConstraintSystem::new(Mode::Setup)).is_ok());
}

#[test]
fn allocate_bytes_records_the_bytes() {
    let mut cs = ConstraintSystem::<Goldilocks>::new(Mode::Proving);
    let vars = allocate_bytes(&mut cs, DigestVisibility::PublicInput, 3, &[9, 8, 255]);
    assert_eq!(vars, (0..3).map(Variable::public_input).collect::<Vec<_>>());
    let values: Vec<u64> = cs.assignment().public_inputs.iter().map(|b| b.to_u64()).collect();
    assert_eq!(values, vec![9, 8, 255]);
    let more = allocate_bytes(&mut cs, DigestVisibility::Witness, 2, &[1, 2]);
    assert_eq!(more, vec![Variable::witness(0), Variable::witness(1)]);
}

#[test]
fn prove_sha256_of_a_message() {
    let msg = b"I love zk-sok";
    let cs = prove_sha256::<Goldilocks>(msg).unwrap();
    assert_eq!(cs.num_witnesses(), 8 * msg.len() + 256);
    assert_eq!(cs.num_public_inputs(), 0);
    assert_eq!(cs.num_constraints(), 8 * msg.len() + 256);
    assert_eq!(check_synthesized(&cs), SatisfiabilityResult::Satisfied);
    // The first message bits are those of 'I' = 0x49.
    let first: Vec<u64> = cs.assignment().witnesses[..8].iter().map(|b| b.to_u64()).collect();
    assert_eq!(first, vec![0, 1, 0, 0, 1, 0, 0, 1]);
    // The digest bits follow: dfbd... = 1101 1111 ...
    let at = 8 * msg.len();
    let digest: Vec<u64> =
        cs.assignment().witnesses[at..at + 8].iter().map(|b| b.to_u64()).collect();
    assert_eq!(digest, vec![1, 1, 0, 1, 1, 1, 1, 1]);
}

#[test]
fn preimage_statement_rejects_another_digest() {
    let msg = b"I love zk-sok";
    let digest = sha256(msg);
    let mut expected = digest;
    expected[2] ^= 0b0001_0000; // bit 3 of byte 2, counted from the most significant
    let cs = build_preimage_statement::<Goldilocks>(msg, &digest, &expected);
    assert_eq!(
        check_synthesized(&cs),
        SatisfiabilityResult::Violated(8 * msg.len() + 16 + 3)
    );
    // A message bit that is no bit fails its boolean constraint.
    let cs = build_preimage_statement::<Goldilocks>(msg, &digest, &digest);
    let mut witnesses = cs.assignment().witnesses.clone();
    witnesses[10] = Goldilocks::new(5);
    let asg = Assignment { public_inputs: vec![], witnesses };
    assert_eq!(check(&cs, &asg), SatisfiabilityResult::Violated(10));
}

#[test]
fn assert_bit_pins_a_variable() {
    let mut cs = ConstraintSystem::<Goldilocks>::new(Mode::Proving);
    let vars = allocate_bit_witnesses(&mut cs, &vec![true, false]);
    assert_eq!(vars, vec![Variable::witness(0), Variable::witness(1)]);
    assert_bit(&mut cs, vars[0], true).unwrap();
    assert_bit(&mut cs, vars[1], false).unwrap();
    assert_eq!(check_synthesized(&cs), SatisfiabilityResult::Satisfied);
    assert_bit(&mut cs, vars[1], true).unwrap();
    assert_eq!(check_synthesized(&cs), SatisfiabilityResult::Violated(2));
    assert_eq!(
        assert_bit(&mut cs, Variable::witness(2), true),
        Err(SynthesisError::MalformedConstraint)
    );
}
