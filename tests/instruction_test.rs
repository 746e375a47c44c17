use zerosol::error::ZerosolError;
use zerosol::instruction::ZerosolInstruction;

fn vec32(items: &[[u8; 32]]) -> Vec<u8> {
    let mut out = (items.len() as u32).to_le_bytes().to_vec();
    for i in items {
        out.extend_from_slice(i);
    }
    out
}

#[test]
fn decodes_initialize() {
    let mut data = vec![0u8];
    data.extend_from_slice(&3600u64.to_le_bytes());
    data.extend_from_slice(&1u64.to_le_bytes());
    match ZerosolInstruction::try_from_slice(&data).unwrap() {
        ZerosolInstruction::Initialize { epoch_length, fee } => {
            assert_eq!(epoch_length, 3600);
            assert_eq!(fee, 1);
        }
        other => panic!("unexpected {:?}", other),
    }
}

#[test]
fn decodes_register_fund_rollover() {
    let mut data = vec![1u8];
    data.extend_from_slice(&[1u8; 32]);
    data.extend_from_slice(&[2u8; 32]);
    data.extend_from_slice(&[3u8; 32]);
    match ZerosolInstruction::try_from_slice(&data).unwrap() {
        ZerosolInstruction::Register { public_key, challenge, response } => {
            assert_eq!(public_key, [1u8; 32]);
            assert_eq!(challenge, [2u8; 32]);
            assert_eq!(response, [3u8; 32]);
        }
        other => panic!("unexpected {:?}", other),
    }
    let mut fund = vec![2u8];
    fund.extend_from_slice(&(1u64 << 32).to_le_bytes());
    assert!(matches!(
        ZerosolInstruction::try_from_slice(&fund).unwrap(),
        ZerosolInstruction::Fund { amount } if amount == 1u64 << 32
    ));
    assert!(matches!(ZerosolInstruction::try_from_slice(&[5u8]).unwrap(), ZerosolInstruction::RollOver));
}

#[test]
fn decodes_burn_and_transfer() {
    let ipp = {
        let mut v = vec32(&[[4u8; 32], [5u8; 32]]);
        v.extend_from_slice(&vec32(&[[6u8; 32], [7u8; 32]]));
        v.extend_from_slice(&[8u8; 32]);
        v.extend_from_slice(&[9u8; 32]);
        v
    };
    let mut burn = vec![4u8];
    burn.extend_from_slice(&40u64.to_le_bytes());
    burn.extend_from_slice(&[11u8; 32]);
    for k in 0..12u8 {
        burn.extend_from_slice(&[20 + k; 32]);
    }
    burn.extend_from_slice(&ipp);
    match ZerosolInstruction::try_from_slice(&burn).unwrap() {
        ZerosolInstruction::Burn { amount, nonce, proof } => {
            assert_eq!(amount, 40);
            assert_eq!(nonce, [11u8; 32]);
            assert_eq!(proof.ba, [20u8; 32]);
            assert_eq!(proof.commitment, [27u8; 32]);
            assert_eq!(proof.s_tau, [31u8; 32]);
            assert_eq!(proof.ip_proof.l_points, vec![[4u8; 32], [5u8; 32]]);
            assert_eq!(proof.ip_proof.b, [9u8; 32]);
        }
        other => panic!("unexpected {:?}", other),
    }
    let mut transfer = vec![3u8];
    transfer.extend_from_slice(&vec32(&[[1u8; 32], [2u8; 32]]));
    transfer.extend_from_slice(&[3u8; 32]);
    transfer.extend_from_slice(&vec32(&[[4u8; 32], [5u8; 32]]));
    transfer.extend_from_slice(&[6u8; 32]);
    transfer.extend_from_slice(&[7u8; 32]);
    for k in 0..4u8 {
        transfer.extend_from_slice(&[40 + k; 32]);
    }
    for _ in 0..9 {
        transfer.extend_from_slice(&vec32(&[]));
    }
    for k in 0..8u8 {
        transfer.extend_from_slice(&[50 + k; 32]);
    }
    transfer.extend_from_slice(&ipp);
    match ZerosolInstruction::try_from_slice(&transfer).unwrap() {
        ZerosolInstruction::Transfer { commitments_c, commitment_d, public_keys, nonce, beneficiary, proof } => {
            assert_eq!(commitments_c, vec![[1u8; 32], [2u8; 32]]);
            assert_eq!(commitment_d, [3u8; 32]);
            assert_eq!(public_keys, vec![[4u8; 32], [5u8; 32]]);
            assert_eq!(nonce, [6u8; 32]);
            assert_eq!(beneficiary, [7u8; 32]);
            assert_eq!(proof.b, [43u8; 32]);
            assert_eq!(proof.z_a, [50u8; 32]);
            assert_eq!(proof.tau_x, [54u8; 32]);
            assert_eq!(proof.s_r, [57u8; 32]);
            assert_eq!(proof.ip_proof.r_points, vec![[6u8; 32], [7u8; 32]]);
        }
        other => panic!("unexpected {:?}", other),
    }
}

#[test]
fn rejects_malformed_instructions() {
    let bad = |d: &[u8]| ZerosolInstruction::try_from_slice(d).unwrap_err();
    assert_eq!(bad(&[]), ZerosolError::InvalidInstruction);
    assert_eq!(bad(&[6u8]), ZerosolError::InvalidInstruction);
    assert_eq!(bad(&[5u8, 0]), ZerosolError::InvalidInstruction);
    assert_eq!(bad(&[2u8, 1, 2, 3]), ZerosolError::InvalidInstruction);
    // a vector that claims more items than there are bytes
    let mut t = vec![3u8];
    t.extend_from_slice(&1000u32.to_le_bytes());
    t.extend_from_slice(&[0u8; 64]);
    assert_eq!(bad(&t), ZerosolError::InvalidInstruction);
}
