use proof_link::merkle_zeros::{generate_solidity_contract, leaf_zero_digest, MERKLE_HEIGHT};

fn decimal_values() -> Vec<Vec<u8>> {
    (0..=MERKLE_HEIGHT).map(|h| format!("{}", 1000 + h).into_bytes()).collect()
}

#[test]
fn leaf_digest_is_keccak_of_preimage() {
    let expected: [u8; 32] = [
        104, 173, 183, 174, 195, 106, 53, 150, 83, 230, 94, 26, 92, 107, 103, 219, 193, 117, 255,
        93, 91, 24, 7, 106, 237, 81, 38, 164, 255, 231, 53, 252,
    ];
    assert_eq!(leaf_zero_digest(), expected);
}

#[test]
fn contract_has_header_and_footer() {
    let text = String::from_utf8(generate_solidity_contract(&decimal_values())).unwrap();
    assert!(text.starts_with(
        "// SPDX-License-Identifier: MIT\npragma solidity ^0.8.0;\n\nlibrary MerkleZeros {\n\t// LEAF_ZERO_VALUE is the keccak256 hash of the string \"renegade\"\n\n"
    ));
    assert!(text.ends_with("\t\t\tcase 31 { result := ZERO_VALUE_31 }\n\t\t}\n\t}\n}\n"));
}

#[test]
fn contract_lists_values_from_the_top() {
    let text = String::from_utf8(generate_solidity_contract(&decimal_values())).unwrap();
    assert!(text.contains("\tuint256 constant public ZERO_VALUE_0 = 1031;\n"));
    assert!(text.contains("\tuint256 constant public ZERO_VALUE_31 = 1000;\n"));
    assert!(text.contains("\tuint256 constant public ZERO_VALUE_ROOT = 1032;\n"));
    assert!(text.contains("\t\t\tcase 0 { result := ZERO_VALUE_0 }\n"));
    assert!(text.contains("\t\trequire(height <= 31, \"MerkleZeros: height must be <= 31\");\n\n"));
    assert_eq!(text.matches("uint256 constant public").count(), MERKLE_HEIGHT + 1);
    assert_eq!(text.matches("\t\t\tcase ").count(), MERKLE_HEIGHT);
}
