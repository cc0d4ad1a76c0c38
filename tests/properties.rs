use snark_proof::{
    create_dummy_proof, decode_integer, parse_fq_element, parse_fr_element, Fq, Fq2, Fr, G1Point,
    G2Point, ProofParseError, SnarkJSProof,
};

fn strings(items: &[&str]) -> Vec<String> {
    items.iter().map(|s| s.to_string()).collect()
}

fn proof_of(a: &[&str], b0: &[&str], b1: &[&str], c: &[&str], signals: &[&str]) -> SnarkJSProof {
    SnarkJSProof {
        pi_a: strings(a),
        pi_b: vec![strings(b0), strings(b1)],
        pi_c: strings(c),
        public_signals: strings(signals),
    }
}

const FQ_MODULUS: &str =
    "21888242871839275222246405745257275088696311157297823662689037894645226208583";
const FQ_MODULUS_PLUS_ONE: &str =
    "21888242871839275222246405745257275088696311157297823662689037894645226208584";
const FR_MODULUS: &str =
    "21888242871839275222246405745257275088548364400416034343698204186575808495617";

#[test]
fn decimal_and_hex_decode_to_the_same_integer() {
    assert_eq!(decode_integer("208").unwrap(), vec![0xD0]);
    assert_eq!(decode_integer("0xD0").unwrap(), vec![0xD0]);
    assert_eq!(decode_integer("0xd0").unwrap(), vec![0xD0]);
    assert_eq!(decode_integer("65535").unwrap(), vec![0xFF, 0xFF]);
    assert_eq!(decode_integer("0xFFff").unwrap(), vec![0xFF, 0xFF]);
    assert_eq!(parse_fq_element("65535").unwrap(), parse_fq_element("0xffff").unwrap());
}

#[test]
fn decimal_decoding_gives_big_endian_bytes() {
    assert_eq!(decode_integer("1125").unwrap(), vec![4, 101]);
    assert_eq!(decode_integer("256").unwrap(), vec![1, 0]);
    assert_eq!(parse_fq_element("256").unwrap(), Fq::from_u64(256));
    assert_eq!(parse_fr_element("1125").unwrap(), Fr::from_u64(1125));
}

#[test]
fn hex_decoding_reads_pairs_high_digit_first() {
    assert_eq!(decode_integer("0x0102").unwrap(), vec![1, 2]);
    assert_eq!(parse_fq_element("0x0102").unwrap(), Fq::from_u64(258));
    assert_eq!(parse_fq_element("0X1F").unwrap(), Fq::from_u64(31));
}

#[test]
fn empty_hex_after_prefix_is_zero() {
    assert!(parse_fq_element("0x").unwrap().is_zero());
}

#[test]
fn public_input_208_and_0xd0_agree() {
    let dec = parse_fr_element("208").unwrap();
    let hex = parse_fr_element("0xD0").unwrap();
    assert_eq!(dec, hex);
    assert_eq!(dec, Fr::from_u64(208));
}

#[test]
fn one_pair_of_quotes_is_removed() {
    assert_eq!(parse_fr_element("\"208\"").unwrap(), Fr::from_u64(208));
    assert_eq!(parse_fq_element("\"0xD0\"").unwrap(), Fq::from_u64(208));
}

#[test]
fn bad_strings_are_reported_trimmed() {
    assert_eq!(
        parse_fq_element("12a").unwrap_err(),
        ProofParseError::InvalidFieldElement("12a".to_string())
    );
    assert_eq!(
        parse_fq_element("\"abc\"").unwrap_err(),
        ProofParseError::InvalidFieldElement("abc".to_string())
    );
    assert_eq!(
        parse_fr_element("").unwrap_err(),
        ProofParseError::InvalidFieldElement(String::new())
    );
    assert_eq!(
        parse_fr_element("0x5").unwrap_err(),
        ProofParseError::InvalidFieldElement("0x5".to_string())
    );
    assert_eq!(
        parse_fr_element("0xZZ").unwrap_err(),
        ProofParseError::InvalidFieldElement("0xZZ".to_string())
    );
    assert_eq!(
        parse_fr_element("+5").unwrap_err(),
        ProofParseError::InvalidFieldElement("+5".to_string())
    );
    assert_eq!(
        parse_fr_element(" 5").unwrap_err(),
        ProofParseError::InvalidFieldElement(" 5".to_string())
    );
    assert_eq!(
        parse_fr_element("5é").unwrap_err(),
        ProofParseError::InvalidFieldElement("5é".to_string())
    );
}

#[test]
fn values_reduce_modulo_the_field() {
    assert!(parse_fq_element(FQ_MODULUS).unwrap().is_zero());
    assert_eq!(parse_fq_element(FQ_MODULUS_PLUS_ONE).unwrap(), Fq::from_u64(1));
    assert!(parse_fr_element(FR_MODULUS).unwrap().is_zero());
    // The base-field modulus lies above the scalar-field modulus.
    assert!(!parse_fr_element(FQ_MODULUS).unwrap().is_zero());
}

#[test]
fn dummy_proof_parses_to_its_literal_coordinates() {
    let parsed = create_dummy_proof().to_arkworks_proof().unwrap();
    assert_eq!(parsed.pi_a, G1Point::Affine { x: Fq::from_u64(1), y: Fq::from_u64(2) });
    assert_eq!(
        parsed.pi_b,
        G2Point::Affine {
            x: Fq2::new(Fq::from_u64(1), Fq::from_u64(0)),
            y: Fq2::new(Fq::from_u64(2), Fq::from_u64(0)),
        }
    );
    assert_eq!(parsed.pi_c, G1Point::Affine { x: Fq::from_u64(3), y: Fq::from_u64(4) });
    assert_eq!(parsed.public_inputs, vec![Fr::from_u64(208)]);
    assert!(!parsed.pi_a.is_zero());
    assert!(!parsed.pi_b.is_zero());
    assert!(!parsed.pi_c.is_zero());
}

#[test]
fn all_zero_coordinates_give_identities() {
    let p = proof_of(&["0", "0"], &["0", "0"], &["0", "0"], &["0", "0"], &["7"]);
    let parsed = p.to_arkworks_proof().unwrap();
    assert_eq!(parsed.pi_a, G1Point::Identity);
    assert_eq!(parsed.pi_b, G2Point::Identity);
    assert_eq!(parsed.pi_c, G1Point::Identity);
    assert_eq!(parsed.public_inputs, vec![Fr::from_u64(7)]);
}

#[test]
fn zero_pi_a_is_the_identity_whatever_the_curve() {
    let p = proof_of(&["0", "0"], &["1", "0"], &["2", "0"], &["3", "4"], &["208"]);
    let parsed = p.to_arkworks_proof().unwrap();
    assert_eq!(parsed.pi_a, G1Point::Identity);
    assert!(parsed.pi_a.is_zero());
    assert_eq!(parsed.pi_c, G1Point::Affine { x: Fq::from_u64(3), y: Fq::from_u64(4) });
}

#[test]
fn zero_x_alone_is_not_the_identity() {
    let p = proof_of(&["0", "5"], &["0", "0"], &["0", "1"], &["0", "0"], &[]);
    let parsed = p.to_arkworks_proof().unwrap();
    assert_eq!(parsed.pi_a, G1Point::Affine { x: Fq::from_u64(0), y: Fq::from_u64(5) });
    assert!(!parsed.pi_b.is_zero());
    assert!(parsed.pi_c.is_zero());
    assert!(parsed.public_inputs.is_empty());
}

#[test]
fn pi_a_of_wrong_length_is_reported_first() {
    let one = SnarkJSProof {
        pi_a: strings(&["1"]),
        pi_b: vec![],
        pi_c: vec![],
        public_signals: strings(&["bad"]),
    };
    assert_eq!(
        one.to_arkworks_proof().unwrap_err(),
        ProofParseError::InvalidPiALength { expected: 2, got: 1 }
    );
    let three = proof_of(&["1", "2", "3"], &["x"], &["y"], &["z"], &[]);
    assert_eq!(
        three.to_arkworks_proof().unwrap_err(),
        ProofParseError::InvalidPiALength { expected: 2, got: 3 }
    );
}

#[test]
fn pi_b_and_pi_c_lengths_are_checked_in_order() {
    let mut p = create_dummy_proof();
    p.pi_b.push(strings(&["1", "2"]));
    p.pi_c.push("5".to_string());
    assert_eq!(
        p.to_arkworks_proof().unwrap_err(),
        ProofParseError::InvalidPiBLength { expected: 2, got: 3 }
    );
    let mut q = create_dummy_proof();
    q.pi_c.clear();
    q.pi_a[0] = "bad".to_string();
    assert_eq!(
        q.to_arkworks_proof().unwrap_err(),
        ProofParseError::InvalidPiCLength { expected: 2, got: 0 }
    );
}

#[test]
fn short_pi_b_row_is_a_format_error() {
    let p = proof_of(&["1", "2"], &["1"], &["2", "0"], &["3", "4"], &["208"]);
    assert!(matches!(
        p.to_arkworks_proof().unwrap_err(),
        ProofParseError::InvalidG2Format(_)
    ));
}

#[test]
fn first_bad_element_wins() {
    let p = proof_of(&["1", "2"], &["1", "b1"], &["b2", "0"], &["c", "4"], &["s"]);
    assert_eq!(
        p.to_arkworks_proof().unwrap_err(),
        ProofParseError::InvalidFieldElement("b1".to_string())
    );
    let q = proof_of(&["1", "2"], &["1", "0"], &["2", "0"], &["3", "4"], &["1", "two", "x"]);
    assert_eq!(
        q.to_arkworks_proof().unwrap_err(),
        ProofParseError::InvalidFieldElement("two".to_string())
    );
}

#[test]
fn public_inputs_keep_their_order() {
    let p = proof_of(&["1", "2"], &["1", "0"], &["2", "0"], &["3", "4"], &["3", "0x01", "\"2\""]);
    let parsed = p.to_arkworks_proof().unwrap();
    assert_eq!(
        parsed.public_inputs,
        vec![Fr::from_u64(3), Fr::from_u64(1), Fr::from_u64(2)]
    );
}
