use genetics::error::DecodeError;
use genetics::error::GeneError;
use genetics::Gene;
use rand::thread_rng;
use rand::Rng;
use rand_distr::StandardNormal;

fn sample_bits() -> u32 {
    let v: f32 = thread_rng().sample(StandardNormal);
    v.to_bits()
}

fn sample_gene(num_markers: u16) -> Gene {
    let values: Vec<u32> = (0..num_markers as usize + 1).map(|_| sample_bits()).collect();
    Gene::new(num_markers, values).unwrap()
}

#[test]
fn mod_can_be_converted_and_back() {
    let gene = sample_gene(2);
    let original_influence = gene.get_influence();
    let string_value: String = gene.to_string();
    let restored_gene: Gene = Gene::decode(&string_value).unwrap();
    let restored_influence = restored_gene.get_influence();
    let restored_string_value: String = restored_gene.to_string();
    assert_eq!(restored_string_value, string_value);
    assert_eq!(original_influence, restored_influence);
}

#[test]
fn marker_size_match() {
    let gene = sample_gene(2);
    let markers = gene.get_markers();
    assert_eq!(gene.num_markers, markers.len() as u16);
}

#[test]
fn markers_should_include_influence() {
    let gene = sample_gene(2);
    assert_eq!(gene.markers.len(), 3);
}

#[test]
fn get_marker_correctly() {
    let gene = sample_gene(2);
    assert_eq!(gene.get_marker(0).unwrap(), gene.markers[1].bits);
}

#[test]
fn get_marker_return_none() {
    let gene = sample_gene(2);
    match gene.get_marker(3) {
        Some(_) => assert!(false),
        None => assert!(true),
    }
}

#[test]
fn should_return_true_on_equal() {
    let gene = sample_gene(2);
    let string_value: String = gene.to_string();
    let original_gene: Gene = Gene::decode(&string_value).unwrap();
    let restored_gene: Gene = Gene::decode(&string_value).unwrap();

    assert!(Gene::is_equal(original_gene, restored_gene));
}

#[test]
fn construction_rejects_zero_markers() {
    let r = Gene::new(0, vec![sample_bits()]);
    assert_eq!(r.err(), Some(GeneError::ZeroMarkerCount));
}

#[test]
fn decoded_gene_counts_every_chunk() {
    let gene = sample_gene(2);
    let text = gene.to_string();
    assert_eq!(text.len(), 24);
    let decoded = Gene::decode(&text).unwrap();
    assert_eq!(decoded.num_markers, 3);
    assert_eq!(decoded.markers.len(), 3);
    assert_eq!(decoded.to_string(), text);
}

#[test]
fn gene_text_has_exact_form() {
    let gene = Gene::new(1, vec![0x3f800000, 0x40000000]).unwrap();
    assert_eq!(gene.to_string(), "3f80000040000000");
}

#[test]
fn empty_text_decodes_to_empty_gene() {
    let gene = Gene::decode("").unwrap();
    assert_eq!(gene.num_markers, 0);
    assert_eq!(gene.markers.len(), 0);
}

#[test]
fn gene_decode_rejects_odd_length() {
    assert_eq!(Gene::decode("3f800").err(), Some(DecodeError::InvalidHexLength));
}

#[test]
fn gene_decode_rejects_partial_chunk() {
    assert_eq!(
        Gene::decode("3f8000003f80").err(),
        Some(DecodeError::UnexpectedByteCount)
    );
}

#[test]
fn gene_decode_rejects_bad_digit() {
    assert_eq!(
        Gene::decode("3f800000zf800000").err(),
        Some(DecodeError::InvalidHexDigit)
    );
}

#[test]
fn equality_ignores_influence() {
    let left = Gene::decode("000000003f80000040000000").unwrap();
    let right = Gene::decode("3f8000003f80000040000000").unwrap();
    assert!(Gene::is_equal(left, right));
}

#[test]
fn equality_sees_one_differing_marker() {
    let left = Gene::decode("000000003f80000040000000").unwrap();
    let right = Gene::decode("000000003f800000c0000000").unwrap();
    assert!(!Gene::is_equal(left, right));
}

#[test]
fn equality_fails_on_length_mismatch() {
    let left = Gene::decode("000000003f800000").unwrap();
    let right = Gene::decode("000000003f80000040000000").unwrap();
    assert!(!Gene::is_equal(left, right));
}

#[test]
fn equality_treats_zeros_as_equal_values() {
    let left = Gene::decode("0000000080000000").unwrap();
    let right = Gene::decode("0000000000000000").unwrap();
    assert!(Gene::is_equal(left, right));
}

#[test]
fn nan_marker_never_equal() {
    let text = "000000007fc000003f800000";
    let left = Gene::decode(text).unwrap();
    let right = Gene::decode(text).unwrap();
    assert!(!Gene::is_equal(left, right));
}
