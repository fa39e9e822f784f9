use seqlib::ChemClass::{Ambiguous, Purine, Pyrimidine};
use seqlib::{Alphabet, BioSeq, SmallMutation, SmallMutationType, TiTv};

fn variant(reference: &str, alternative: &str) -> SmallMutation {
    SmallMutation::new(
        "chr1".to_string(),
        100,
        BioSeq::new(reference, Alphabet::DNA).unwrap(),
        BioSeq::new(alternative, Alphabet::DNA).unwrap(),
        false,
        None,
    )
}

#[test]
fn insertion() {
    let m = variant("A", "AG");
    assert_eq!(m.class(), SmallMutationType::INSERTION);
    assert_eq!(m.delta(), 1);
    assert_eq!(m.titv(), None);
}

#[test]
fn deletion() {
    let m = variant("AG", "A");
    assert_eq!(m.class(), SmallMutationType::DELETION);
    assert_eq!(m.delta(), -1);
}

#[test]
fn snv_transition() {
    let m = variant("A", "G");
    assert_eq!(m.class(), SmallMutationType::SNV);
    assert_eq!(m.delta(), 0);
    assert_eq!(m.titv(), Some(TiTv::Transition));
}

#[test]
fn snv_transversion() {
    let m = variant("A", "C");
    assert_eq!(m.class(), SmallMutationType::SNV);
    assert_eq!(m.titv(), Some(TiTv::Transversion));
}

#[test]
fn doublet() {
    let m = variant("AG", "CT");
    assert_eq!(m.class(), SmallMutationType::DOUBLET);
    assert_eq!(m.titv(), None);
}

#[test]
fn ambiguous_snv() {
    let m = variant("A", "N");
    assert_eq!(m.class(), SmallMutationType::SNV);
    assert_eq!(m.titv(), None);
}

#[test]
fn class_by_lengths() {
    assert_eq!(SmallMutationType::from_lengths(0, 0), SmallMutationType::MNV);
    assert_eq!(SmallMutationType::from_lengths(1, 1), SmallMutationType::SNV);
    assert_eq!(SmallMutationType::from_lengths(2, 2), SmallMutationType::DOUBLET);
    assert_eq!(SmallMutationType::from_lengths(3, 3), SmallMutationType::MNV);
    assert_eq!(SmallMutationType::from_lengths(2, 5), SmallMutationType::INSERTION);
    assert_eq!(SmallMutationType::from_lengths(5, 0), SmallMutationType::DELETION);
    assert_eq!(variant("ACG", "TTA").class(), SmallMutationType::MNV);
    assert_eq!(variant("", "").class(), SmallMutationType::MNV);
}

#[test]
fn titv_from_classes() {
    assert_eq!(TiTv::from_chemical_class(Purine, Purine), Some(TiTv::Transition));
    assert_eq!(TiTv::from_chemical_class(Pyrimidine, Pyrimidine), Some(TiTv::Transition));
    assert_eq!(TiTv::from_chemical_class(Purine, Pyrimidine), Some(TiTv::Transversion));
    assert_eq!(TiTv::from_chemical_class(Pyrimidine, Purine), Some(TiTv::Transversion));
    assert_eq!(TiTv::from_chemical_class(Ambiguous, Purine), None);
    assert_eq!(TiTv::from_chemical_class(Pyrimidine, Ambiguous), None);
}

#[test]
fn names() {
    assert_eq!(SmallMutationType::DOUBLET.as_str(), "DOUBLET");
    assert_eq!(SmallMutationType::INSERTION.as_str(), "INSERTION");
    assert_eq!(TiTv::Transversion.as_str(), "Transversion");
}

#[test]
fn fields_and_context() {
    let mut m = variant("ac", "g");
    assert_eq!(m.chromosome(), "chr1");
    assert_eq!(m.position(), 100);
    assert_eq!(m.reference().to_string_upper(), "AC");
    assert_eq!(m.alternative().to_string_upper(), "G");
    assert!(!m.multiallelic());
    assert!(m.context().is_none());
    assert_eq!(m.reflen(), 2);
    assert_eq!(m.altlen(), 1);
    m.add_context(BioSeq::new("TTACGTT", Alphabet::DNA).unwrap());
    assert_eq!(m.context().as_ref().unwrap().to_string_upper(), "TTACGTT");
    assert_eq!(m.reflen(), 2);
}

#[test]
fn display_text() {
    let mut m = SmallMutation::new(
        "chr17".to_string(),
        7579472,
        BioSeq::new("g", Alphabet::DNA).unwrap(),
        BioSeq::new("C", Alphabet::DNA).unwrap(),
        true,
        None,
    );
    assert_eq!(
        m.to_display_string(),
        "chr17:7579472 G>C (delta: 0; class: SNV; multiallelic:true)"
    );
    m.add_context(BioSeq::new("ACGTA", Alphabet::DNA).unwrap());
    assert_eq!(
        m.to_display_string(),
        "chr17:7579472 G>C (delta: 0; class: SNV; multiallelic:true)"
    );
}

#[test]
fn display_text_deletion_and_insertion() {
    let del = SmallMutation::new(
        "X".to_string(),
        0,
        BioSeq::new("ACGTACGTACGT", Alphabet::DNA).unwrap(),
        BioSeq::new("A", Alphabet::DNA).unwrap(),
        false,
        None,
    );
    assert_eq!(
        del.to_display_string(),
        "X:0 ACGTACGTACGT>A (delta: -11; class: DELETION; multiallelic:false)"
    );
    assert_eq!(
        variant("A", "AG").to_display_string(),
        "chr1:100 A>AG (delta: 1; class: INSERTION; multiallelic:false)"
    );
    assert_eq!(
        variant("AC", "GT").to_display_string(),
        "chr1:100 AC>GT (delta: 0; class: DOUBLET; multiallelic:false)"
    );
}

#[test]
fn mutation_equality() {
    assert_eq!(variant("A", "G"), variant("a", "g"));
    assert_ne!(variant("A", "G"), variant("A", "C"));
    assert_eq!(TiTv::Transition.as_str(), "Transition");
}
