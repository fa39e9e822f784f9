use seqlib::{Alphabet, Base, BioSeq, ChemClass, SeqError};

fn dna(s: &str) -> BioSeq {
    BioSeq::new(s, Alphabet::DNA).unwrap()
}

#[test]
fn construct_renders_upper_case() {
    let s = BioSeq::new("acgtNryswkmbdhv", Alphabet::DNA).unwrap();
    assert_eq!(s.to_string_upper(), "ACGTNRYSWKMBDHV");
    assert_eq!(s.len(), 15);
    assert!(!s.is_empty());
    assert_eq!(s.alphabet(), Alphabet::DNA);
}

#[test]
fn construct_rna_accepts_u() {
    let s = BioSeq::new("augc", Alphabet::RNA).unwrap();
    assert_eq!(s.to_string_upper(), "AUGC");
    assert_eq!(s.as_slice(), &[Base::A, Base::U, Base::G, Base::C]);
}

#[test]
fn construct_empty() {
    let s = dna("");
    assert!(s.is_empty());
    assert_eq!(s.len(), 0);
    assert_eq!(s.to_string_upper(), "");
}

#[test]
fn construct_rejects_unknown_symbol() {
    let e = BioSeq::new("AGXCT", Alphabet::DNA).unwrap_err();
    assert_eq!(
        e,
        SeqError::InvalidCharacters { alphabet: Alphabet::DNA, invalid: "X".to_string() }
    );
}

#[test]
fn construct_collects_all_offenders_sorted_once() {
    let e = BioSeq::new("zA1x Z-u", Alphabet::DNA).unwrap_err();
    assert_eq!(
        e,
        SeqError::InvalidCharacters { alphabet: Alphabet::DNA, invalid: " -1UXZ".to_string() }
    );
}

#[test]
fn construct_rejects_t_in_rna() {
    let e = BioSeq::new("ACGT", Alphabet::RNA).unwrap_err();
    assert_eq!(
        e,
        SeqError::InvalidCharacters { alphabet: Alphabet::RNA, invalid: "T".to_string() }
    );
}

#[test]
fn single_symbol_parsing() {
    assert_eq!(Base::from_char('g', Alphabet::DNA), Ok(Base::G));
    assert_eq!(
        Base::from_char('u', Alphabet::DNA),
        Err(SeqError::InvalidCharacter { alphabet: Alphabet::DNA, invalid: 'u' })
    );
    assert_eq!(Base::try_from_ascii(b'u', Alphabet::RNA), Ok(Base::U));
    assert_eq!(
        Base::try_from_ascii(b'7', Alphabet::RNA),
        Err(SeqError::InvalidByte { alphabet: Alphabet::RNA, invalid: b'7' })
    );
    assert!(Alphabet::DNA.is_valid_char('n'));
    assert!(!Alphabet::DNA.is_valid_char(' '));
}

#[test]
fn base_properties() {
    assert_eq!(Base::R.to_char(), 'R');
    assert_eq!(Base::A.chemical_class(), ChemClass::Purine);
    assert_eq!(Base::G.chemical_class(), ChemClass::Purine);
    assert_eq!(Base::U.chemical_class(), ChemClass::Pyrimidine);
    assert_eq!(Base::N.chemical_class(), ChemClass::Ambiguous);
    assert_eq!(Base::A.complement(Alphabet::DNA), Base::T);
    assert_eq!(Base::A.complement(Alphabet::RNA), Base::U);
    assert_eq!(Base::K.complement(Alphabet::DNA), Base::M);
    assert_eq!(Base::B.complement(Alphabet::DNA), Base::V);
    assert_eq!(Base::S.complement(Alphabet::DNA), Base::S);
}

#[test]
fn complement_in_place_twice_restores() {
    let mut s = dna("AGACT");
    s.complement_in_place();
    assert_eq!(s.to_string_upper(), "TCTGA");
    s.complement_in_place();
    assert_eq!(s.to_string_upper(), "AGACT");
}

#[test]
fn complement_copy_leaves_receiver() {
    let s = dna("ACGTRYN");
    let c = s.complement();
    assert_eq!(c.to_string_upper(), "TGCAYRN");
    assert_eq!(s.to_string_upper(), "ACGTRYN");
    assert_eq!(c.len(), s.len());
    assert_eq!(c.complement().to_string_upper(), "ACGTRYN");
    assert_eq!(c.complement(), s);
    assert_ne!(c, s);
}

#[test]
fn rna_complement() {
    let s = BioSeq::new("AUGC", Alphabet::RNA).unwrap();
    assert_eq!(s.complement().to_string_upper(), "UACG");
}

#[test]
fn reverse_twice_restores() {
    let s = dna("AACGT");
    let r = s.reverse();
    assert_eq!(r.to_string_upper(), "TGCAA");
    assert_eq!(r.len(), s.len());
    assert_eq!(r.reverse().to_string_upper(), "AACGT");
    let mut m = dna("ACG");
    m.reverse_in_place();
    assert_eq!(m.to_string_upper(), "GCA");
}

#[test]
fn reverse_complement_both_ways() {
    let s = dna("AACGTG");
    let rc = s.reverse_complement();
    assert_eq!(rc.to_string_upper(), "CACGTT");
    assert_eq!(rc.reverse_complement().to_string_upper(), "AACGTG");
    let mut odd = dna("AAC");
    odd.reverse_complement_in_place();
    assert_eq!(odd.to_string_upper(), "GTT");
    let mut empty = dna("");
    empty.reverse_complement_in_place();
    assert!(empty.is_empty());
}

#[test]
fn slices() {
    let s = dna("ACGTAC");
    assert_eq!(s.slice(1, 4).unwrap().to_string_upper(), "CGT");
    assert_eq!(s.slice(0, 6).unwrap().to_string_upper(), "ACGTAC");
    assert!(s.slice(2, 2).unwrap().is_empty());
    let joined = format!(
        "{}{}",
        s.slice(0, 2).unwrap().to_string_upper(),
        s.slice(2, 5).unwrap().to_string_upper()
    );
    assert_eq!(joined, s.slice(0, 5).unwrap().to_string_upper());
    assert_eq!(s.slice(1, 3).unwrap().alphabet(), Alphabet::DNA);
}

#[test]
fn bad_slices() {
    let s = dna("ACGTAC");
    assert_eq!(s.slice(3, 1).unwrap_err(), SeqError::InvalidSlice { start: 3, end: 1, len: 6 });
    assert_eq!(s.slice(0, 7).unwrap_err(), SeqError::InvalidSlice { start: 0, end: 7, len: 6 });
}
