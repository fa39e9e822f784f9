use vstd::prelude::*;

use crate::base::{chem_class, Base, ChemClass};
use crate::sequences::{push_char, render, BioSeq};
use vstd::string::StringExecFns;

verus! {

/// Kind of a small variant, decided by the lengths of its two alleles.
#[derive(Debug, Clone, Copy, PartialEq, Eq, Structural, Hash)]
pub enum SmallMutationType {
    SNV,
    DOUBLET,
    MNV,
    INSERTION,
    DELETION,
}

/// Whether a single-base substitution keeps the chemical family or changes it.
#[derive(Debug, Clone, Copy, PartialEq, Eq, Structural, Hash)]
pub enum TiTv {
    Transition,
    Transversion,
}

/// Longer alternative: insertion; shorter: deletion. Equal lengths: one base
/// is an SNV, two a doublet, anything else (none included) an MNV.
pub open spec fn class_of(reflen: int, altlen: int) -> SmallMutationType {
    if altlen > reflen {
        SmallMutationType::INSERTION
    } else if altlen < reflen {
        SmallMutationType::DELETION
    } else if reflen == 1 {
        SmallMutationType::SNV
    } else if reflen == 2 {
        SmallMutationType::DOUBLET
    } else {
        SmallMutationType::MNV
    }
}

/// Literal name of a variant kind.
pub open spec fn class_name(t: SmallMutationType) -> Seq<char> {
    match t {
        SmallMutationType::SNV => "SNV"@,
        SmallMutationType::DOUBLET => "DOUBLET"@,
        SmallMutationType::MNV => "MNV"@,
        SmallMutationType::INSERTION => "INSERTION"@,
        SmallMutationType::DELETION => "DELETION"@,
    }
}

/// Literal name of a transition/transversion verdict.
pub open spec fn titv_name(t: TiTv) -> Seq<char> {
    match t {
        TiTv::Transition => "Transition"@,
        TiTv::Transversion => "Transversion"@,
    }
}

/// The character of a decimal digit.
pub open spec fn digit_char(d: nat) -> char {
    ((d + 48) as u32) as char
}

/// Decimal digits of `n`, most significant first, with no leading zero.
pub open spec fn decimal(n: nat) -> Seq<char>
    decreases n,
{
    if n < 10 {
        seq![digit_char(n)]
    } else {
        decimal(n / 10).push(digit_char(n % 10))
    }
}

/// Decimal text of a signed number, with a leading `-` when it is negative.
pub open spec fn signed_decimal(d: int) -> Seq<char> {
    if d < 0 {
        seq!['-'] + decimal((-d) as nat)
    } else {
        decimal(d as nat)
    }
}

/// `true` or `false`.
pub open spec fn bool_text(b: bool) -> Seq<char> {
    if b {
        "true"@
    } else {
        "false"@
    }
}

/// Text of a variant: `chrom:pos REF>ALT (delta: d; class: C; multiallelic:b)`.
pub open spec fn display_of(m: SmallMutation) -> Seq<char> {
    m.spec_chromosome() + ":"@ + decimal(m.spec_position() as nat) + " "@ + render(
        m.spec_reference()@,
    ) + ">"@ + render(m.spec_alternative()@) + " (delta: "@ + signed_decimal(
        m.spec_alternative()@.len() - m.spec_reference()@.len(),
    ) + "; class: "@ + class_name(m.spec_class()) + "; multiallelic:"@ + bool_text(
        m.spec_multiallelic(),
    ) + ")"@
}

/// Appends the decimal digits of `n`.
fn push_decimal(out: &mut String, n: u64)
    ensures
        final(out)@ == old(out)@ + decimal(n as nat),
    decreases n,
{
    if n >= 10 {
        push_decimal(out, n / 10);
    }
    let c = ((n % 10) as u8 + 48) as char;
    push_char(out, c);
    assert(final(out)@ =~= old(out)@ + decimal(n as nat)) by {
        if n >= 10 {
            assert(decimal(n as nat) == decimal((n / 10) as nat).push(digit_char((n % 10) as nat)));
        }
    }
}

/// Same family: transition; purine against pyrimidine: transversion; an
/// ambiguous side leaves it undecided.
pub open spec fn titv_of(reference: ChemClass, alternative: ChemClass) -> Option<TiTv> {
    if reference == ChemClass::Ambiguous || alternative == ChemClass::Ambiguous {
        None
    } else if reference == alternative {
        Some(TiTv::Transition)
    } else {
        Some(TiTv::Transversion)
    }
}

/// No transition/transversion is reported for a variant that is not an SNV,
/// nor for an SNV with an ambiguous base on either side.
pub proof fn lemma_titv_undecided(m: SmallMutation)
    requires
        m.spec_class() != SmallMutationType::SNV || chem_class(m.spec_reference()@[0])
            == ChemClass::Ambiguous || chem_class(m.spec_alternative()@[0]) == ChemClass::Ambiguous,
    ensures
        m.spec_titv() is None,
{
}

impl SmallMutationType {
    /// Classifies a variant from the lengths of its reference and alternative alleles.
    pub fn from_lengths(reflen: usize, altlen: usize) -> (r: Self)
        ensures
            r == class_of(reflen as int, altlen as int),
    {
        if altlen > reflen {
            SmallMutationType::INSERTION
        } else if altlen < reflen {
            SmallMutationType::DELETION
        } else {
            match reflen {
                0 => SmallMutationType::MNV,
                1 => SmallMutationType::SNV,
                2 => SmallMutationType::DOUBLET,
                _ => SmallMutationType::MNV,
            }
        }
    }

    /// The literal name of the kind.
    pub fn as_str(&self) -> (r: &'static str)
        ensures
            r@ == class_name(*self),
    {
        match self {
            SmallMutationType::SNV => "SNV",
            SmallMutationType::DOUBLET => "DOUBLET",
            SmallMutationType::MNV => "MNV",
            SmallMutationType::INSERTION => "INSERTION",
            SmallMutationType::DELETION => "DELETION",
        }
    }
}

impl TiTv {
    /// Transition or transversion from the chemical families of the two bases.
    pub fn from_chemical_class(reference: ChemClass, alternative: ChemClass) -> (r: Option<TiTv>)
        ensures
            r == titv_of(reference, alternative),
    {
        match (reference, alternative) {
            (ChemClass::Purine, ChemClass::Purine) => Some(TiTv::Transition),
            (ChemClass::Pyrimidine, ChemClass::Pyrimidine) => Some(TiTv::Transition),
            (ChemClass::Purine, ChemClass::Pyrimidine) => Some(TiTv::Transversion),
            (ChemClass::Pyrimidine, ChemClass::Purine) => Some(TiTv::Transversion),
            _ => None,
        }
    }

    /// The literal name of the kind.
    pub fn as_str(&self) -> (r: &'static str)
        ensures
            r@ == titv_name(*self),
    {
        match self {
            TiTv::Transition => "Transition",
            TiTv::Transversion => "Transversion",
        }
    }
}

/// One small variant: where it sits, its reference and alternative alleles,
/// whether the site is multiallelic, and optionally the surrounding sequence.
#[derive(Debug, Clone, PartialEq, Eq)]
pub struct SmallMutation {
    chromosome: String,
    position: u64,
    reference: BioSeq,
    alternative: BioSeq,
    multiallelic: bool,
    context: Option<BioSeq>,
}

impl SmallMutation {
    pub closed spec fn spec_chromosome(&self) -> Seq<char> {
        self.chromosome@
    }

    pub closed spec fn spec_position(&self) -> u64 {
        self.position
    }

    pub closed spec fn spec_reference(&self) -> BioSeq {
        self.reference
    }

    pub closed spec fn spec_alternative(&self) -> BioSeq {
        self.alternative
    }

    pub closed spec fn spec_multiallelic(&self) -> bool {
        self.multiallelic
    }

    pub closed spec fn spec_context(&self) -> Option<BioSeq> {
        self.context
    }

    /// Kind of this variant.
    pub open spec fn spec_class(&self) -> SmallMutationType {
        class_of(self.spec_reference()@.len() as int, self.spec_alternative()@.len() as int)
    }

    /// Transition or transversion of an SNV whose two bases are both unambiguous.
    pub open spec fn spec_titv(&self) -> Option<TiTv> {
        if self.spec_class() == SmallMutationType::SNV {
            titv_of(
                chem_class(self.spec_reference()@[0]),
                chem_class(self.spec_alternative()@[0]),
            )
        } else {
            None
        }
    }

    /// Records a variant as given; nothing is validated.
    pub fn new(
        chromosome: String,
        position: u64,
        reference: BioSeq,
        alternative: BioSeq,
        multiallelic: bool,
        context: Option<BioSeq>,
    ) -> (r: Self)
        ensures
            r.spec_chromosome() == chromosome@,
            r.spec_position() == position,
            r.spec_reference() == reference,
            r.spec_alternative() == alternative,
            r.spec_multiallelic() == multiallelic,
            r.spec_context() == context,
    {
        SmallMutation { chromosome, position, reference, alternative, multiallelic, context }
    }

    /// Attaches (or replaces) the surrounding sequence; nothing else changes.
    pub fn add_context(&mut self, seq: BioSeq)
        ensures
            final(self).spec_context() == Some(seq),
            final(self).spec_chromosome() == old(self).spec_chromosome(),
            final(self).spec_position() == old(self).spec_position(),
            final(self).spec_reference() == old(self).spec_reference(),
            final(self).spec_alternative() == old(self).spec_alternative(),
            final(self).spec_multiallelic() == old(self).spec_multiallelic(),
    {
        self.context = Some(seq)
    }

    /// Length of the reference allele.
    pub fn reflen(&self) -> (r: usize)
        ensures
            r == self.spec_reference()@.len(),
    {
        self.reference.len()
    }

    /// Length of the alternative allele.
    pub fn altlen(&self) -> (r: usize)
        ensures
            r == self.spec_alternative()@.len(),
    {
        self.alternative.len()
    }

    /// Alternative length minus reference length.
    pub fn delta(&self) -> (r: i64)
        requires
            self.spec_reference()@.len() <= i64::MAX,
            self.spec_alternative()@.len() <= i64::MAX,
        ensures
            r == self.spec_alternative()@.len() - self.spec_reference()@.len(),
    {
        self.altlen() as i64 - self.reflen() as i64
    }

    /// Kind of this variant, from the lengths of its alleles.
    pub fn class(&self) -> (r: SmallMutationType)
        ensures
            r == self.spec_class(),
    {
        SmallMutationType::from_lengths(self.reflen(), self.altlen())
    }

    /// Transition or transversion; none unless the variant is an SNV between
    /// two unambiguous bases.
    pub fn titv(&self) -> (r: Option<TiTv>)
        ensures
            r == self.spec_titv(),
    {
        if self.class() != SmallMutationType::SNV {
            return None;
        }
        let r: Base = self.reference.as_slice()[0];
        let a: Base = self.alternative.as_slice()[0];
        TiTv::from_chemical_class(r.chemical_class(), a.chemical_class())
    }

    /// Text of the variant:
    /// `chrom:pos REF>ALT (delta: d; class: C; multiallelic:b)`.
    pub fn to_display_string(&self) -> (r: String)
        requires
            self.spec_reference()@.len() <= i64::MAX,
            self.spec_alternative()@.len() <= i64::MAX,
        ensures
            r@ == display_of(*self),
    {
        let mut out = String::new();
        out.append(self.chromosome.as_str());
        out.append(":");
        push_decimal(&mut out, self.position);
        out.append(" ");
        let reference = self.reference.to_string_upper();
        out.append(reference.as_str());
        out.append(">");
        let alternative = self.alternative.to_string_upper();
        out.append(alternative.as_str());
        out.append(" (delta: ");
        let d = self.delta();
        if d < 0 {
            push_char(&mut out, '-');
            push_decimal(&mut out, (-d) as u64);
        } else {
            push_decimal(&mut out, d as u64);
        }
        out.append("; class: ");
        out.append(self.class().as_str());
        out.append("; multiallelic:");
        if self.multiallelic {
            out.append("true");
        } else {
            out.append("false");
        }
        out.append(")");
        assert(out@ =~= display_of(*self));
        out
    }

    /// Name of the chromosome.
    pub fn chromosome(&self) -> (r: &String)
        ensures
            r@ == self.spec_chromosome(),
    {
        &self.chromosome
    }

    /// 1-based start position.
    pub fn position(&self) -> (r: u64)
        ensures
            r == self.spec_position(),
    {
        self.position
    }

    /// The reference allele.
    pub fn reference(&self) -> (r: &BioSeq)
        ensures
            *r == self.spec_reference(),
    {
        &self.reference
    }

    /// The alternative allele.
    pub fn alternative(&self) -> (r: &BioSeq)
        ensures
            *r == self.spec_alternative(),
    {
        &self.alternative
    }

    /// Whether the site has more than one alternative allele.
    pub fn multiallelic(&self) -> (r: bool)
        ensures
            r == self.spec_multiallelic(),
    {
        self.multiallelic
    }

    /// The surrounding sequence, if one was attached.
    pub fn context(&self) -> (r: &Option<BioSeq>)
        ensures
            *r == self.spec_context(),
    {
        &self.context
    }
}

} // verus!
