use vstd::prelude::*;

use crate::base::{
    ascii_upper, complement_base, lemma_complement_base, is_legal, is_legal_char, lemma_parse_symbol, parse_char, symbol, upper_char,
    Alphabet, Base,
};
use crate::errors::SeqError;

verus! {

/// Relies on `String::push`: the character is appended at the end.
#[verifier::external_body]
pub(crate) fn push_char(s: &mut String, c: char)
    ensures
        final(s)@ == old(s)@.push(c),
{
    s.push(c)
}

/// Canonical characters of a run of symbols, in order.
pub open spec fn render(s: Seq<Base>) -> Seq<char> {
    s.map_values(|b: Base| symbol(b))
}

/// Whether every character of `s` denotes a symbol of `alphabet`.
pub open spec fn all_legal(s: Seq<char>, alphabet: Alphabet) -> bool {
    forall|i: int| 0 <= i < s.len() ==> is_legal_char(#[trigger] s[i], alphabet)
}

/// The symbols that a fully legal text denotes.
pub open spec fn parse_text(s: Seq<char>, alphabet: Alphabet) -> Seq<Base> {
    s.map_values(|c: char| parse_char(c, alphabet).unwrap())
}

/// Each symbol replaced by its complement within `alphabet`, order kept.
pub open spec fn complement_seq(s: Seq<Base>, alphabet: Alphabet) -> Seq<Base> {
    s.map_values(|b: Base| complement_base(b, alphabet))
}

/// Upper-case forms of the characters of `s` that are not symbols of `alphabet`.
pub open spec fn offenders(s: Seq<char>, alphabet: Alphabet) -> Set<char> {
    Set::new(
        |u: char|
            exists|i: int|
                0 <= i < s.len() && !is_legal_char(#[trigger] s[i], alphabet) && ascii_upper(s[i])
                    == u,
    )
}

/// Whether the characters of `t` rise strictly (by code point).
pub open spec fn strictly_ascending(t: Seq<char>) -> bool {
    forall|i: int, j: int| 0 <= i < j < t.len() ==> t[i] < t[j]
}

/// Inserts `c` into a strictly ascending list unless it is already there.
fn insert_sorted(v: &mut Vec<char>, c: char)
    requires
        strictly_ascending(old(v)@),
    ensures
        strictly_ascending(final(v)@),
        final(v)@.to_set() == old(v)@.to_set().insert(c),
{
    let mut i: usize = 0;
    while i < v.len() && v[i] < c
        invariant
            0 <= i <= v.len(),
            forall|k: int| 0 <= k < i ==> v@[k] < c,
        decreases v.len() - i,
    {
        i = i + 1;
    }
    if i < v.len() && v[i] == c {
        assert(v@.to_set().contains(c));
        assert(v@.to_set().insert(c) =~= v@.to_set());
        return ;
    }
    let ghost before = v@;
    v.insert(i, c);
    assert forall|a: int, b: int| 0 <= a < b < v@.len() implies v@[a] < v@[b] by {
        if b < i {
        } else if b == i {
        } else if a < i {
            assert(v@[b] == before[b - 1]);
        } else if a == i {
            assert(v@[b] == before[b - 1]);
            assert(before[i as int] >= c);
            assert(before[i as int] != c);
        } else {
        }
    }
    assert forall|x: char| v@.to_set().contains(x) <==> before.to_set().insert(c).contains(x) by {
        if v@.contains(x) {
            let k = choose|k: int| 0 <= k < v@.len() && v@[k] == x;
            if k < i {
                assert(before[k] == x);
            } else if k > i {
                assert(before[k - 1] == x);
            }
        }
        if before.contains(x) {
            let k = choose|k: int| 0 <= k < before.len() && before[k] == x;
            if k < i {
                assert(v@[k] == x);
            } else {
                assert(v@[k + 1] == x);
            }
        }
        if x == c {
            assert(v@[i as int] == c);
        }
    }
    assert(v@.to_set() =~= before.to_set().insert(c));
}

/// Builds a string from characters, in order.
fn string_of(chars: &Vec<char>) -> (r: String)
    ensures
        r@ == chars@,
{
    let mut out = String::new();
    let mut i: usize = 0;
    while i < chars.len()
        invariant
            i <= chars.len(),
            out@ == chars@.subrange(0, i as int),
        decreases chars.len() - i,
    {
        push_char(&mut out, chars[i]);
        assert(chars@.subrange(0, i + 1) =~= chars@.subrange(0, i as int).push(chars@[i as int]));
        i = i + 1;
    }
    assert(chars@.subrange(0, chars@.len() as int) =~= chars@);
    out
}

/// Building a sequence from legal text and rendering it gives the text back,
/// upper-cased.
pub proof fn lemma_construct_renders_upper(text: Seq<char>, alphabet: Alphabet)
    requires
        all_legal(text, alphabet),
    ensures
        render(parse_text(text, alphabet)) == text.map_values(|c: char| ascii_upper(c)),
{
    assert forall|i: int| 0 <= i < text.len() implies render(parse_text(text, alphabet))[i]
        == ascii_upper(text[i]) by {
        lemma_parse_symbol(text[i], alphabet);
    }
    assert(render(parse_text(text, alphabet)) =~= text.map_values(|c: char| ascii_upper(c)));
}

/// Complementing twice gives the sequence back.
pub proof fn lemma_complement_involution(s: BioSeq)
    requires
        s.wf(),
    ensures
        complement_seq(complement_seq(s@, s.spec_alphabet()), s.spec_alphabet()) == s@,
{
    let a = s.spec_alphabet();
    assert forall|i: int| 0 <= i < s@.len() implies complement_seq(complement_seq(s@, a), a)[i]
        == s@[i] by {
        lemma_complement_base(s@[i], a);
    }
    assert(complement_seq(complement_seq(s@, a), a) =~= s@);
}

/// Reversing twice gives the sequence back.
pub proof fn lemma_reverse_involution(s: BioSeq)
    ensures
        s@.reverse().reverse() == s@,
{
    assert(s@.reverse().reverse() =~= s@);
}

/// Taking the reverse complement twice gives the sequence back.
pub proof fn lemma_reverse_complement_involution(s: BioSeq)
    requires
        s.wf(),
    ensures
        complement_seq(complement_seq(s@.reverse(), s.spec_alphabet()).reverse(), s.spec_alphabet())
            == s@,
{
    let a = s.spec_alphabet();
    let t = complement_seq(complement_seq(s@.reverse(), a).reverse(), a);
    assert forall|i: int| 0 <= i < s@.len() implies t[i] == s@[i] by {
        lemma_complement_base(s@[i], a);
    }
    assert(t =~= s@);
}

/// Complement and reversal keep the length.
pub proof fn lemma_transforms_keep_length(s: BioSeq)
    ensures
        complement_seq(s@, s.spec_alphabet()).len() == s@.len(),
        s@.reverse().len() == s@.len(),
        complement_seq(s@.reverse(), s.spec_alphabet()).len() == s@.len(),
{
}

/// Adjacent slices join into the slice that spans both; the full slice is the
/// whole sequence, and a slice of width zero is empty.
pub proof fn lemma_slices_compose(s: BioSeq, i: int, j: int, k: int)
    requires
        0 <= i <= j <= k <= s@.len(),
    ensures
        s@.subrange(i, j) + s@.subrange(j, k) == s@.subrange(i, k),
        s@.subrange(0, s@.len() as int) == s@,
        s@.subrange(j, j).len() == 0,
{
    assert(s@.subrange(i, j) + s@.subrange(j, k) =~= s@.subrange(i, k));
    assert(s@.subrange(0, s@.len() as int) =~= s@);
}

/// A validated nucleotide sequence: symbols in order, together with the
/// alphabet that every one of them belongs to.
#[derive(Debug, Clone, PartialEq, Eq)]
pub struct BioSeq {
    seq: Vec<Base>,
    alphabet: Alphabet,
}

impl View for BioSeq {
    type V = Seq<Base>;

    closed spec fn view(&self) -> Seq<Base> {
        self.seq@
    }
}

impl BioSeq {
    /// The alphabet that governs this sequence.
    pub closed spec fn spec_alphabet(&self) -> Alphabet {
        self.alphabet
    }

    /// Every symbol belongs to the sequence's alphabet.
    pub open spec fn wf(&self) -> bool {
        forall|i: int| 0 <= i < self@.len() ==> is_legal(#[trigger] self@[i], self.spec_alphabet())
    }

    /// Validates the whole text against `alphabet`, ignoring case. When some
    /// characters are not symbols of it, the error lists all of them, each
    /// once, upper-cased and in ascending order.
    pub fn new(sequence: &str, alphabet: Alphabet) -> (r: Result<BioSeq, SeqError>)
        ensures
            all_legal(sequence@, alphabet) ==> (r matches Ok(s) && s.wf() && s.spec_alphabet()
                == alphabet && s@ == parse_text(sequence@, alphabet)),
            !all_legal(sequence@, alphabet) ==> match r {
                Err(SeqError::InvalidCharacters { alphabet: a, invalid }) => a == alphabet
                    && invalid@.to_set() == offenders(sequence@, alphabet) && strictly_ascending(
                    invalid@,
                ),
                _ => false,
            },
    {
        broadcast use vstd::string::axiom_spec_iter;

        let mut seq: Vec<Base> = Vec::new();
        let mut invalid: Vec<char> = Vec::new();
        for c in it: sequence.chars()
            invariant
                it.seq() == sequence@,
                strictly_ascending(invalid@),
                invalid@.to_set() == offenders(sequence@.subrange(0, it.index() as int), alphabet),
                all_legal(sequence@.subrange(0, it.index() as int), alphabet) ==> seq@ == parse_text(
                    sequence@.subrange(0, it.index() as int),
                    alphabet,
                ),
        {
            let ghost pre = sequence@.subrange(0, it.index() as int);
            let ghost next = sequence@.subrange(0, it.index() + 1);
            assert(next =~= pre.push(c));
            match Base::from_char(c, alphabet) {
                Ok(b) => {
                    seq.push(b);
                    assert(offenders(next, alphabet) =~= offenders(pre, alphabet)) by {
                        assert forall|u: char| offenders(next, alphabet).contains(u) implies offenders(
                            pre,
                            alphabet,
                        ).contains(u) by {
                            let i = choose|i: int|
                                0 <= i < next.len() && !is_legal_char(#[trigger] next[i], alphabet)
                                    && ascii_upper(next[i]) == u;
                            assert(pre[i] == next[i]);
                        }
                        assert forall|u: char| offenders(pre, alphabet).contains(u) implies offenders(
                            next,
                            alphabet,
                        ).contains(u) by {
                            let i = choose|i: int|
                                0 <= i < pre.len() && !is_legal_char(#[trigger] pre[i], alphabet)
                                    && ascii_upper(pre[i]) == u;
                            assert(next[i] == pre[i]);
                        }
                    }
                    proof {
                        if all_legal(next, alphabet) {
                            assert(all_legal(pre, alphabet)) by {
                                assert forall|i: int| 0 <= i < pre.len() implies is_legal_char(
                                    #[trigger] pre[i],
                                    alphabet,
                                ) by {
                                    assert(next[i] == pre[i]);
                                }
                            }
                            assert(seq@ =~= parse_text(next, alphabet));
                        }
                    }
                },
                Err(_) => {
                    let u = upper_char(c);
                    insert_sorted(&mut invalid, u);
                    assert(offenders(next, alphabet) =~= offenders(pre, alphabet).insert(u)) by {
                        assert forall|w: char| offenders(next, alphabet).contains(w) implies offenders(
                            pre,
                            alphabet,
                        ).insert(u).contains(w) by {
                            let i = choose|i: int|
                                0 <= i < next.len() && !is_legal_char(#[trigger] next[i], alphabet)
                                    && ascii_upper(next[i]) == w;
                            if i < pre.len() {
                                assert(pre[i] == next[i]);
                            }
                        }
                        assert forall|w: char| offenders(pre, alphabet).insert(u).contains(
                            w,
                        ) implies offenders(next, alphabet).contains(w) by {
                            if w == u {
                                assert(next[pre.len() as int] == c);
                            } else {
                                let i = choose|i: int|
                                    0 <= i < pre.len() && !is_legal_char(#[trigger] pre[i], alphabet)
                                        && ascii_upper(pre[i]) == w;
                                assert(next[i] == pre[i]);
                            }
                        }
                    }
                    assert(!is_legal_char(next[pre.len() as int], alphabet));
                },
            }
        }
        let ghost text = sequence@;
        assert(text.subrange(0, text.len() as int) =~= text);
        if invalid.len() == 0 {
            assert(all_legal(text, alphabet)) by {
                assert forall|i: int| 0 <= i < text.len() implies is_legal_char(
                    #[trigger] text[i],
                    alphabet,
                ) by {
                    if !is_legal_char(text[i], alphabet) {
                        assert(offenders(text, alphabet).contains(ascii_upper(text[i])));
                        assert(invalid@.to_set().contains(ascii_upper(text[i])));
                    }
                }
            }
            let r = BioSeq { seq, alphabet };
            assert forall|i: int| 0 <= i < r@.len() implies is_legal(
                #[trigger] r@[i],
                r.spec_alphabet(),
            ) by {
                lemma_parse_symbol(text[i], alphabet);
            }
            Ok(r)
        } else {
            assert(!all_legal(text, alphabet)) by {
                let u = invalid@[0];
                assert(invalid@.to_set().contains(u));
                let i = choose|i: int|
                    0 <= i < text.len() && !is_legal_char(#[trigger] text[i], alphabet)
                        && ascii_upper(text[i]) == u;
            }
            Err(SeqError::InvalidCharacters { alphabet, invalid: string_of(&invalid) })
        }
    }

    /// Number of symbols.
    pub fn len(&self) -> (r: usize)
        ensures
            r == self@.len(),
    {
        self.seq.len()
    }

    /// Whether the sequence holds no symbol.
    pub fn is_empty(&self) -> (r: bool)
        ensures
            r == (self@.len() == 0),
    {
        self.seq.len() == 0
    }

    /// The alphabet that governs this sequence.
    pub fn alphabet(&self) -> (r: Alphabet)
        ensures
            r == self.spec_alphabet(),
    {
        self.alphabet
    }

    /// The symbols, in order.
    pub fn as_slice(&self) -> (r: &[Base])
        ensures
            r@ == self@,
    {
        self.seq.as_slice()
    }

    /// The canonical upper-case text of the sequence.
    pub fn to_string_upper(&self) -> (r: String)
        ensures
            r@ == render(self@),
    {
        let mut out = String::new();
        let mut i: usize = 0;
        while i < self.seq.len()
            invariant
                i <= self@.len(),
                out@ == render(self@.subrange(0, i as int)),
            decreases self@.len() - i,
        {
            let c = self.seq[i].to_char();
            push_char(&mut out, c);
            assert(render(self@.subrange(0, i + 1)) =~= render(self@.subrange(0, i as int)).push(c));
            i = i + 1;
        }
        assert(self@.subrange(0, self@.len() as int) =~= self@);
        out
    }

    /// Replaces every symbol by its complement; order, length and alphabet are kept.
    pub fn complement_in_place(&mut self)
        requires
            old(self).wf(),
        ensures
            final(self).wf(),
            final(self).spec_alphabet() == old(self).spec_alphabet(),
            final(self)@ == complement_seq(old(self)@, old(self).spec_alphabet()),
    {
        let ghost orig = self@;
        let alphabet = self.alphabet;
        let n = self.seq.len();
        let mut i: usize = 0;
        while i < n
            invariant
                n == orig.len(),
                i <= n,
                self.alphabet == alphabet,
                self.seq@.len() == n,
                forall|k: int| 0 <= k < i ==> self.seq@[k] == complement_base(orig[k], alphabet),
                forall|k: int| i <= k < n ==> self.seq@[k] == orig[k],
            decreases n - i,
        {
            let b = self.seq[i].complement(alphabet);
            self.seq[i] = b;
            i = i + 1;
        }
        assert(self.seq@ =~= complement_seq(orig, alphabet));
        assert forall|k: int| 0 <= k < n implies is_legal(#[trigger] self.seq@[k], alphabet) by {
            assert(is_legal(orig[k], alphabet));
            lemma_complement_base(orig[k], alphabet);
        }
    }

    /// A new sequence holding the complement of every symbol; `self` is left as it is.
    pub fn complement(&self) -> (r: BioSeq)
        requires
            self.wf(),
        ensures
            r.wf(),
            r.spec_alphabet() == self.spec_alphabet(),
            r@ == complement_seq(self@, self.spec_alphabet()),
    {
        let mut r = self.clone_seq();
        r.complement_in_place();
        r
    }

    /// An independent copy with the same symbols and alphabet.
    pub fn clone_seq(&self) -> (r: BioSeq)
        ensures
            r@ == self@,
            r.spec_alphabet() == self.spec_alphabet(),
    {
        let mut seq: Vec<Base> = Vec::with_capacity(self.seq.len());
        let mut i: usize = 0;
        while i < self.seq.len()
            invariant
                i <= self.seq@.len(),
                seq@ == self.seq@.subrange(0, i as int),
            decreases self.seq@.len() - i,
        {
            seq.push(self.seq[i]);
            i = i + 1;
        }
        assert(seq@ =~= self.seq@);
        BioSeq { seq, alphabet: self.alphabet }
    }

    /// Reverses the order of the symbols; length and alphabet are kept.
    pub fn reverse_in_place(&mut self)
        requires
            old(self).wf(),
        ensures
            final(self).wf(),
            final(self).spec_alphabet() == old(self).spec_alphabet(),
            final(self)@ == old(self)@.reverse(),
    {
        let ghost orig = self@;
        let alphabet = self.alphabet;
        let n = self.seq.len();
        let mut i: usize = 0;
        while i < n / 2
            invariant
                n == orig.len(),
                i <= n / 2,
                self.alphabet == alphabet,
                self.seq@.len() == n,
                forall|k: int| 0 <= k < i ==> self.seq@[k] == orig[n - 1 - k],
                forall|k: int| 0 <= k < i ==> self.seq@[n - 1 - k] == orig[k],
                forall|k: int| i <= k < n - i ==> self.seq@[k] == orig[k],
            decreases n / 2 - i,
        {
            let j = n - 1 - i;
            let a = self.seq[i];
            let b = self.seq[j];
            self.seq[i] = b;
            self.seq[j] = a;
            i = i + 1;
        }
        assert(self.seq@ =~= orig.reverse());
        assert forall|k: int| 0 <= k < n implies is_legal(#[trigger] self.seq@[k], alphabet) by {
            assert(is_legal(orig[n - 1 - k], alphabet));
        }
    }

    /// A new sequence with the symbols in reverse order; `self` is left as it is.
    pub fn reverse(&self) -> (r: BioSeq)
        requires
            self.wf(),
        ensures
            r.wf(),
            r.spec_alphabet() == self.spec_alphabet(),
            r@ == self@.reverse(),
    {
        let mut r = self.clone_seq();
        r.reverse_in_place();
        r
    }

    /// Reverses the order of the symbols and complements each of them, in a
    /// single pass; length and alphabet are kept.
    pub fn reverse_complement_in_place(&mut self)
        requires
            old(self).wf(),
        ensures
            final(self).wf(),
            final(self).spec_alphabet() == old(self).spec_alphabet(),
            final(self)@ == complement_seq(old(self)@.reverse(), old(self).spec_alphabet()),
    {
        let ghost orig = self@;
        let n = self.seq.len();
        let alphabet = self.alphabet;
        let mut i: usize = 0;
        while i < n / 2
            invariant
                n == orig.len(),
                i <= n / 2,
                alphabet == self.alphabet,
                self.seq@.len() == n,
                forall|k: int| 0 <= k < i ==> self.seq@[k] == complement_base(orig[n - 1 - k], alphabet),
                forall|k: int| 0 <= k < i ==> self.seq@[n - 1 - k] == complement_base(orig[k], alphabet),
                forall|k: int| i <= k < n - i ==> self.seq@[k] == orig[k],
            decreases n / 2 - i,
        {
            let j = n - 1 - i;
            let a = self.seq[i].complement(alphabet);
            let b = self.seq[j].complement(alphabet);
            self.seq[i] = b;
            self.seq[j] = a;
            i = i + 1;
        }
        if n % 2 == 1 {
            let m = n / 2;
            let c = self.seq[m].complement(alphabet);
            self.seq[m] = c;
        }
        assert(self.seq@ =~= complement_seq(orig.reverse(), alphabet));
        assert forall|k: int| 0 <= k < n implies is_legal(#[trigger] self.seq@[k], alphabet) by {
            assert(is_legal(orig[n - 1 - k], alphabet));
            lemma_complement_base(orig[n - 1 - k], alphabet);
        }
    }

    /// A new sequence holding the reverse complement; `self` is left as it is.
    pub fn reverse_complement(&self) -> (r: BioSeq)
        requires
            self.wf(),
        ensures
            r.wf(),
            r.spec_alphabet() == self.spec_alphabet(),
            r@ == complement_seq(self@.reverse(), self.spec_alphabet()),
    {
        let mut r = self.clone_seq();
        r.reverse_complement_in_place();
        r
    }

    /// The symbols in the half-open range `[start, end)`, 0-based, as a new
    /// sequence over the same alphabet. Refused unless `start <= end <= len`.
    pub fn slice(&self, start: usize, end: usize) -> (r: Result<BioSeq, SeqError>)
        requires
            self.wf(),
        ensures
            start <= end <= self@.len() ==> (r matches Ok(s) && s.wf() && s.spec_alphabet()
                == self.spec_alphabet() && s@ == self@.subrange(start as int, end as int)),
            !(start <= end <= self@.len()) ==> r == Err::<BioSeq, SeqError>(
                SeqError::InvalidSlice { start, end, len: self@.len() as usize },
            ),
    {
        let len = self.seq.len();
        if start > end || end > len {
            return Err(SeqError::InvalidSlice { start, end, len });
        }
        let mut seq: Vec<Base> = Vec::with_capacity(end - start);
        let mut i: usize = start;
        while i < end
            invariant
                start <= i <= end <= self.seq@.len(),
                seq@ == self.seq@.subrange(start as int, i as int),
            decreases end - i,
        {
            seq.push(self.seq[i]);
            i = i + 1;
        }
        Ok(BioSeq { seq, alphabet: self.alphabet })
    }
}

} // verus!
