//! A gene: an ordered sequence of markers whose first slot is the
//! distinguished "influence" value.
//!
//! A gene built by `new` stores its declared marker count plus one: slot 0
//! holds the influence value and is hidden from positional access, which
//! maps logical position `p` to storage slot `p + 1`. The text of a gene
//! concatenates each stored marker's 8-character text, influence first.
//! Decoding splits a text back into 8-character chunks; the decoded gene
//! declares the full chunk count, influence slot included — an asymmetry of
//! the format that `lemma_gene_text_round_trip` shows is harmless to the
//! text itself.

use vstd::prelude::*;

use crate::entropy::draw_index;
use crate::entropy::shuffle_markers;
use crate::error::DecodeError;
use crate::error::GeneError;
use crate::hex::all_hex;
use crate::hex::hex8;
use crate::hex::hex_num;
use crate::hex::is_hex_digit;
use crate::hex::lemma_hex8_round_trip;
use crate::marker::is_nan_bits;
use crate::marker::value_eq;
use crate::marker::values_equal;
use crate::marker::Marker;
use crate::mutation::mutation_applies;
use crate::mutation::mutation_in_range;
use crate::mutation::Mutation;
use vstd::pervasive::VecAdditionalExecFns;
use vstd::string::StrSliceExecFns;
use vstd::string::StringExecFns;

verus! {

/// An ordered sequence of markers; slot 0 is the influence slot.
pub struct Gene {
    /// The declared marker count, which leaves the influence slot out.
    pub num_markers: u16,
    /// The stored markers, influence first.
    pub markers: Vec<Marker>,
}

/// The text of a marker sequence: each marker's 8-character text in storage
/// order.
pub open spec fn gene_text(ms: Seq<Marker>) -> Seq<char>
    decreases ms.len(),
{
    if ms.len() == 0 {
        Seq::empty()
    } else {
        gene_text(ms.drop_last()) + hex8(ms.last().bits)
    }
}

/// The markers a text names, one per 8-character chunk.
pub open spec fn decoded_markers(t: Seq<char>) -> Seq<Marker> {
    Seq::new(t.len() / 8, |j: int| Marker { bits: hex_num(t.subrange(8 * j, 8 * j + 8)) as u32 })
}

/// The marker values a gene shows: every stored value but the influence
/// slot, in storage order.
pub open spec fn visible_values(ms: Seq<Marker>) -> Seq<u32> {
    if ms.len() == 0 {
        Seq::empty()
    } else {
        ms.skip(1).map_values(|m: Marker| m.bits)
    }
}

/// Whether two genes show the same markers: equal storage lengths, and the
/// values outside the influence slot pairwise equal as IEEE-754 values.
pub open spec fn genes_equal(l: Seq<Marker>, r: Seq<Marker>) -> bool {
    l.len() == r.len() && (forall|i: int| 1 <= i < l.len() ==> value_eq(l[i].bits, r[i].bits))
}

/// A marker sequence's text is 8 characters per marker.
pub proof fn lemma_gene_text_len(ms: Seq<Marker>)
    ensures
        gene_text(ms).len() == 8 * ms.len(),
    decreases ms.len(),
{
    if ms.len() > 0 {
        lemma_gene_text_len(ms.drop_last());
    }
}

/// The j-th 8-character chunk of a marker sequence's text is the j-th
/// marker's text.
pub proof fn lemma_gene_text_chunk(ms: Seq<Marker>, j: int)
    requires
        0 <= j < ms.len(),
    ensures
        gene_text(ms).subrange(8 * j, 8 * j + 8) =~= hex8(ms[j].bits),
    decreases ms.len(),
{
    lemma_gene_text_len(ms);
    lemma_gene_text_len(ms.drop_last());
    if j == ms.len() - 1 {
        assert(gene_text(ms) == gene_text(ms.drop_last()) + hex8(ms.last().bits));
    } else {
        lemma_gene_text_chunk(ms.drop_last(), j);
        assert(ms.drop_last()[j] == ms[j]);
    }
}

/// Decoding a marker sequence's text gives the markers back, so one more
/// encode yields the same text: the count a decoded gene declares differs,
/// the text does not.
pub proof fn lemma_gene_text_round_trip(ms: Seq<Marker>)
    ensures
        gene_text(ms).len() == 8 * ms.len(),
        gene_text(ms).len() % 8 == 0,
        all_hex(gene_text(ms)),
        decoded_markers(gene_text(ms)) == ms,
        gene_text(decoded_markers(gene_text(ms))) == gene_text(ms),
{
    let t = gene_text(ms);
    lemma_gene_text_len(ms);
    assert forall|x: int| 0 <= x < t.len() implies is_hex_digit(t[x]) by {
        let j = x / 8;
        assert(0 <= j < ms.len());
        lemma_gene_text_chunk(ms, j);
        lemma_hex8_round_trip(ms[j].bits);
        assert(t[x] == t.subrange(8 * j, 8 * j + 8)[x - 8 * j]);
    }
    assert forall|j: int| 0 <= j < ms.len() implies decoded_markers(t)[j] == ms[j] by {
        lemma_gene_text_chunk(ms, j);
        lemma_hex8_round_trip(ms[j].bits);
        assert(hex_num(t.subrange(8 * j, 8 * j + 8)) == ms[j].bits);
    }
    assert(decoded_markers(t) =~= ms);
}

/// Two genes holding the same markers show as equal, as long as no marker
/// outside the influence slot is NaN; a NaN marker equals nothing, itself
/// included.
pub proof fn lemma_same_markers_equal(ms: Seq<Marker>)
    requires
        forall|i: int| 1 <= i < ms.len() ==> !is_nan_bits(ms[i].bits),
    ensures
        genes_equal(ms, ms),
{
}

impl Gene {
    /// Whether the storage length matches the declaration: the declared
    /// marker count plus the influence slot. `new` establishes this and
    /// `mutate` keeps it; a decoded gene instead stores exactly its
    /// declared count.
    pub open spec fn wf(&self) -> bool {
        self.markers@.len() == self.num_markers as int + 1
    }

    /// Builds a gene over the given value patterns: one per declared
    /// marker, plus the leading influence slot. A declared count of zero is
    /// rejected.
    pub fn new(num_markers: u16, values: Vec<u32>) -> (r: Result<Gene, GeneError>)
        requires
            values@.len() == num_markers as int + 1,
        ensures
            match r {
                Ok(g) => num_markers >= 1 && g.num_markers == num_markers && g.wf()
                    && g.markers@.len() == num_markers as int + 1 && (forall|i: int|
                    0 <= i < values@.len() ==> g.markers@[i].bits == values@[i]),
                Err(e) => num_markers == 0 && e == GeneError::ZeroMarkerCount,
            },
    {
        if num_markers < 1 {
            return Err(GeneError::ZeroMarkerCount);
        }
        let mut markers: Vec<Marker> = Vec::new();
        let mut i: usize = 0;
        while i < values.len()
            invariant
                i <= values@.len(),
                markers@.len() == i,
                forall|j: int| 0 <= j < i ==> markers@[j].bits == values@[j],
            decreases values@.len() - i,
        {
            markers.push(Marker::new(values[i]));
            i = i + 1;
        }
        Ok(Gene { num_markers, markers })
    }

    /// The value pattern of the influence slot.
    pub fn get_influence(&self) -> (r: u32)
        requires
            self.markers@.len() >= 1,
        ensures
            r == self.markers@[0].bits,
    {
        self.markers[0].bits
    }

    /// The value pattern at logical position `position`, which is storage
    /// slot `position + 1`; nothing where no such slot exists.
    pub fn get_marker(&self, position: usize) -> (r: Option<u32>)
        ensures
            position + 1 < self.markers@.len() ==> r == Some(
                self.markers@[position as int + 1].bits,
            ),
            position + 1 >= self.markers@.len() ==> r is None,
    {
        let len = self.markers.len();
        if position < len && position + 1 < len {
            Some(self.markers[position + 1].bits)
        } else {
            None
        }
    }

    /// Every value pattern but the influence slot, in storage order; for a
    /// well-formed gene that is exactly the declared count of values.
    pub fn get_markers(&self) -> (r: Vec<u32>)
        ensures
            r@ == visible_values(self.markers@),
            self.wf() ==> r@.len() == self.num_markers,
    {
        let mut r: Vec<u32> = Vec::new();
        let len = self.markers.len();
        if len == 0 {
            assert(r@ =~= visible_values(self.markers@));
            return r;
        }
        let mut i: usize = 1;
        while i < len
            invariant
                1 <= i <= len,
                len == self.markers@.len(),
                r@.len() == i - 1,
                forall|j: int| 0 <= j < i - 1 ==> r@[j] == self.markers@[j + 1].bits,
            decreases len - i,
        {
            r.push(self.markers[i].bits);
            i = i + 1;
        }
        assert(r@ =~= visible_values(self.markers@));
        r
    }

    /// Whether two genes show the same markers: equal storage lengths and
    /// pairwise equal values outside the influence slot, which is never
    /// compared. Equality of values is that of the IEEE-754 numbers the
    /// patterns name: NaN differs from everything, the two zeros agree.
    pub fn is_equal(left_gene: Gene, right_gene: Gene) -> (r: bool)
        ensures
            r == genes_equal(left_gene.markers@, right_gene.markers@),
    {
        let len = left_gene.markers.len();
        if len != right_gene.markers.len() {
            return false;
        }
        let mut i: usize = 1;
        while i < len
            invariant
                1 <= i,
                i <= len || len == 0,
                len == left_gene.markers@.len(),
                len == right_gene.markers@.len(),
                forall|j: int|
                    1 <= j < i && j < len ==> value_eq(
                        left_gene.markers@[j].bits,
                        right_gene.markers@[j].bits,
                    ),
            decreases len - i,
        {
            if !values_equal(left_gene.markers[i].bits, right_gene.markers[i].bits) {
                return false;
            }
            i = i + 1;
        }
        true
    }

    /// The gene's text: each stored marker's 8-character text, influence
    /// first, with no delimiters.
    pub fn to_string(&self) -> (r: String)
        ensures
            r@ == gene_text(self.markers@),
            r@.len() == 8 * self.markers@.len(),
    {
        let mut r = String::new();
        let mut i: usize = 0;
        while i < self.markers.len()
            invariant
                i <= self.markers@.len(),
                r@ =~= gene_text(self.markers@.take(i as int)),
            decreases self.markers@.len() - i,
        {
            let t = self.markers[i].to_string();
            r.append(t.as_str());
            proof {
                assert(self.markers@.take(i + 1).drop_last() =~= self.markers@.take(i as int));
                assert(self.markers@.take(i + 1).last() == self.markers@[i as int]);
                assert(r@ =~= gene_text(self.markers@.take(i + 1)));
            }
            i = i + 1;
        }
        proof {
            assert(self.markers@.take(self.markers@.len() as int) =~= self.markers@);
            lemma_gene_text_len(self.markers@);
        }
        r
    }

    /// Reads a gene back from text: one marker per 8-character hexadecimal
    /// chunk, the chunk count becoming the declared marker count. The text
    /// must name whole bytes, group them into whole markers, and hold only
    /// hexadecimal digits; otherwise the matching error comes back and no
    /// gene is built.
    pub fn decode(s: &str) -> (r: Result<Gene, DecodeError>)
        requires
            s@.len() <= 8 * 0xFFFF,
        ensures
            match r {
                Ok(g) => s@.len() % 8 == 0 && all_hex(s@) && g.markers@ == decoded_markers(s@)
                    && g.num_markers as int == s@.len() as int / 8 && 8 * g.markers@.len()
                    == s@.len(),
                Err(e) => (e == DecodeError::InvalidHexLength && s@.len() % 2 != 0) || (e
                    == DecodeError::UnexpectedByteCount && s@.len() % 2 == 0 && s@.len() % 8
                    != 0) || (e == DecodeError::InvalidHexDigit && s@.len() % 8 == 0 && !all_hex(
                    s@,
                )),
            },
    {
        let n = s.unicode_len();
        if n % 2 != 0 {
            return Err(DecodeError::InvalidHexLength);
        }
        if n % 8 != 0 {
            return Err(DecodeError::UnexpectedByteCount);
        }
        let k = n / 8;
        let mut markers: Vec<Marker> = Vec::new();
        let mut j: usize = 0;
        while j < k
            invariant
                n == s@.len(),
                n % 8 == 0,
                k == n / 8,
                j <= k,
                s@.len() <= 8 * 0xFFFF,
                markers@.len() == j,
                forall|x: int| 0 <= x < 8 * j ==> is_hex_digit(s@[x]),
                forall|jj: int| 0 <= jj < j ==> markers@[jj] == decoded_markers(s@)[jj],
            decreases k - j,
        {
            let chunk = s.substring_char(8 * j, 8 * j + 8);
            match Marker::decode(chunk) {
                Ok(m) => {
                    proof {
                        assert(chunk@ =~= s@.subrange(8 * j as int, 8 * j as int + 8));
                        assert(all_hex(chunk@));
                        assert forall|x: int| 0 <= x < 8 * (j + 1) implies is_hex_digit(
                            s@[x],
                        ) by {
                            if x >= 8 * j {
                                assert(s@[x] == chunk@[x - 8 * j]);
                            }
                        }
                    }
                    markers.push(m);
                },
                Err(e) => {
                    proof {
                        assert(chunk@.len() == 8);
                        assert(e == DecodeError::InvalidHexDigit);
                        assert(!all_hex(chunk@));
                        let l = choose|l: int| 0 <= l < 8 && !is_hex_digit(chunk@[l]);
                        assert(!is_hex_digit(s@[8 * j + l]));
                        assert(!all_hex(s@));
                    }
                    return Err(DecodeError::InvalidHexDigit);
                },
            }
            j = j + 1;
        }
        proof {
            assert(8 * k == n);
            assert(markers@ =~= decoded_markers(s@));
        }
        Ok(Gene { num_markers: k as u16, markers })
    }

    /// Replaces the value pattern at one storage slot.
    fn set_marker(&mut self, target: usize, bits: u32)
        requires
            target < old(self).markers@.len(),
        ensures
            final(self).markers@ == old(self).markers@.update(target as int, (Marker { bits })),
            final(self).num_markers == old(self).num_markers,
    {
        self.markers.set(target, Marker { bits });
    }

    /// Performs one given edit on the marker sequence. The declared count
    /// and the storage length never change; the edit's slots must lie in
    /// the sequence.
    pub fn apply_mutation(&mut self, m: &Mutation)
        requires
            mutation_in_range(*m, old(self).markers@.len()),
        ensures
            final(self).num_markers == old(self).num_markers,
            final(self).markers@.len() == old(self).markers@.len(),
            mutation_applies(old(self).markers@, final(self).markers@, *m),
    {
        match m {
            Mutation::Delete { target } => {
                self.set_marker(*target, 0);
            },
            Mutation::Duplication { target, dup_target } => {
                let bits = self.markers[*target].bits;
                self.set_marker(*dup_target, bits);
                assert(final(self).markers@ =~= old(self).markers@.update(
                    *dup_target as int,
                    old(self).markers@[*target as int],
                ));
            },
            Mutation::New { target, bits } => {
                self.set_marker(*target, *bits);
            },
            Mutation::Reversal { target, swap_target } => {
                let swap_bits = self.markers[*swap_target].bits;
                let target_bits = self.markers[*target].bits;
                self.set_marker(*swap_target, target_bits);
                self.set_marker(*target, swap_bits);
                assert(final(self).markers@ =~= old(self).markers@.update(
                    *swap_target as int,
                    old(self).markers@[*target as int],
                ).update(*target as int, old(self).markers@[*swap_target as int]));
            },
            Mutation::Shift => {
                shuffle_markers(&mut self.markers);
            },
        }
    }

    /// Performs one edit drawn uniformly among the five kinds, on a slot
    /// drawn uniformly over the whole sequence; the kinds that pick a
    /// second slot draw it uniformly among the non-influence slots. The
    /// caller supplies one freshly sampled value pattern, consumed only
    /// when the drawn kind replaces a marker. Returns the edit that was
    /// performed.
    pub fn mutate(&mut self, replacement_bits: u32) -> (m: Mutation)
        requires
            old(self).markers@.len() >= 2,
        ensures
            final(self).num_markers == old(self).num_markers,
            final(self).markers@.len() == old(self).markers@.len(),
            mutation_in_range(m, old(self).markers@.len()),
            mutation_applies(old(self).markers@, final(self).markers@, m),
            m matches Mutation::New { target: _, bits } ==> bits == replacement_bits,
    {
        let len = self.markers.len();
        let kind = draw_index(5);
        let target = draw_index(len);
        let m = if kind == 0 {
            Mutation::Delete { target }
        } else if kind == 1 {
            let dup_target = 1 + draw_index(len - 1);
            Mutation::Duplication { target, dup_target }
        } else if kind == 2 {
            Mutation::New { target, bits: replacement_bits }
        } else if kind == 3 {
            let swap_target = 1 + draw_index(len - 1);
            Mutation::Reversal { target, swap_target }
        } else {
            Mutation::Shift
        };
        self.apply_mutation(&m);
        m
    }
}

} // verus!
