//! The information source itself: a finite alphabet whose symbols carry a
//! probability, a codeword and a label, with the derived encoder and decoder
//! dictionaries kept consistent with the arrays they index.

use vstd::prelude::*;

use crate::dictionary::{dict_lookup, lemma_lookup_at_entry, lookup};
use crate::errors::ValidationError;
use crate::numeric::{sum_probs, sum_seq, PROB_ONE, PROB_TOL};
use crate::rendering::{
    all_codes_in_range, code_in_range, digit_char, render_code, render_in_range, render_spec,
    renderings_distinct,
};
use crate::sampling::draw_at_most;

verus! {

/// Whether the texts of a sequence of labels are pairwise distinct.
pub open spec fn labels_distinct(labels: Seq<String>) -> bool {
    forall|i: int, j: int| 0 <= i < j < labels.len() ==> labels[i]@ != labels[j]@
}

/// A discrete information source: `length` symbols, each with a probability
/// (in millionths of the unit mass), a codeword and a label, plus the two
/// lookup dictionaries derived from the codewords and the labels.
pub struct InformationSource {
    /// The declared alphabet size, fixed at construction.
    pub length: usize,
    /// The probability of each symbol, in millionths of the unit mass.
    pub prob_array: Vec<u64>,
    /// The codeword of each symbol; every byte is a value zero through nine.
    pub code_array: Vec<Vec<u8>>,
    /// The human-readable label of each symbol.
    pub source_array: Vec<String>,
    /// The dictionary from label to symbol index.
    pub encoder: Vec<(String, usize)>,
    /// The dictionary from rendered codeword to symbol index.
    pub decoder: Vec<(String, usize)>,
}

impl InformationSource {
    /// Internal consistency: every array fills the alphabet; the
    /// probabilities sum to the unit mass within tolerance; the codewords
    /// are renderable and render pairwise distinct; the labels are pairwise
    /// distinct; and each dictionary lists, in order, the key of every entry
    /// of its source array mapped to that entry's index.
    pub open spec fn wf(self) -> bool {
        &&& self.prob_array@.len() == self.length
        &&& self.code_array@.len() == self.length
        &&& self.source_array@.len() == self.length
        &&& self.length > 0 ==> PROB_ONE - PROB_TOL <= sum_seq(self.prob_array@) <= PROB_ONE
            + PROB_TOL
        &&& all_codes_in_range(self.code_array@)
        &&& renderings_distinct(self.code_array@)
        &&& self.decoder@.len() == self.code_array@.len()
        &&& forall|i: int|
            0 <= i < self.decoder@.len() ==> (#[trigger] self.decoder@[i]).0@ == render_spec(
                self.code_array@[i]@,
            ) && self.decoder@[i].1 as int == i
        &&& labels_distinct(self.source_array@)
        &&& self.encoder@.len() == self.source_array@.len()
        &&& forall|i: int|
            0 <= i < self.encoder@.len() ==> (#[trigger] self.encoder@[i]).0@
                == self.source_array@[i]@ && self.encoder@[i].1 as int == i
    }

    /// Builds a source of `length` symbols. The probabilities are drawn at
    /// random by splitting the remaining unit mass at a uniform point once
    /// per symbol, the last symbol taking whatever mass is left, so that the
    /// whole assignment sums to exactly the unit mass. Symbol `i` gets the
    /// one-byte codeword `[i]` and the digit string that renders it as its
    /// label. Alphabets above ten symbols would need a codeword byte with no
    /// decimal digit, so they are excluded.
    pub fn new(length: usize) -> (r: InformationSource)
        requires
            length <= 10,
        ensures
            r.wf(),
            r.length == length,
            r.prob_array@.len() == length,
            forall|i: int| 0 <= i < length ==> r.prob_array@[i] <= PROB_ONE,
            length > 0 ==> sum_seq(r.prob_array@) == PROB_ONE as int,
            r.code_array@.len() == length,
            forall|i: int| 0 <= i < length ==> r.code_array@[i]@ == seq![i as u8],
            r.source_array@.len() == length,
            forall|i: int| 0 <= i < length ==> r.source_array@[i]@ == render_spec(seq![i as u8]),
    {
        let mut prob_array: Vec<u64> = Vec::new();
        let mut remaining: u64 = PROB_ONE;
        let mut i: usize = 0;
        while i < length
            invariant
                i <= length,
                prob_array@.len() == i,
                remaining <= PROB_ONE,
                sum_seq(prob_array@) + remaining == PROB_ONE as int,
                forall|k: int| 0 <= k < i ==> prob_array@[k] <= PROB_ONE,
                i == length && length > 0 ==> remaining == 0,
            decreases length - i,
        {
            let ghost s0 = prob_array@;
            if i + 1 == length {
                let x = remaining;
                prob_array.push(x);
                remaining = 0;
                proof {
                    crate::numeric::lemma_sum_push(s0, x);
                }
            } else {
                let x = draw_at_most(remaining);
                prob_array.push(x);
                remaining = remaining - x;
                proof {
                    crate::numeric::lemma_sum_push(s0, x);
                }
            }
            i = i + 1;
        }

        let mut code_array: Vec<Vec<u8>> = Vec::new();
        let mut source_array: Vec<String> = Vec::new();
        let mut encoder: Vec<(String, usize)> = Vec::new();
        let mut decoder: Vec<(String, usize)> = Vec::new();
        let mut i: usize = 0;
        while i < length
            invariant
                length <= 10,
                i <= length,
                code_array@.len() == i,
                source_array@.len() == i,
                encoder@.len() == i,
                decoder@.len() == i,
                forall|k: int| 0 <= k < i ==> (#[trigger] code_array@[k])@ == seq![k as u8],
                forall|k: int|
                    0 <= k < i ==> (#[trigger] source_array@[k])@ == render_spec(seq![k as u8]),
                forall|k: int|
                    0 <= k < i ==> (#[trigger] encoder@[k]).0@ == source_array@[k]@
                        && encoder@[k].1 as int == k,
                forall|k: int|
                    0 <= k < i ==> (#[trigger] decoder@[k]).0@ == render_spec(code_array@[k]@)
                        && decoder@[k].1 as int == k,
            decreases length - i,
        {
            let mut code: Vec<u8> = Vec::new();
            code.push(i as u8);
            proof {
                assert(code@ =~= seq![i as u8]);
                assert(code_in_range(code@));
            }
            let label = render_in_range(&code);
            source_array.push(label.clone());
            encoder.push((label.clone(), i));
            decoder.push((label, i));
            code_array.push(code);
            i = i + 1;
        }

        let r = InformationSource { length, prob_array, code_array, source_array, encoder, decoder };
        proof {
            assert forall|p: int, q: int| 0 <= p < q < length implies render_spec(
                r.code_array@[p]@,
            ) != render_spec(r.code_array@[q]@) by {
                assert(render_spec(seq![p as u8]) =~= seq![digit_char(p as u8)]);
                assert(render_spec(seq![q as u8]) =~= seq![digit_char(q as u8)]);
                assert(digit_char(p as u8) != digit_char(q as u8));
                assert(render_spec(r.code_array@[p]@)[0] != render_spec(r.code_array@[q]@)[0]);
            }
            assert forall|p: int, q: int| 0 <= p < q < length implies r.source_array@[p]@
                != r.source_array@[q]@ by {
                assert(render_spec(seq![p as u8]) =~= seq![digit_char(p as u8)]);
                assert(render_spec(seq![q as u8]) =~= seq![digit_char(q as u8)]);
                assert(digit_char(p as u8) != digit_char(q as u8));
                assert(r.source_array@[p]@[0] != r.source_array@[q]@[0]);
            }
        }
        r
    }

    /// Replaces the probability assignment. The whole candidate is validated
    /// first: its sum must lie within the tolerance around the unit mass,
    /// and on rejection the source is left exactly as it was, with the
    /// offending sum reported.
    #[verifier::loop_isolation(false)]
    pub fn set_probs(&mut self, prob_array: &Vec<u64>) -> (r: Result<(), ValidationError>)
        requires
            old(self).wf(),
            prob_array@.len() == old(self).length,
        ensures
            final(self).wf(),
            match r {
                Ok(()) => {
                    &&& PROB_ONE - PROB_TOL <= sum_seq(prob_array@) <= PROB_ONE + PROB_TOL
                    &&& final(self).prob_array@ == prob_array@
                    &&& final(self).length == old(self).length
                    &&& final(self).code_array == old(self).code_array
                    &&& final(self).source_array == old(self).source_array
                    &&& final(self).encoder == old(self).encoder
                    &&& final(self).decoder == old(self).decoder
                },
                Err(e) => {
                    &&& !(PROB_ONE - PROB_TOL <= sum_seq(prob_array@) <= PROB_ONE + PROB_TOL)
                    &&& e == (ValidationError::ProbabilitySum {
                        sum: sum_seq(prob_array@) as u128,
                    })
                    &&& *final(self) == *old(self)
                },
            },
    {
        let sum = sum_probs(prob_array);
        if sum < (PROB_ONE - PROB_TOL) as u128 || sum > (PROB_ONE + PROB_TOL) as u128 {
            return Err(ValidationError::ProbabilitySum { sum });
        }
        let mut new_probs: Vec<u64> = Vec::new();
        let mut i: usize = 0;
        while i < prob_array.len()
            invariant
                i <= prob_array@.len(),
                new_probs@.len() == i,
                forall|k: int| 0 <= k < i ==> new_probs@[k] == prob_array@[k],
            decreases prob_array@.len() - i,
        {
            new_probs.push(prob_array[i]);
            i = i + 1;
        }
        proof {
            assert(new_probs@ =~= prob_array@);
        }
        self.prob_array = new_probs;
        Ok(())
    }

    /// Replaces the codeword assignment with one codeword per symbol. The
    /// whole candidate is validated first: every byte must have a decimal
    /// digit to render as, and the rendered digit strings must be pairwise
    /// distinct. On acceptance the decoder is rebuilt from scratch over the
    /// new codewords; on rejection the source is left exactly as it was.
    #[verifier::loop_isolation(false)]
    pub fn set_codes(&mut self, code_array: &Vec<Vec<u8>>) -> (r: Result<(), ValidationError>)
        requires
            old(self).wf(),
            code_array@.len() == old(self).length,
        ensures
            final(self).wf(),
            match r {
                Ok(()) => {
                    &&& all_codes_in_range(code_array@)
                    &&& renderings_distinct(code_array@)
                    &&& final(self).code_array@.len() == code_array@.len()
                    &&& forall|i: int|
                        0 <= i < code_array@.len() ==> final(self).code_array@[i]@ == (
                        #[trigger] code_array@[i])@
                    &&& final(self).decoder@.len() == code_array@.len()
                    &&& forall|i: int|
                        0 <= i < code_array@.len() ==> (#[trigger] final(self).decoder@[i]).0@
                            == render_spec(code_array@[i]@) && final(self).decoder@[i].1 as int == i
                    &&& final(self).length == old(self).length
                    &&& final(self).prob_array == old(self).prob_array
                    &&& final(self).source_array == old(self).source_array
                    &&& final(self).encoder == old(self).encoder
                },
                Err(e) => {
                    &&& *final(self) == *old(self)
                    &&& (e == ValidationError::EncodingRange <==> !all_codes_in_range(code_array@))
                    &&& (e == ValidationError::DuplicateCode <==> all_codes_in_range(code_array@)
                        && !renderings_distinct(code_array@))
                    &&& (e == ValidationError::EncodingRange || e
                        == ValidationError::DuplicateCode)
                },
            },
    {
        let mut renders: Vec<String> = Vec::new();
        let mut i: usize = 0;
        while i < code_array.len()
            invariant
                i <= code_array@.len(),
                renders@.len() == i,
                forall|k: int| 0 <= k < i ==> code_in_range((#[trigger] code_array@[k])@),
                forall|k: int|
                    0 <= k < i ==> (#[trigger] renders@[k])@ == render_spec(code_array@[k]@),
            decreases code_array@.len() - i,
        {
            match render_code(&code_array[i]) {
                Ok(s) => {
                    renders.push(s);
                },
                Err(e) => {
                    return Err(e);
                },
            }
            i = i + 1;
        }
        assert(all_codes_in_range(code_array@));

        let n = code_array.len();
        let mut a: usize = 1;
        while a < n
            invariant
                n == code_array@.len(),
                renders@.len() == n,
                a <= n || n == 0,
                forall|k: int| 0 <= k < n ==> code_in_range((#[trigger] code_array@[k])@),
                forall|k: int|
                    0 <= k < n ==> (#[trigger] renders@[k])@ == render_spec(code_array@[k]@),
                forall|p: int, q: int|
                    0 <= p < q < a ==> render_spec(code_array@[p]@) != render_spec(
                        code_array@[q]@,
                    ),
            decreases n - a,
        {
            let mut b: usize = 0;
            while b < a
                invariant
                    n == code_array@.len(),
                    renders@.len() == n,
                    b <= a < n,
                    forall|k: int|
                        0 <= k < n ==> (#[trigger] renders@[k])@ == render_spec(code_array@[k]@),
                    forall|q: int|
                        0 <= q < b ==> render_spec(code_array@[q]@) != render_spec(
                            code_array@[a as int]@,
                        ),
                decreases a - b,
            {
                if renders[b] == renders[a] {
                    assert(render_spec(code_array@[b as int]@) == render_spec(
                        code_array@[a as int]@,
                    ));
                    assert(!renderings_distinct(code_array@));
                    return Err(ValidationError::DuplicateCode);
                }
                b = b + 1;
            }
            a = a + 1;
        }
        assert(renderings_distinct(code_array@));

        let mut new_codes: Vec<Vec<u8>> = Vec::new();
        let mut i: usize = 0;
        while i < code_array.len()
            invariant
                i <= code_array@.len(),
                new_codes@.len() == i,
                forall|k: int| 0 <= k < i ==> (#[trigger] new_codes@[k])@ == code_array@[k]@,
            decreases code_array@.len() - i,
        {
            let mut c: Vec<u8> = Vec::new();
            let mut k: usize = 0;
            while k < code_array[i].len()
                invariant
                    i < code_array@.len(),
                    k <= code_array@[i as int]@.len(),
                    c@.len() == k,
                    forall|j: int| 0 <= j < k ==> c@[j] == code_array@[i as int]@[j],
                decreases code_array@[i as int]@.len() - k,
            {
                c.push(code_array[i][k]);
                k = k + 1;
            }
            proof {
                assert(c@ =~= code_array@[i as int]@);
            }
            new_codes.push(c);
            i = i + 1;
        }

        let mut new_decoder: Vec<(String, usize)> = Vec::new();
        let mut i: usize = 0;
        while i < renders.len()
            invariant
                renders@.len() == code_array@.len(),
                i <= renders@.len(),
                new_decoder@.len() == i,
                forall|k: int|
                    0 <= k < renders@.len() ==> (#[trigger] renders@[k])@ == render_spec(
                        code_array@[k]@,
                    ),
                forall|k: int|
                    0 <= k < i ==> (#[trigger] new_decoder@[k]).0@ == render_spec(
                        code_array@[k]@,
                    ) && new_decoder@[k].1 as int == k,
            decreases renders@.len() - i,
        {
            let s = renders[i].clone();
            new_decoder.push((s, i));
            i = i + 1;
        }

        self.code_array = new_codes;
        self.decoder = new_decoder;
        Ok(())
    }

    /// Replaces the label assignment with one label per symbol. The whole
    /// candidate is validated first: the labels must be pairwise distinct.
    /// On acceptance the encoder is rebuilt from scratch over the new
    /// labels; on rejection the source is left exactly as it was.
    #[verifier::loop_isolation(false)]
    pub fn set_source(&mut self, src_array: &Vec<String>) -> (r: Result<(), ValidationError>)
        requires
            old(self).wf(),
            src_array@.len() == old(self).length,
        ensures
            final(self).wf(),
            match r {
                Ok(()) => {
                    &&& labels_distinct(src_array@)
                    &&& final(self).source_array@.len() == src_array@.len()
                    &&& forall|i: int|
                        0 <= i < src_array@.len() ==> final(self).source_array@[i]@ == (
                        #[trigger] src_array@[i])@
                    &&& final(self).encoder@.len() == src_array@.len()
                    &&& forall|i: int|
                        0 <= i < src_array@.len() ==> (#[trigger] final(self).encoder@[i]).0@
                            == src_array@[i]@ && final(self).encoder@[i].1 as int == i
                    &&& final(self).length == old(self).length
                    &&& final(self).prob_array == old(self).prob_array
                    &&& final(self).code_array == old(self).code_array
                    &&& final(self).decoder == old(self).decoder
                },
                Err(e) => {
                    &&& *final(self) == *old(self)
                    &&& e == ValidationError::DuplicateLabel
                    &&& !labels_distinct(src_array@)
                },
            },
    {
        let n = src_array.len();
        let mut a: usize = 1;
        while a < n
            invariant
                n == src_array@.len(),
                a <= n || n == 0,
                forall|p: int, q: int| 0 <= p < q < a ==> src_array@[p]@ != src_array@[q]@,
            decreases n - a,
        {
            let mut b: usize = 0;
            while b < a
                invariant
                    n == src_array@.len(),
                    b <= a < n,
                    forall|q: int| 0 <= q < b ==> src_array@[q]@ != src_array@[a as int]@,
                decreases a - b,
            {
                if src_array[b] == src_array[a] {
                    assert(!labels_distinct(src_array@));
                    return Err(ValidationError::DuplicateLabel);
                }
                b = b + 1;
            }
            a = a + 1;
        }
        assert(labels_distinct(src_array@));

        let mut new_labels: Vec<String> = Vec::new();
        let mut new_encoder: Vec<(String, usize)> = Vec::new();
        let mut i: usize = 0;
        while i < src_array.len()
            invariant
                i <= src_array@.len(),
                new_labels@.len() == i,
                new_encoder@.len() == i,
                forall|k: int| 0 <= k < i ==> (#[trigger] new_labels@[k])@ == src_array@[k]@,
                forall|k: int|
                    0 <= k < i ==> (#[trigger] new_encoder@[k]).0@ == src_array@[k]@
                        && new_encoder@[k].1 as int == k,
            decreases src_array@.len() - i,
        {
            new_labels.push(src_array[i].clone());
            new_encoder.push((src_array[i].clone(), i));
            i = i + 1;
        }

        self.source_array = new_labels;
        self.encoder = new_encoder;
        Ok(())
    }

    /// Looks a label up in the encoder dictionary.
    pub fn encode(&self, label: &String) -> (r: Option<usize>)
        ensures
            r == dict_lookup(self.encoder@, label@),
    {
        lookup(&self.encoder, label)
    }

    /// Looks a rendered codeword up in the decoder dictionary.
    pub fn decode(&self, rendering: &String) -> (r: Option<usize>)
        ensures
            r == dict_lookup(self.decoder@, rendering@),
    {
        lookup(&self.decoder, rendering)
    }
}

/// In a well-formed source the codewords are pairwise distinct as byte
/// sequences: distinct renderings can only come from distinct codewords.
pub proof fn lemma_codes_distinct(s: InformationSource, i: int, j: int)
    requires
        s.wf(),
        0 <= i < s.code_array@.len(),
        0 <= j < s.code_array@.len(),
        i != j,
    ensures
        s.code_array@[i]@ != s.code_array@[j]@,
{
    if s.code_array@[i]@ == s.code_array@[j]@ {
        assert(render_spec(s.code_array@[i]@) == render_spec(s.code_array@[j]@));
    }
}

/// Round trip for codewords: in a well-formed source, looking the rendering
/// of the codeword at any index up in the decoder yields that index back.
pub proof fn lemma_decode_round_trip(s: InformationSource, i: int)
    requires
        s.wf(),
        0 <= i < s.code_array@.len(),
    ensures
        dict_lookup(s.decoder@, render_spec(s.code_array@[i]@)) == Some(i as usize),
{
    assert forall|p: int, q: int| 0 <= p < q < s.decoder@.len() implies s.decoder@[p].0@
        != s.decoder@[q].0@ by {
        assert(s.decoder@[p].0@ == render_spec(s.code_array@[p]@));
        assert(s.decoder@[q].0@ == render_spec(s.code_array@[q]@));
    }
    lemma_lookup_at_entry(s.decoder@, i);
}

/// Round trip for labels: in a well-formed source, looking the label at any
/// index up in the encoder yields that index back.
pub proof fn lemma_encode_round_trip(s: InformationSource, i: int)
    requires
        s.wf(),
        0 <= i < s.source_array@.len(),
    ensures
        dict_lookup(s.encoder@, s.source_array@[i]@) == Some(i as usize),
{
    assert forall|p: int, q: int| 0 <= p < q < s.encoder@.len() implies s.encoder@[p].0@
        != s.encoder@[q].0@ by {
        assert(s.encoder@[p].0@ == s.source_array@[p]@);
        assert(s.encoder@[q].0@ == s.source_array@[q]@);
    }
    lemma_lookup_at_entry(s.encoder@, i);
}

} // verus!
