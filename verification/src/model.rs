use vstd::prelude::*;

use crate::postprocessing::{
    argmax_along_dim2, decode_from, first_max_index, labels_view, preds_to_strings, row_of,
};

verus! {

/// The decoding half of a loaded model: its vocabulary table. The first two
/// slots are reserved sentinels that never resolve to a label; the i-th
/// loaded vocabulary line sits at class index `i + 2`.
pub struct Model {
    pub vocab: Vec<String>,
}

/// Build the vocabulary table from the lines of a vocabulary file: two empty
/// sentinel slots, then the lines in order, so line `i` maps to class index
/// `i + 2`.
pub fn load_vocab(lines: &Vec<String>) -> (r: Vec<String>)
    ensures
        r@.len() == lines@.len() + 2,
        r@[0]@ == Seq::<char>::empty(),
        r@[1]@ == Seq::<char>::empty(),
        forall|i: int| 2 <= i < r@.len() ==> #[trigger] r@[i] == lines@[i - 2],
{
    let mut r: Vec<String> = Vec::new();
    r.push(String::new());
    r.push(String::new());
    let mut i: usize = 0;
    while i < lines.len()
        invariant
            i <= lines@.len(),
            r@.len() == i + 2,
            r@[0]@ == Seq::<char>::empty(),
            r@[1]@ == Seq::<char>::empty(),
            forall|ii: int| 2 <= ii < r@.len() ==> #[trigger] r@[ii] == lines@[ii - 2],
        decreases lines@.len() - i,
    {
        r.push(lines[i].clone());
        i += 1;
    }
    r
}

/// The per-row class choices over a flat (rows, k) tensor of probability
/// keys: for each row, the index of the first maximum over its k entries.
pub open spec fn argmax_rows(probs: Seq<u32>, rows: int, k: int) -> Seq<usize> {
    Seq::new(rows as nat, |m: int| first_max_index(row_of(probs, m, k)) as usize)
}

impl Model {
    /// Decode a flat (n, t, k) probability tensor into `n` strings, one per
    /// batch row in row order: select the first-maximum class index at every
    /// timestep, then greedily collapse each row's index sequence through
    /// the vocabulary table.
    pub fn generate_output_strings(&self, probs: &Vec<u32>, n: usize, t: usize, k: usize) -> (r:
        Vec<String>)
        requires
            probs@.len() == n * t * k,
            k >= 1,
        ensures
            r@.len() == n,
            forall|i: int|
                0 <= i < n ==> (#[trigger] r@[i])@ == decode_from(
                    row_of(argmax_rows(probs@, n * t, k as int), i, t as int),
                    labels_view(self.vocab@),
                    0,
                ),
    {
        let preds = argmax_along_dim2(probs, n, t, k);
        assert(preds@ =~= argmax_rows(probs@, n * t, k as int));
        preds_to_strings(&preds, n, t, &self.vocab)
    }
}

} // verus!
