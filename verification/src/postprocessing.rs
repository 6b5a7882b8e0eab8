use vstd::prelude::*;
use vstd::string::StringExecFns;

verus! {

/// Row `i` of a flat row-major matrix whose rows have length `t`.
pub open spec fn row_of<T>(s: Seq<T>, i: int, t: int) -> Seq<T> {
    s.subrange(i * t, i * t + t)
}

/// Index of the first maximum of a sequence: the smallest position holding
/// a value no other position exceeds.
pub open spec fn first_max_index(s: Seq<u32>) -> int
    decreases s.len(),
{
    if s.len() <= 1 {
        0
    } else {
        let r = first_max_index(s.drop_last());
        if s.last() > s[r] {
            s.len() - 1
        } else {
            r
        }
    }
}

/// `first_max_index` points at a maximal value and every earlier value is
/// strictly smaller: the first maximum, the stable tie-break.
pub proof fn lemma_first_max_index_is_first_max(s: Seq<u32>)
    requires
        s.len() >= 1,
    ensures
        0 <= first_max_index(s) < s.len(),
        forall|j: int| 0 <= j < s.len() ==> #[trigger] s[j] <= s[first_max_index(s)],
        forall|j: int| 0 <= j < first_max_index(s) ==> #[trigger] s[j] < s[first_max_index(s)],
    decreases s.len(),
{
    if s.len() > 1 {
        lemma_first_max_index_is_first_max(s.drop_last());
        assert(forall|j: int| 0 <= j < s.len() - 1 ==> #[trigger] s[j] == s.drop_last()[j]);
    }
}

/// Per-timestep class selection: `probs` is a flat (n, t, k) tensor of
/// probability keys in row-major order, and every one of its `n * t` cells
/// is reduced to the index of the first maximum over its `k` class entries.
pub fn argmax_along_dim2(probs: &Vec<u32>, n: usize, t: usize, k: usize) -> (r: Vec<usize>)
    requires
        probs@.len() == n * t * k,
        k >= 1,
    ensures
        r@.len() == n * t,
        forall|m: int|
            0 <= m < n * t ==> (#[trigger] r@[m]) as int == first_max_index(
                row_of(probs@, m, k as int),
            ),
{
    let total: usize = probs.len();
    assert(n * t <= n * t * k) by (nonlinear_arith)
        requires
            k >= 1,
            n >= 0,
            t >= 0,
    ;
    let rows: usize = n * t;
    let mut r: Vec<usize> = Vec::new();
    for m in 0..rows
        invariant
            total == probs@.len(),
            probs@.len() == n * t * k,
            k >= 1,
            rows == n * t,
            r@.len() == m,
            forall|mm: int|
                0 <= mm < m ==> (#[trigger] r@[mm]) as int == first_max_index(
                    row_of(probs@, mm, k as int),
                ),
    {
        assert(m * k + k <= rows * k) by (nonlinear_arith)
            requires
                0 <= m < rows,
                k >= 1,
        ;
        assert(rows * k == n * t * k) by (nonlinear_arith)
            requires
                rows == n * t,
        ;
        let base: usize = m * k;
        let ghost row = probs@.subrange(base as int, base as int + k as int);
        let mut best: usize = 0;
        let mut bv: u32 = probs[base];
        assert(row.subrange(0, 1).drop_last() =~= row.subrange(0, 0));
        let mut j: usize = 1;
        while j < k
            invariant
                total == probs@.len(),
                probs@.len() == n * t * k,
                k >= 1,
                base == m * k,
                base + k <= probs@.len(),
                row == probs@.subrange(base as int, base as int + k as int),
                1 <= j <= k,
                best < j,
                bv == probs@[base + best],
                best as int == first_max_index(row.subrange(0, j as int)),
            decreases k - j,
        {
            let ghost pre = row.subrange(0, j as int);
            let ghost post = row.subrange(0, j as int + 1);
            assert(post.drop_last() =~= pre);
            assert(post.last() == probs@[base + j]);
            assert(pre[best as int] == probs@[base + best]);
            if probs[base + j] > bv {
                best = j;
                bv = probs[base + j];
            }
            j += 1;
        }
        assert(row.subrange(0, k as int) =~= row);
        assert(row =~= row_of(probs@, m as int, k as int));
        r.push(best);
    }
    r
}

/// The view of a vocabulary table: each label as its character sequence.
pub open spec fn labels_view(labels: Seq<String>) -> Seq<Seq<char>> {
    labels.map_values(|s: String| s@)
}

/// Greedy collapse of one row of class indices, read left to right with
/// `last` as the previously seen index. An index is emitted only when it
/// differs from the previous one, is not the blank sentinel 0, and lies
/// inside the vocabulary; the previous index is updated after every step,
/// so a return to 0 resets repetition tracking.
pub open spec fn decode_from(preds: Seq<usize>, vocab: Seq<Seq<char>>, last: int) -> Seq<char>
    decreases preds.len(),
{
    if preds.len() == 0 {
        Seq::empty()
    } else {
        let p = preds[0] as int;
        let head: Seq<char> = if p != last && p != 0 && p < vocab.len() {
            vocab[p]
        } else {
            Seq::empty()
        };
        head + decode_from(preds.drop_first(), vocab, p)
    }
}

/// Collapse every row of the flat (n, t) class-index matrix into a string,
/// in row order, using `label_mapping` as the vocabulary table.
pub fn preds_to_strings(preds: &Vec<usize>, n: usize, t: usize, label_mapping: &Vec<String>) -> (r:
    Vec<String>)
    requires
        preds@.len() == n * t,
    ensures
        r@.len() == n,
        forall|i: int|
            0 <= i < n ==> (#[trigger] r@[i])@ == decode_from(
                row_of(preds@, i, t as int),
                labels_view(label_mapping@),
                0,
            ),
{
    let total: usize = preds.len();
    let ghost vocab = labels_view(label_mapping@);
    let mut r: Vec<String> = Vec::new();
    for i in 0..n
        invariant
            total == preds@.len(),
            preds@.len() == n * t,
            vocab == labels_view(label_mapping@),
            r@.len() == i,
            forall|ii: int|
                0 <= ii < i ==> (#[trigger] r@[ii])@ == decode_from(
                    row_of(preds@, ii, t as int),
                    vocab,
                    0,
                ),
    {
        assert(i * t + t <= n * t) by (nonlinear_arith)
            requires
                0 <= i < n,
                t >= 0,
        ;
        let base: usize = i * t;
        let ghost row = row_of(preds@, i as int, t as int);
        assert(row =~= preds@.subrange(base as int, base as int + t as int));
        let mut out = String::new();
        assert(row.skip(0) =~= row);
        assert(out@ + decode_from(row, vocab, 0) =~= decode_from(row, vocab, 0));
        let mut last_p: usize = 0;
        let mut j: usize = 0;
        while j < t
            invariant
                total == preds@.len(),
                preds@.len() == n * t,
                vocab == labels_view(label_mapping@),
                base == i * t,
                base + t <= preds@.len(),
                row == preds@.subrange(base as int, base as int + t as int),
                j <= t,
                out@ + decode_from(row.skip(j as int), vocab, last_p as int) == decode_from(
                    row,
                    vocab,
                    0,
                ),
            decreases t - j,
        {
            let ghost rest = row.skip(j as int);
            assert(rest[0] == preds@[base + j]);
            assert(rest.drop_first() =~= row.skip(j as int + 1));
            let p: usize = preds[base + j];
            if p != last_p && p != 0 {
                if p < label_mapping.len() {
                    assert(vocab[p as int] == label_mapping@[p as int]@);
                    out.append(label_mapping[p].as_str());
                } else {
                    assert(decode_from(rest, vocab, last_p as int) == decode_from(
                        rest.drop_first(),
                        vocab,
                        p as int,
                    ));
                }
            }
            assert(out@ + decode_from(row.skip(j as int + 1), vocab, p as int) == decode_from(
                row,
                vocab,
                0,
            ));
            last_p = p;
            j += 1;
        }
        assert(row.skip(t as int) =~= Seq::<usize>::empty());
        assert(out@ + Seq::<char>::empty() =~= out@);
        r.push(out);
    }
    r
}

/// The greedy collapse is idempotent under consecutive duplicates: inserting
/// a copy of any element directly after itself leaves the decoded text
/// unchanged, whatever index was previously seen.
pub proof fn lemma_decode_duplicate_idempotent(
    preds: Seq<usize>,
    vocab: Seq<Seq<char>>,
    last: int,
    i: int,
)
    requires
        0 <= i < preds.len(),
    ensures
        decode_from(preds.insert(i + 1, preds[i]), vocab, last) == decode_from(
            preds,
            vocab,
            last,
        ),
    decreases i,
{
    let s2 = preds.insert(i + 1, preds[i]);
    let p0 = preds[0] as int;
    if i == 0 {
        let mid = seq![preds[0]] + preds.drop_first();
        assert(s2[0] == preds[0]);
        assert(s2.drop_first() =~= mid);
        assert(mid[0] == preds[0]);
        assert(mid.drop_first() =~= preds.drop_first());
        assert(decode_from(mid, vocab, p0) == Seq::<char>::empty() + decode_from(
            preds.drop_first(),
            vocab,
            p0,
        ));
        assert(Seq::<char>::empty() + decode_from(preds.drop_first(), vocab, p0) =~= decode_from(
            preds.drop_first(),
            vocab,
            p0,
        ));
    } else {
        assert(s2[0] == preds[0]);
        assert(s2.drop_first() =~= preds.drop_first().insert(i, preds[i]));
        assert(preds[i] == preds.drop_first()[i - 1]);
        lemma_decode_duplicate_idempotent(preds.drop_first(), vocab, p0, i - 1);
    }
}

/// The two reserved sentinel indices never emit: with a vocabulary table
/// whose second slot is the empty label, a row made only of the indices 0
/// and 1 decodes to the empty string.
pub proof fn lemma_sentinels_decode_to_empty(preds: Seq<usize>, vocab: Seq<Seq<char>>, last: int)
    requires
        vocab.len() >= 2,
        vocab[1].len() == 0,
        forall|j: int| 0 <= j < preds.len() ==> #[trigger] preds[j] == 0 || preds[j] == 1,
    ensures
        decode_from(preds, vocab, last).len() == 0,
    decreases preds.len(),
{
    if preds.len() > 0 {
        assert(preds[0] == 0 || preds[0] == 1);
        assert(forall|j: int|
            0 <= j < preds.drop_first().len() ==> #[trigger] preds.drop_first()[j] == 0
                || preds.drop_first()[j] == 1);
        lemma_sentinels_decode_to_empty(preds.drop_first(), vocab, preds[0] as int);
    }
}

} // verus!
