use vstd::prelude::*;

use macroquad::rand::ChooseRandom;

use crate::table::{features_of, BinaryTable, LogRatio};

verus! {

/// Number of classes the classifier tells apart.
pub const N_OUTPUT: usize = 5;

/// Largest number of training epochs in one run.
pub const EPOCHS: usize = 10;

/// The accuracy, in percent, that a training run must reach by default.
pub const DEFAULT_MIN_ACCURACY: u32 = 95;

/// The kinds of file the classifier tells apart.
#[derive(Clone, Copy, Debug, PartialEq, Eq, Structural)]
pub enum FileType {
    Text,
    Binary,
    Jpeg,
    Pdf,
    Wav,
}

/// Why a collection or a training run failed.
#[derive(Clone, Copy, Debug, PartialEq, Eq, Structural)]
pub enum MlError {
    /// The corpus leaves the training or the test partition empty.
    DatasetTooSmall,
    /// The final test accuracy stayed below the required percentage.
    TrainingFailed,
    /// A tensor operation of the classifier failed.
    Compute,
}

impl FileType {
    /// The class index of a file type.
    pub open spec fn label(self) -> u32 {
        match self {
            FileType::Text => 0,
            FileType::Binary => 1,
            FileType::Jpeg => 2,
            FileType::Pdf => 3,
            FileType::Wav => 4,
        }
    }

    /// The file type of a class index, if it names one.
    pub open spec fn of_label(i: int) -> Option<FileType> {
        if i == 0 {
            Some(FileType::Text)
        } else if i == 1 {
            Some(FileType::Binary)
        } else if i == 2 {
            Some(FileType::Jpeg)
        } else if i == 3 {
            Some(FileType::Pdf)
        } else if i == 4 {
            Some(FileType::Wav)
        } else {
            None
        }
    }

    /// The class index the classifier is trained to produce for this file type.
    pub fn output(self) -> (r: u32)
        ensures
            r == self.label(),
            r < N_OUTPUT,
    {
        match self {
            FileType::Text => 0,
            FileType::Binary => 1,
            FileType::Jpeg => 2,
            FileType::Pdf => 3,
            FileType::Wav => 4,
        }
    }

    /// The file type of a predicted class index; `None` for an index past the last class.
    pub fn from_prediction(output: u32) -> (r: Option<Self>)
        ensures
            r == Self::of_label(output as int),
            r is Some <==> output < N_OUTPUT,
    {
        match output {
            0 => Some(FileType::Text),
            1 => Some(FileType::Binary),
            2 => Some(FileType::Jpeg),
            3 => Some(FileType::Pdf),
            4 => Some(FileType::Wav),
            _ => None,
        }
    }
}

/// A class index read back as a file type gives that file type back, and the other way round.
pub proof fn lemma_label_round_trip(t: FileType, i: int)
    ensures
        FileType::of_label(t.label() as int) == Some(t),
        FileType::of_label(i) matches Some(u) ==> u.label() == i,
{
}

/// The file type a corpus file is labelled with, by its extension: `None` for an
/// extension outside the table, which leaves the file out of the corpus.
pub open spec fn extension_type(ext: Option<Seq<u8>>) -> Option<FileType> {
    match ext {
        None => Some(FileType::Binary),
        Some(e) => {
            // The words are spelled out as ASCII codes.
            if e == seq![116u8, 120, 116]  // txt
             || e == seq![116u8, 101, 120, 116]  // text
             || e == seq![84u8, 88, 84]  // TXT
            {
                Some(FileType::Text)
            } else if e == seq![98u8, 105, 110]  // bin
             || e == seq![101u8, 120, 101]  // exe
             || e == seq![100u8, 108, 108]  // dll
             || e == seq![115u8, 111]  // so
             || e == seq![97u8]  // a
            {
                Some(FileType::Binary)
            } else if e == seq![106u8, 112, 103]  // jpg
             || e == seq![106u8, 112, 101, 103]  // jpeg
            {
                Some(FileType::Jpeg)
            } else if e == seq![112u8, 100, 102]  // pdf
            {
                Some(FileType::Pdf)
            } else if e == seq![119u8, 97, 118]  // wav
            {
                Some(FileType::Wav)
            } else {
                None
            }
        },
    }
}

/// Whether `e` is the one-byte word `a`.
fn is_word1(e: &[u8], a: u8) -> (r: bool)
    ensures
        r == (e@ == seq![a]),
{
    let r = e.len() == 1 && e[0] == a;
    proof {
        if e@.len() == 1 {
            assert(r == (e@ =~= seq![a]));
        }
    }
    r
}

/// Whether `e` is the two-byte word `a b`.
fn is_word2(e: &[u8], a: u8, b: u8) -> (r: bool)
    ensures
        r == (e@ == seq![a, b]),
{
    let r = e.len() == 2 && e[0] == a && e[1] == b;
    proof {
        if e@.len() == 2 {
            assert(r == (e@ =~= seq![a, b]));
        }
    }
    r
}

/// Whether `e` is the three-byte word `a b c`.
fn is_word3(e: &[u8], a: u8, b: u8, c: u8) -> (r: bool)
    ensures
        r == (e@ == seq![a, b, c]),
{
    let r = e.len() == 3 && e[0] == a && e[1] == b && e[2] == c;
    proof {
        if e@.len() == 3 {
            assert(r == (e@ =~= seq![a, b, c]));
        }
    }
    r
}

/// Whether `e` is the four-byte word `a b c d`.
fn is_word4(e: &[u8], a: u8, b: u8, c: u8, d: u8) -> (r: bool)
    ensures
        r == (e@ == seq![a, b, c, d]),
{
    let r = e.len() == 4 && e[0] == a && e[1] == b && e[2] == c && e[3] == d;
    proof {
        if e@.len() == 4 {
            assert(r == (e@ =~= seq![a, b, c, d]));
        }
    }
    r
}

impl FileType {
    /// The file type of a corpus file by its extension (given as bytes; `None` for a
    /// file without one). `None` means the file is not part of the corpus.
    pub fn from_extension(ext: Option<&[u8]>) -> (r: Option<FileType>)
        ensures
            r == extension_type(
                match ext {
                    Some(e) => Some(e@),
                    None => None,
                },
            ),
    {
        match ext {
            None => Some(FileType::Binary),
            Some(e) => {
                if is_word3(e, 116, 120, 116)  // txt
                 || is_word4(e, 116, 101, 120, 116)  // text
                 || is_word3(e, 84, 88, 84)  // TXT
                {
                    Some(FileType::Text)
                } else if is_word3(e, 98, 105, 110)  // bin
                 || is_word3(e, 101, 120, 101)  // exe
                 || is_word3(e, 100, 108, 108)  // dll
                 || is_word2(e, 115, 111)  // so
                 || is_word1(e, 97)  // a
                {
                    Some(FileType::Binary)
                } else if is_word3(e, 106, 112, 103)  // jpg
                 || is_word4(e, 106, 112, 101, 103)  // jpeg
                {
                    Some(FileType::Jpeg)
                } else if is_word3(e, 112, 100, 102)  // pdf
                {
                    Some(FileType::Pdf)
                } else if is_word3(e, 119, 97, 118)  // wav
                {
                    Some(FileType::Wav)
                } else {
                    None
                }
            },
        }
    }
}

/// The files of a corpus that carry a known extension, in order, each with its index
/// among all files and its file type.
pub open spec fn labelled(exts: Seq<Option<Seq<u8>>>) -> Seq<(int, FileType)>
    decreases exts.len(),
{
    if exts.len() == 0 {
        Seq::empty()
    } else {
        let prev = labelled(exts.drop_last());
        match extension_type(exts.last()) {
            Some(t) => prev.push((exts.len() - 1, t)),
            None => prev,
        }
    }
}

/// An extension as plain bytes.
pub open spec fn ext_view(e: Option<Vec<u8>>) -> Option<Seq<u8>> {
    match e {
        Some(v) => Some(v@),
        None => None,
    }
}

/// The extensions of a list of files as plain bytes.
pub open spec fn exts_view(exts: Seq<Option<Vec<u8>>>) -> Seq<Option<Seq<u8>>> {
    exts.map_values(|e: Option<Vec<u8>>| ext_view(e))
}

/// A file with an unknown extension adds nothing to the corpus.
pub proof fn lemma_unknown_extension_skipped(exts: Seq<Option<Seq<u8>>>, e: Option<Seq<u8>>)
    requires
        extension_type(e) is None,
    ensures
        labelled(exts.push(e)) == labelled(exts),
        labelled(exts.push(e)).len() == labelled(exts).len(),
{
    assert(exts.push(e).drop_last() =~= exts);
}

/// Picks the files of a corpus by their extensions (`None` for a file without one):
/// the index and file type of each file with a known extension, in order.
pub fn select(exts: &Vec<Option<Vec<u8>>>) -> (r: Vec<(usize, FileType)>)
    ensures
        r@.len() == labelled(exts_view(exts@)).len(),
        forall|j: int|
            0 <= j < r@.len() ==> (r@[j].0 as int, r@[j].1) == #[trigger] labelled(
                exts_view(exts@),
            )[j],
{
    let ghost all = exts_view(exts@);
    let mut r: Vec<(usize, FileType)> = Vec::new();
    let mut i: usize = 0;
    while i < exts.len()
        invariant
            i <= exts@.len(),
            all == exts_view(exts@),
            r@.len() == labelled(all.subrange(0, i as int)).len(),
            forall|j: int|
                0 <= j < r@.len() ==> (r@[j].0 as int, r@[j].1) == #[trigger] labelled(
                    all.subrange(0, i as int),
                )[j],
        decreases exts.len() - i,
    {
        let ext: Option<&[u8]> = match &exts[i] {
            Some(v) => Some(v.as_slice()),
            None => None,
        };
        let t = FileType::from_extension(ext);
        assert(all.subrange(0, i + 1).drop_last() =~= all.subrange(0, i as int));
        assert(all.subrange(0, i + 1).last() == ext_view(exts@[i as int]));
        match t {
            Some(t) => {
                r.push((i, t));
            },
            None => {},
        }
        i += 1;
    }
    assert(all.subrange(0, exts@.len() as int) =~= all);
    r
}

/// The size of the training partition of a corpus of `n` files: the first 80 percent,
/// rounded down.
pub fn train_len(n: usize) -> (r: usize)
    ensures
        r == n * 4 / 5,
{
    let q = n / 5;
    let m = n % 5;
    proof {
        assert(n == q * 5 + m);
        assert(n * 4 / 5 == q * 4 + m * 4 / 5) by (nonlinear_arith)
            requires
                n == q * 5 + m,
                0 <= m < 5,
        ;
        assert(q * 4 <= n) by (nonlinear_arith)
            requires
                n == q * 5 + m,
                0 <= m,
                0 <= q,
        ;
    }
    q * 4 + m * 4 / 5
}

/// A corpus of at least two files leaves both partitions non-empty, and a smaller one
/// leaves the training partition empty.
pub proof fn lemma_split_sizes(n: nat)
    ensures
        n >= 2 ==> 0 < n * 4 / 5 < n,
        n < 2 ==> n * 4 / 5 == 0,
        n * 4 / 5 <= n,
{
    assert(n >= 2 ==> 0 < n * 4 / 5 < n) by (nonlinear_arith);
    assert(n * 4 / 5 <= n) by (nonlinear_arith);
}

/// One labelled example: a file type and the feature vector of a file of that type.
pub struct Sample {
    pub file_type: FileType,
    pub features: Vec<LogRatio>,
}

/// Whether `s` is the example made from a file of type `t` holding `bytes`.
pub open spec fn sample_of(s: Sample, t: FileType, bytes: Seq<u8>) -> bool {
    s.file_type == t && s.features@ == features_of(bytes)
}

/// Whether `p` lists each of `0 .. n` exactly once.
pub open spec fn is_permutation(p: Seq<int>, n: nat) -> bool {
    &&& p.len() == n
    &&& forall|i: int| 0 <= i < n ==> 0 <= #[trigger] p[i] < n
    &&& forall|i: int, j: int| 0 <= i < n && 0 <= j < n && i != j ==> p[i] != p[j]
}

/// A corpus split into a training and a test partition.
pub struct Dataset {
    pub train: Vec<Sample>,
    pub test: Vec<Sample>,
}

/// Relies on macroquad's `ChooseRandom::shuffle` for slices (quad-rand's Fisher-Yates
/// loop of swaps): the order is random, the items are the same.
#[verifier::external_body]
fn shuffle_order(order: &mut Vec<usize>)
    ensures
        final(order)@.to_multiset() == old(order)@.to_multiset(),
{
    order.shuffle();
}

impl Dataset {
    /// Builds a dataset from the files of a corpus, each with its file type and bytes:
    /// the files are put in random order, each is turned into a feature vector by one
    /// table that is cleared after each file, and the first 80 percent (rounded down)
    /// form the training partition, the rest the test partition. Fails with
    /// `DatasetTooSmall` when either partition would be empty.
    pub fn collect(files: &Vec<(FileType, Vec<u8>)>) -> (r: Result<Dataset, MlError>)
        ensures
            r is Err <==> files@.len() < 2,
            r matches Err(e) ==> e == MlError::DatasetTooSmall,
            r matches Ok(d) ==> {
                &&& d.train@.len() == files@.len() * 4 / 5
                &&& d.train@.len() + d.test@.len() == files@.len()
                &&& exists|p: Seq<int>|
                    {
                        &&& is_permutation(p, files@.len())
                        &&& forall|j: int|
                            0 <= j < d.train@.len() ==> sample_of(
                                #[trigger] d.train@[j],
                                files@[p[j]].0,
                                files@[p[j]].1@,
                            )
                        &&& forall|j: int|
                            0 <= j < d.test@.len() ==> sample_of(
                                #[trigger] d.test@[j],
                                files@[p[d.train@.len() + j]].0,
                                files@[p[d.train@.len() + j]].1@,
                            )
                    }
            },
    {
        let n = files.len();
        let k = train_len(n);
        proof {
            lemma_split_sizes(n as nat);
        }
        if k == 0 || k == n {
            return Err(MlError::DatasetTooSmall);
        }
        let mut order: Vec<usize> = Vec::new();
        let mut i: usize = 0;
        while i < n
            invariant
                i <= n,
                order@.len() == i,
                forall|j: int| 0 <= j < i ==> order@[j] == j,
            decreases n - i,
        {
            order.push(i);
            i += 1;
        }
        let ghost before = order@;
        proof {
            assert(before.no_duplicates());
            before.lemma_multiset_has_no_duplicates();
        }
        shuffle_order(&mut order);
        let ghost p = order@.map_values(|x: usize| x as int);
        proof {
            vstd::seq_lib::to_multiset_len(order@);
            vstd::seq_lib::to_multiset_len(before);
            assert(order@.len() == before.len());
            order@.lemma_multiset_has_no_duplicates_conv();
            assert forall|j: int| 0 <= j < n implies 0 <= #[trigger] p[j] < n by {
                let x = order@[j];
                assert(order@.contains(x));
                vstd::seq_lib::to_multiset_contains(order@, x);
                vstd::seq_lib::to_multiset_contains(before, x);
                assert(before.contains(x));
                let w = choose|w: int| 0 <= w < before.len() && before[w] == x;
                assert(before[w] == w);
            }
        }
        let mut table = BinaryTable::new();
        let mut train: Vec<Sample> = Vec::new();
        let mut test: Vec<Sample> = Vec::new();
        let mut j: usize = 0;
        while j < n
            invariant
                0 < k < n,
                k == n * 4 / 5,
                n == files@.len(),
                order@.len() == n,
                j <= n,
                p == order@.map_values(|x: usize| x as int),
                is_permutation(p, n as nat),
                table.wf(),
                table@ == crate::table::empty_counts(),
                j <= k ==> train@.len() == j && test@.len() == 0,
                j > k ==> train@.len() == k && test@.len() == j - k,
                forall|q: int|
                    0 <= q < train@.len() ==> sample_of(
                        #[trigger] train@[q],
                        files@[p[q]].0,
                        files@[p[q]].1@,
                    ),
                forall|q: int|
                    0 <= q < test@.len() ==> sample_of(
                        #[trigger] test@[q],
                        files@[p[k + q]].0,
                        files@[p[k + q]].1@,
                    ),
            decreases n - j,
        {
            let idx = order[j];
            assert(p[j as int] == idx as int);
            let file = &files[idx];
            table.parse(file.1.as_slice());
            let features = table.export();
            table.clear();
            let sample = Sample { file_type: file.0, features };
            assert(sample_of(sample, files@[p[j as int]].0, files@[p[j as int]].1@));
            if j < k {
                train.push(sample);
            } else {
                test.push(sample);
            }
            j += 1;
        }
        Ok(Dataset { train, test })
    }
}

/// Whether `i` is the first position of a largest score.
pub open spec fn is_first_max(s: Seq<u32>, i: int) -> bool {
    &&& 0 <= i < s.len()
    &&& forall|j: int| 0 <= j < s.len() ==> #[trigger] s[j] <= s[i]
    &&& forall|j: int| 0 <= j < i ==> #[trigger] s[j] < s[i]
}

/// The position of the largest score; where several scores are largest, the first of
/// them. `None` for no scores.
pub fn arg_max(scores: &[u32]) -> (r: Option<usize>)
    ensures
        r is None <==> scores@.len() == 0,
        r matches Some(i) ==> is_first_max(scores@, i as int),
{
    if scores.len() == 0 {
        return None;
    }
    let mut best: usize = 0;
    let mut i: usize = 1;
    while i < scores.len()
        invariant
            1 <= i <= scores@.len(),
            best < i,
            forall|j: int| 0 <= j < i ==> #[trigger] scores@[j] <= scores@[best as int],
            forall|j: int| 0 <= j < best ==> #[trigger] scores@[j] < scores@[best as int],
        decreases scores.len() - i,
    {
        if scores[i] > scores[best] {
            best = i;
        }
        i += 1;
    }
    Some(best)
}

/// Two positions that are both first largest scores are the same position.
pub proof fn lemma_first_max_unique(s: Seq<u32>, i: int, j: int)
    requires
        is_first_max(s, i),
        is_first_max(s, j),
    ensures
        i == j,
{
    if i < j {
        assert(s[i] < s[j]);
        assert(s[i] >= s[j]);
    } else if j < i {
        assert(s[j] < s[i]);
        assert(s[j] >= s[i]);
    }
}

impl FileType {
    /// The file type whose class has the largest score, the lowest class on a tie.
    /// The scores are given as keys that order as the classifier's outputs do.
    /// `None` for no scores, or when the largest one lies past the last class.
    pub fn from_scores(scores: &[u32]) -> (r: Option<Self>)
        ensures
            scores@.len() == 0 ==> r is None,
            forall|i: int| is_first_max(scores@, i) ==> r == #[trigger] Self::of_label(i),
    {
        match arg_max(scores) {
            None => None,
            Some(i) => {
                let r = if i < N_OUTPUT {
                    FileType::from_prediction(i as u32)
                } else {
                    None
                };
                proof {
                    assert forall|k: int| is_first_max(scores@, k) implies r == #[trigger] Self::of_label(
                        k,
                    ) by {
                        lemma_first_max_unique(scores@, k, i as int);
                    }
                }
                r
            },
        }
    }
}

/// The bookkeeping of one training run: how many epochs ran, and the test accuracy of
/// the last one as a count of correct answers out of a total.
pub struct TrainingRun {
    pub epochs_done: usize,
    pub correct: u64,
    pub total: u64,
    pub min_accuracy: u32,
}

/// Whether `correct` answers out of `total` reach `min_accuracy` percent.
pub open spec fn meets_accuracy(correct: int, total: int, min_accuracy: int) -> bool {
    total > 0 && correct * 100 >= min_accuracy * total
}

impl TrainingRun {
    /// A run that has done no epoch yet and needs `min_accuracy` percent to succeed.
    pub fn new(min_accuracy: u32) -> (r: Self)
        ensures
            r.epochs_done == 0,
            r.correct == 0,
            r.total == 0,
            r.min_accuracy == min_accuracy,
    {
        TrainingRun { epochs_done: 0, correct: 0, total: 0, min_accuracy }
    }

    /// Records the test result of one more epoch and tells whether to run another: the
    /// run stops at a perfect test accuracy or once the epochs are used up.
    pub fn record(&mut self, correct: u64, total: u64) -> (go_on: bool)
        requires
            old(self).epochs_done < EPOCHS,
        ensures
            final(self).epochs_done == old(self).epochs_done + 1,
            final(self).correct == correct,
            final(self).total == total,
            final(self).min_accuracy == old(self).min_accuracy,
            go_on == (final(self).epochs_done < EPOCHS && correct != total),
    {
        self.epochs_done = self.epochs_done + 1;
        self.correct = correct;
        self.total = total;
        self.epochs_done < EPOCHS && correct != total
    }

    /// The verdict of the run: `TrainingFailed` when the last test accuracy is below the
    /// required percentage (or no epoch was tested).
    pub fn outcome(&self) -> (r: Result<(), MlError>)
        ensures
            r is Ok <==> meets_accuracy(
                self.correct as int,
                self.total as int,
                self.min_accuracy as int,
            ),
            r matches Err(e) ==> e == MlError::TrainingFailed,
    {
        let m = self.min_accuracy as u128;
        let t = self.total as u128;
        proof {
            assert(m * t <= 0xffff_ffffu128 * 0xffff_ffff_ffff_ffffu128) by (nonlinear_arith)
                requires
                    m <= 0xffff_ffffu128,
                    t <= 0xffff_ffff_ffff_ffffu128,
            ;
        }
        if self.total > 0 && (self.correct as u128) * 100 >= m * t {
            Ok(())
        } else {
            Err(MlError::TrainingFailed)
        }
    }
}

} // verus!
