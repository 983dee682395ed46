use vstd::prelude::*;
use crate::dataset::FIELD_COUNT;
use vstd::slice::slice_to_vec;

verus! {

/// Number of features of a record: every field but the last.
pub const FEATURE_COUNT: usize = 13;

/// One observation of the housing dataset: thirteen features and the median
/// value of homes (`medv`), the target. The number type is left to the caller.
#[derive(Debug, Clone, Copy)]
pub struct BostonHousing<T> {
    pub crim: T,
    pub zn: T,
    pub indus: T,
    pub chas: T,
    pub nox: T,
    pub rm: T,
    pub age: T,
    pub dis: T,
    pub rad: T,
    pub tax: T,
    pub ptratio: T,
    pub black: T,
    pub lstat: T,
    pub medv: T,
}

impl<T> BostonHousing<T> {
    /// The fields in file order, target last.
    pub open spec fn fields(&self) -> Seq<T> {
        seq![
            self.crim,
            self.zn,
            self.indus,
            self.chas,
            self.nox,
            self.rm,
            self.age,
            self.dis,
            self.rad,
            self.tax,
            self.ptratio,
            self.black,
            self.lstat,
            self.medv,
        ]
    }

    pub open spec fn features(&self) -> Seq<T> {
        self.fields().subrange(0, FEATURE_COUNT as int)
    }

    pub open spec fn target(&self) -> T {
        self.medv
    }
}

impl<T: Copy> BostonHousing<T> {
    /// The record whose fields, in file order, are `v`.
    pub fn new(v: Vec<T>) -> (r: BostonHousing<T>)
        requires
            v@.len() == FIELD_COUNT,
        ensures
            r.fields() == v@,
    {
        let r = BostonHousing {
            crim: v[0],
            zn: v[1],
            indus: v[2],
            chas: v[3],
            nox: v[4],
            rm: v[5],
            age: v[6],
            dis: v[7],
            rad: v[8],
            tax: v[9],
            ptratio: v[10],
            black: v[11],
            lstat: v[12],
            medv: v[13],
        };
        assert(r.fields() =~= v@);
        r
    }

    /// The features, in file order.
    pub fn into_feature_vector(&self) -> (r: Vec<T>)
        ensures
            r@ == self.features(),
    {
        let r = vec![
            self.crim,
            self.zn,
            self.indus,
            self.chas,
            self.nox,
            self.rm,
            self.age,
            self.dis,
            self.rad,
            self.tax,
            self.ptratio,
            self.black,
            self.lstat,
        ];
        assert(r@ =~= self.features());
        r
    }

    /// The target field.
    pub fn into_targets(&self) -> (r: T)
        ensures
            r == self.target(),
    {
        self.medv
    }
}

/// The features of `records`, row after row: the data of a feature matrix
/// with one row per record and `FEATURE_COUNT` columns.
pub open spec fn feature_rows<T>(records: Seq<BostonHousing<T>>) -> Seq<T>
    decreases records.len(),
{
    if records.len() == 0 {
        seq![]
    } else {
        feature_rows(records.drop_last()) + records.last().features()
    }
}

proof fn lemma_feature_rows<T>(records: Seq<BostonHousing<T>>)
    ensures
        feature_rows(records).len() == records.len() * FEATURE_COUNT,
        forall|i: int, j: int|
            0 <= i < records.len() && 0 <= j < FEATURE_COUNT ==> feature_rows(records)[i
                * FEATURE_COUNT + j] == #[trigger] records[i].fields()[j],
    decreases records.len(),
{
    if records.len() > 0 {
        let init = records.drop_last();
        lemma_feature_rows(init);
        assert forall|i: int, j: int|
            0 <= i < records.len() && 0 <= j < FEATURE_COUNT implies feature_rows(records)[i
                * FEATURE_COUNT + j] == #[trigger] records[i].fields()[j] by {
            if i < records.len() - 1 {
                assert(init[i] == records[i]);
                assert(i * FEATURE_COUNT + j < init.len() * FEATURE_COUNT) by (nonlinear_arith)
                    requires
                        i < init.len(),
                        0 <= j < FEATURE_COUNT,
                ;
            } else {
                assert(i * FEATURE_COUNT + j == init.len() * FEATURE_COUNT + j) by (nonlinear_arith)
                    requires
                        i == init.len(),
                ;
            }
        }
        assert(feature_rows(records).len() == init.len() * FEATURE_COUNT + FEATURE_COUNT);
        assert(feature_rows(records).len() == records.len() * FEATURE_COUNT) by (nonlinear_arith)
            requires
                feature_rows(records).len() == init.len() * FEATURE_COUNT + FEATURE_COUNT,
                records.len() == init.len() + 1,
        ;
    }
}

/// The feature matrix of `records`, row-major: row `i` holds the features of
/// record `i`, in file order.
pub fn feature_matrix_data<T: Copy>(records: &Vec<BostonHousing<T>>) -> (r: Vec<T>)
    requires
        records@.len() * FEATURE_COUNT <= usize::MAX,
    ensures
        r@ == feature_rows(records@),
        r@.len() == records@.len() * FEATURE_COUNT,
        forall|i: int, j: int|
            0 <= i < records@.len() && 0 <= j < FEATURE_COUNT ==> r@[i * FEATURE_COUNT + j]
                == #[trigger] records@[i].fields()[j],
{
    let mut r: Vec<T> = Vec::new();
    let mut i: usize = 0;
    while i < records.len()
        invariant
            i <= records@.len(),
            r@ == feature_rows(records@.subrange(0, i as int)),
        decreases records@.len() - i,
    {
        let row = records[i].into_feature_vector();
        let mut j: usize = 0;
        let ghost start = r@;
        while j < row.len()
            invariant
                j <= row@.len(),
                row@ == records@[i as int].features(),
                r@ == start + row@.subrange(0, j as int),
            decreases row@.len() - j,
        {
            r.push(row[j]);
            j = j + 1;
            assert(r@ =~= start + row@.subrange(0, j as int));
        }
        assert(records@.subrange(0, i + 1).drop_last() =~= records@.subrange(0, i as int));
        assert(row@.subrange(0, j as int) =~= row@);
        i = i + 1;
    }
    assert(records@.subrange(0, i as int) =~= records@);
    proof {
        lemma_feature_rows(records@);
    }
    r
}

/// The targets of `records`, in the same order.
pub fn target_data<T: Copy>(records: &Vec<BostonHousing<T>>) -> (r: Vec<T>)
    ensures
        r@.len() == records@.len(),
        forall|i: int| 0 <= i < records@.len() ==> r@[i] == (#[trigger] records@[i]).target(),
{
    let mut r: Vec<T> = Vec::new();
    let mut i: usize = 0;
    while i < records.len()
        invariant
            i <= records@.len(),
            r@.len() == i,
            forall|k: int| 0 <= k < i ==> r@[k] == (#[trigger] records@[k]).target(),
        decreases records@.len() - i,
    {
        r.push(records[i].into_targets());
        i = i + 1;
    }
    r
}

/// One record per row of field values, in the same order.
pub fn records_from_rows<T: Copy>(rows: &Vec<Vec<T>>) -> (r: Vec<BostonHousing<T>>)
    requires
        forall|i: int| 0 <= i < rows@.len() ==> (#[trigger] rows@[i])@.len() == FIELD_COUNT,
    ensures
        r@.len() == rows@.len(),
        forall|i: int| 0 <= i < rows@.len() ==> (#[trigger] r@[i]).fields() == rows@[i]@,
{
    let mut r: Vec<BostonHousing<T>> = Vec::new();
    let mut i: usize = 0;
    while i < rows.len()
        invariant
            i <= rows@.len(),
            r@.len() == i,
            forall|k: int| 0 <= k < rows@.len() ==> (#[trigger] rows@[k])@.len() == FIELD_COUNT,
            forall|k: int| 0 <= k < i ==> (#[trigger] r@[k]).fields() == rows@[k]@,
        decreases rows@.len() - i,
    {
        let row = slice_to_vec(rows[i].as_slice());
        r.push(BostonHousing::new(row));
        i = i + 1;
    }
    r
}

} // verus!
