use vstd::prelude::*;

verus! {

/// Two label sequences agree elementwise: same length, same characters.
pub open spec fn labels_eq(a: Seq<String>, b: Seq<String>) -> bool {
    a.len() == b.len() && forall|i: int| 0 <= i < a.len() ==> a[i]@ == #[trigger] b[i]@
}

/// No two labels in the sequence hold the same characters.
pub open spec fn labels_unique(a: Seq<String>) -> bool {
    forall|i: int, j: int| 0 <= i < j < a.len() ==> #[trigger] a[i]@ != #[trigger] a[j]@
}

/// A numeric matrix with one label per row and one per column; the source of
/// the projection and covariance data. The scalar type `S` is opaque to the
/// matrix: only shape and labels carry meaning here.
pub struct LabeledMatrix<S> {
    /// The rows of the matrix; every row has one entry per column label.
    pub matrix: Vec<Vec<S>>,
    pub row_labels: Vec<String>,
    pub col_labels: Vec<String>,
}

impl<S: Copy> LabeledMatrix<S> {
    /// Label counts match the matrix dimensions, the matrix is rectangular,
    /// and labels are unique within each axis.
    pub open spec fn wf(&self) -> bool {
        &&& self.matrix@.len() == self.row_labels@.len()
        &&& forall|i: int|
            0 <= i < self.matrix@.len() ==> (#[trigger] self.matrix@[i])@.len()
                == self.col_labels@.len()
        &&& labels_unique(self.row_labels@)
        &&& labels_unique(self.col_labels@)
    }

    pub open spec fn nrows(&self) -> nat {
        self.matrix@.len()
    }

    pub open spec fn ncols(&self) -> nat {
        self.col_labels@.len()
    }

    /// Assembles a labeled matrix after checking its invariant: rectangular
    /// data, label counts matching the dimensions, unique labels per axis.
    pub fn new(matrix: Vec<Vec<S>>, row_labels: Vec<String>, col_labels: Vec<String>) -> (r:
        Option<LabeledMatrix<S>>)
        ensures
            r is Some <==> (LabeledMatrix { matrix, row_labels, col_labels }).wf(),
            r is Some ==> r->Some_0 == (LabeledMatrix { matrix, row_labels, col_labels }),
    {
        if matrix.len() != row_labels.len() {
            return None;
        }
        let mut i: usize = 0;
        while i < matrix.len()
            invariant
                i <= matrix@.len(),
                forall|k: int|
                    0 <= k < i ==> (#[trigger] matrix@[k])@.len() == col_labels@.len(),
            decreases matrix@.len() - i,
        {
            if matrix[i].len() != col_labels.len() {
                return None;
            }
            i += 1;
        }
        if !strings_unique(&row_labels) {
            return None;
        }
        if !strings_unique(&col_labels) {
            return None;
        }
        Some(LabeledMatrix { matrix, row_labels, col_labels })
    }
}

/// Whether every pair of strings in the vector differs.
pub fn strings_unique(v: &Vec<String>) -> (r: bool)
    ensures
        r == labels_unique(v@),
{
    let mut i: usize = 0;
    while i < v.len()
        invariant
            i <= v@.len(),
            forall|p: int, q: int| 0 <= p < q < i ==> #[trigger] v@[p]@ != #[trigger] v@[q]@,
        decreases v@.len() - i,
    {
        let mut j: usize = 0;
        while j < i
            invariant
                i < v@.len(),
                j <= i,
                forall|p: int, q: int| 0 <= p < q < i ==> #[trigger] v@[p]@ != #[trigger] v@[q]@,
                forall|q: int| 0 <= q < j ==> #[trigger] v@[q]@ != v@[i as int]@,
            decreases i - j,
        {
            if v[j] == v[i] {
                return false;
            }
            j += 1;
        }
        i += 1;
    }
    true
}

/// Whether two vectors of strings agree elementwise.
pub fn strings_equal(a: &Vec<String>, b: &Vec<String>) -> (r: bool)
    ensures
        r == labels_eq(a@, b@),
{
    if a.len() != b.len() {
        return false;
    }
    let mut i: usize = 0;
    while i < a.len()
        invariant
            a@.len() == b@.len(),
            i <= a@.len(),
            forall|k: int| 0 <= k < i ==> a@[k]@ == #[trigger] b@[k]@,
        decreases a@.len() - i,
    {
        if a[i] != b[i] {
            return false;
        }
        i += 1;
    }
    true
}

} // verus!
