//! How a scalar function runs over a column of BLOB cells: a NULL cell gives a
//! NULL result, any other cell is processed, and the first cell whose
//! processing fails fails the whole column.

use vstd::prelude::*;

use crate::error::ImgError;
use crate::imaging::result_view;

verus! {

/// An optional value taken by its view.
pub open spec fn opt_view<T: View>(o: Option<T>) -> Option<T::V> {
    match o {
        Some(v) => Some(v@),
        None => None,
    }
}

/// A column of optional values taken by their views.
pub open spec fn cells_view<T: View>(cells: Seq<Option<T>>) -> Seq<Option<T::V>> {
    cells.map_values(|o: Option<T>| opt_view(o))
}

/// A column result with its cells taken by their views and its error by its message.
pub open spec fn column_view<T: View>(r: Result<Vec<Option<T>>, ImgError>) -> Result<
    Seq<Option<T::V>>,
    Seq<char>,
> {
    match r {
        Ok(cells) => Ok(cells_view(cells@)),
        Err(e) => Err(e.0@),
    }
}

/// One cell of a column result: a NULL row gives NULL, any other row a value
/// that `f` admits for its blob.
pub open spec fn cell_fits<T>(
    row: Option<Seq<u8>>,
    cell: Option<T>,
    f: spec_fn(Seq<u8>, Result<T, Seq<char>>) -> bool,
) -> bool {
    match row {
        None => cell is None,
        Some(blob) => cell matches Some(v) && f(blob, Ok(v)),
    }
}

/// A row that processing can pass: NULL, or a blob that `f` admits some value for.
pub open spec fn row_passes<T>(row: Option<Seq<u8>>, f: spec_fn(Seq<u8>, Result<T, Seq<char>>) -> bool) -> bool {
    match row {
        None => true,
        Some(blob) => exists|v: T| #[trigger] f(blob, Ok(v)),
    }
}

/// Row `k` is where the column fails with `m`: it holds a blob for which `f`
/// admits the error `m`, and every row before it passes.
pub open spec fn fails_at<T>(
    rows: Seq<Option<Seq<u8>>>,
    f: spec_fn(Seq<u8>, Result<T, Seq<char>>) -> bool,
    m: Seq<char>,
    k: int,
) -> bool {
    &&& 0 <= k < rows.len()
    &&& rows[k] matches Some(blob) && f(blob, Err(m))
    &&& forall|j: int| 0 <= j < k ==> #[trigger] row_passes(rows[j], f)
}

/// Whether `r` is a result of running a function admitting `f` down `rows`
/// from the first row on: either every row's cell fits, or some row fails and
/// every row before it passed (the run stops at the first failure).
pub open spec fn column_fits<T>(
    rows: Seq<Option<Seq<u8>>>,
    f: spec_fn(Seq<u8>, Result<T, Seq<char>>) -> bool,
    r: Result<Seq<Option<T>>, Seq<char>>,
) -> bool {
    match r {
        Ok(cells) => cells.len() == rows.len() && forall|i: int|
            0 <= i < rows.len() ==> #[trigger] cell_fits(rows[i], cells[i], f),
        Err(m) => exists|k: int| #[trigger] fails_at(rows, f, m, k),
    }
}

/// The relation that a function fixed by its input admits: exactly its result.
pub open spec fn exactly<T>(o: spec_fn(Seq<u8>) -> Result<T, Seq<char>>) -> spec_fn(Seq<u8>, Result<T, Seq<char>>) -> bool {
    |b: Seq<u8>, r: Result<T, Seq<char>>| r == o(b)
}

/// Law: when what one row gives is fixed by its blob, what the whole column
/// gives is fixed by its rows — the cells when every row succeeds, otherwise
/// the error of the first row that fails.
pub proof fn lemma_column_determined<T>(
    rows: Seq<Option<Seq<u8>>>,
    o: spec_fn(Seq<u8>) -> Result<T, Seq<char>>,
    x: Result<Seq<Option<T>>, Seq<char>>,
    y: Result<Seq<Option<T>>, Seq<char>>,
)
    requires
        column_fits(rows, exactly(o), x),
        column_fits(rows, exactly(o), y),
    ensures
        x == y,
{
    let f = exactly(o);
    match x {
        Ok(cx) => match y {
            Ok(cy) => {
                assert forall|i: int| 0 <= i < rows.len() implies cx[i] == cy[i] by {
                    assert(cell_fits(rows[i], cx[i], f));
                    assert(cell_fits(rows[i], cy[i], f));
                }
                assert(cx =~= cy);
            },
            Err(m) => {
                let k = choose|k: int| #[trigger] fails_at(rows, f, m, k);
                assert(cell_fits(rows[k], cx[k], f));
            },
        },
        Err(mx) => match y {
            Ok(cy) => {
                let k = choose|k: int| #[trigger] fails_at(rows, f, mx, k);
                assert(cell_fits(rows[k], cy[k], f));
            },
            Err(my) => {
                let kx = choose|k: int| #[trigger] fails_at(rows, f, mx, k);
                let ky = choose|k: int| #[trigger] fails_at(rows, f, my, k);
                if kx < ky {
                    assert(row_passes(rows[kx], f));
                    let v = choose|v: T| #[trigger] f(rows[kx]->Some_0, Ok(v));
                } else if ky < kx {
                    assert(row_passes(rows[ky], f));
                    let v = choose|v: T| #[trigger] f(rows[ky]->Some_0, Ok(v));
                }
            },
        },
    }
}

/// Law: when a column succeeds, its results line up with its rows, and a row is
/// NULL in the result exactly when it is NULL in the input; every other row's
/// value is one that `f` admits for its blob.
pub proof fn lemma_column_nulls<T>(
    rows: Seq<Option<Seq<u8>>>,
    f: spec_fn(Seq<u8>, Result<T, Seq<char>>) -> bool,
    cells: Seq<Option<T>>,
)
    requires
        column_fits(rows, f, Ok::<Seq<Option<T>>, Seq<char>>(cells)),
    ensures
        cells.len() == rows.len(),
        forall|i: int| 0 <= i < rows.len() ==> (#[trigger] cells[i] is None <==> rows[i] is None),
        forall|i: int| 0 <= i < rows.len() && rows[i] is Some ==> f(rows[i]->Some_0, Ok(#[trigger] cells[i]->Some_0)),
{
    assert forall|i: int| 0 <= i < rows.len() implies (#[trigger] cells[i] is None <==> rows[i] is None) by {
        assert(cell_fits(rows[i], cells[i], f));
    }
    assert forall|i: int| 0 <= i < rows.len() && rows[i] is Some implies f(rows[i]->Some_0, Ok(#[trigger] cells[i]->Some_0)) by {
        assert(cell_fits(rows[i], cells[i], f));
    }
}

proof fn lemma_blob_view(blob: &Vec<u8>)
    ensures
        blob.deep_view() == blob@,
{
    assert(blob.deep_view() =~= blob@);
}

/// A function of one image BLOB that the worker runs row by row.
pub trait BlobFunction {
    /// What one row gives.
    type Output: View;

    /// Whether `r` (the output's view, or the error's message) is a result that
    /// `apply` may give for a blob.
    spec fn admits(&self, blob: Seq<u8>, r: Result<<Self::Output as View>::V, Seq<char>>) -> bool;

    /// Process one blob.
    fn apply(&self, blob: &[u8]) -> (r: Result<Self::Output, ImgError>)
        ensures
            self.admits(blob@, result_view(r)),
    ;
}

/// Run `op` over every row of a BLOB column: NULL rows give NULL, other rows
/// give `op`'s value, and the first error stops the run and is returned.
pub fn run_column<F: BlobFunction>(rows: &Vec<Option<Vec<u8>>>, op: &F) -> (r: Result<
    Vec<Option<F::Output>>,
    ImgError,
>)
    ensures
        column_fits(rows.deep_view(), |b: Seq<u8>, x: Result<<F::Output as View>::V, Seq<char>>| op.admits(b, x), column_view(r)),
{
    let ghost f = |b: Seq<u8>, x: Result<<F::Output as View>::V, Seq<char>>| op.admits(b, x);
    let ghost rv = rows.deep_view();
    let mut out: Vec<Option<F::Output>> = Vec::new();
    let mut i: usize = 0;
    while i < rows.len()
        invariant
            i <= rows.len(),
            rv == rows.deep_view(),
            f == (|b: Seq<u8>, x: Result<<F::Output as View>::V, Seq<char>>| op.admits(b, x)),
            out.len() == i,
            forall|j: int| 0 <= j < i ==> #[trigger] cell_fits(rv[j], cells_view(out@)[j], f),
        decreases rows.len() - i,
    {
        let ghost before = out@;
        match &rows[i] {
            None => {
                out.push(None);
            },
            Some(blob) => {
                proof {
                    lemma_blob_view(blob);
                }
                match op.apply(blob.as_slice()) {
                    Ok(v) => {
                        out.push(Some(v));
                    },
                    Err(e) => {
                        proof {
                            assert forall|j: int| 0 <= j < i implies #[trigger] row_passes(rv[j], f) by {
                                assert(cell_fits(rv[j], cells_view(out@)[j], f));
                                if rv[j] is Some {
                                    let v = cells_view(out@)[j]->Some_0;
                                    assert(f(rv[j]->Some_0, Ok(v)));
                                }
                            }
                            assert(fails_at(rv, f, e.0@, i as int));
                            let failed = Err::<Seq<Option<<F::Output as View>::V>>, Seq<char>>(e.0@);
                            assert(failed->Err_0 == e.0@);
                            assert(column_fits(rv, f, failed));
                        }
                        return Err(e);
                    },
                }
            },
        }
        proof {
            assert forall|j: int| 0 <= j < i + 1 implies #[trigger] cell_fits(rv[j], cells_view(out@)[j], f) by {
                if j < i {
                    assert(out@[j] == before[j]);
                    assert(cell_fits(rv[j], cells_view(before)[j], f));
                }
            }
        }
        i = i + 1;
    }
    proof {
        assert(rv.len() == rows.len());
        assert(cells_view(out@).len() == rows.len());
    }
    Ok(out)
}

} // verus!
