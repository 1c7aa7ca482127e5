//! Generation of blobs around centroids.
use vstd::prelude::*;
use crate::distribution::{
    draw, engine_after, lemma_draw_add, lemma_engine_after_add, Distribution, StandardNormal,
};
use crate::error::BlobError;
use crate::matrix::Matrix;
use crate::scalar::Scalar;

verus! {

/// One row of noisy points around `centroid`: entry `c` is `centroid[c]` plus
/// the `c`-th draw from `dist` with an engine that started in state `rng`.
pub open spec fn noisy_row<T: Scalar, R, D: Distribution<T, R>>(
    centroid: Seq<T>,
    dist: &D,
    rng: R,
) -> Seq<T> {
    Seq::new(centroid.len(), |c: int| centroid[c].sum(draw::<T, R, D>(dist, rng, c as nat)))
}

/// The blob of `blob_size` points around `centroid`: entry `(r, c)` is
/// `centroid[c]` plus one draw of its own, the draws being consumed row by
/// row and, within a row, column by column.
pub open spec fn blob<T: Scalar, R, D: Distribution<T, R>>(
    blob_size: nat,
    centroid: Seq<T>,
    dist: &D,
    rng: R,
) -> Seq<Seq<T>> {
    Seq::new(
        blob_size,
        |r: int|
            Seq::new(
                centroid.len(),
                |c: int|
                    centroid[c].sum(draw::<T, R, D>(dist, rng, (r * centroid.len() + c) as nat)),
            ),
    )
}

/// What [`make_blob`] does with an engine in state `before`: it refuses a
/// centroid without coordinates and leaves the engine alone; else it returns
/// the blob around the centroid and leaves the engine after one draw for each
/// entry.
pub open spec fn samples<T: Scalar, R, D: Distribution<T, R>>(
    blob_size: usize,
    centroid: Seq<T>,
    dist: &D,
    before: R,
    out: Result<Matrix<T>, BlobError>,
    after: R,
) -> bool {
    if centroid.len() == 0 {
        out == Err::<Matrix<T>, BlobError>(BlobError::InvalidShape) && after == before
    } else {
        &&& out matches Ok(m)
        &&& m.n_cols == centroid.len()
        &&& m.well_formed()
        &&& m.grid() == blob::<T, R, D>(blob_size as nat, centroid, dist, before)
        &&& after == engine_after::<T, R, D>(dist, before, blob_size as nat * centroid.len())
    }
}

/// Row `r` of a blob is a noisy row drawn by an engine that has made the
/// draws of the rows before it.
pub proof fn lemma_blob_row<T: Scalar, R, D: Distribution<T, R>>(
    blob_size: nat,
    centroid: Seq<T>,
    dist: &D,
    rng: R,
    r: int,
)
    requires
        0 <= r < blob_size,
    ensures
        blob::<T, R, D>(blob_size, centroid, dist, rng)[r] == noisy_row::<T, R, D>(
            centroid,
            dist,
            engine_after::<T, R, D>(dist, rng, (r * centroid.len()) as nat),
        ),
{
    let n = centroid.len();
    let start = engine_after::<T, R, D>(dist, rng, (r * n) as nat);
    assert forall|c: int| 0 <= c < n implies (#[trigger] noisy_row::<T, R, D>(
        centroid,
        dist,
        start,
    )[c]) == blob::<T, R, D>(blob_size, centroid, dist, rng)[r][c] by {
        lemma_draw_add::<T, R, D>(dist, rng, (r * n) as nat, c as nat);
    }
    assert(blob::<T, R, D>(blob_size, centroid, dist, rng)[r] =~= noisy_row::<T, R, D>(
        centroid,
        dist,
        start,
    ));
}

/// Draws one noisy row around `centroid`.
fn make_row<T: Scalar, R, D: Distribution<T, R>>(
    centroid: &Vec<T>,
    distribution: &D,
    rng: &mut R,
) -> (row: Vec<T>)
    ensures
        row@ == noisy_row::<T, R, D>(centroid@, distribution, *old(rng)),
        *final(rng) == engine_after::<T, R, D>(distribution, *old(rng), centroid@.len()),
{
    let ghost start = *rng;
    let mut row: Vec<T> = Vec::new();
    let mut c: usize = 0;
    while c < centroid.len()
        invariant
            c <= centroid@.len(),
            row@.len() == c,
            forall|j: int|
                0 <= j < c ==> #[trigger] row@[j] == centroid@[j].sum(
                    draw::<T, R, D>(distribution, start, j as nat),
                ),
            *rng == engine_after::<T, R, D>(distribution, start, c as nat),
        decreases centroid@.len() - c,
    {
        let noise = distribution.sample(rng);
        row.push(centroid[c].plus(noise));
        c += 1;
    }
    row
}

/// Generates `blob_size` points (a blob) around `blob_centroid`: each
/// coordinate of each point is the centroid's coordinate plus a sample of its
/// own from `distribution`.
///
/// A centroid without coordinates is refused with `InvalidShape`, before
/// anything is drawn. With `blob_size == 0` the blob has no rows.
pub fn make_blob<T: Scalar, R, D: Distribution<T, R>>(
    blob_size: usize,
    blob_centroid: &Vec<T>,
    distribution: &D,
    rng: &mut R,
) -> (out: Result<Matrix<T>, BlobError>)
    ensures
        samples::<T, R, D>(blob_size, blob_centroid@, distribution, *old(rng), out, *final(rng)),
{
    let n_features = blob_centroid.len();
    if n_features == 0 {
        return Err(BlobError::InvalidShape);
    }
    let ghost start = *rng;
    let ghost centroid = blob_centroid@;
    let mut rows: Vec<Vec<T>> = Vec::new();
    let mut r: usize = 0;
    while r < blob_size
        invariant
            r <= blob_size,
            centroid == blob_centroid@,
            rows@.len() == r,
            forall|i: int|
                0 <= i < r ==> (#[trigger] rows@[i])@ == blob::<T, R, D>(
                    blob_size as nat,
                    centroid,
                    distribution,
                    start,
                )[i],
            *rng == engine_after::<T, R, D>(distribution, start, (r * centroid.len()) as nat),
        decreases blob_size - r,
    {
        let row = make_row(blob_centroid, distribution, rng);
        proof {
            lemma_blob_row::<T, R, D>(blob_size as nat, centroid, distribution, start, r as int);
            lemma_engine_after_add::<T, R, D>(
                distribution,
                start,
                (r * centroid.len()) as nat,
                centroid.len(),
            );
            assert((r + 1) * centroid.len() == r * centroid.len() + centroid.len())
                by (nonlinear_arith);
        }
        rows.push(row);
        r += 1;
    }
    let m = Matrix { n_cols: n_features, rows };
    assert(m.grid() =~= blob::<T, R, D>(blob_size as nat, centroid, distribution, start));
    Ok(m)
}

/// The dataset of one blob of `blob_size` points around each row of
/// `centroids`, the blobs stacked in the order of their centroids: row `i` is
/// a point of the blob around centroid `i / blob_size`, and entry `(i, c)` is
/// that centroid's coordinate `c` plus one draw of its own. The draws are
/// consumed row by row and, within a row, column by column.
pub open spec fn dataset<T: Scalar, R, D: Distribution<T, R>>(
    blob_size: nat,
    centroids: Seq<Seq<T>>,
    n_features: nat,
    dist: &D,
    rng: R,
) -> Seq<Seq<T>> {
    Seq::new(
        centroids.len() * blob_size,
        |i: int|
            Seq::new(
                n_features,
                |c: int|
                    centroids[i / (blob_size as int)][c].sum(
                        draw::<T, R, D>(dist, rng, (i * n_features + c) as nat),
                    ),
            ),
    )
}

/// The shape of the dataset of blobs of `blob_size` points around
/// `centroids`, rows first, or the reason why there is none.
///
/// Centroids without a feature column, or with a row of another length than
/// `n_cols`, give `InvalidShape`; else a number of rows that does not fit in
/// a `usize` gives `InvalidSize`.
pub open spec fn shape_of_dataset<T>(blob_size: usize, centroids: &Matrix<T>) -> Result<
    (usize, usize),
    BlobError,
> {
    if centroids.n_cols == 0 || !centroids.well_formed() {
        Err(BlobError::InvalidShape)
    } else if centroids.rows@.len() * blob_size > usize::MAX {
        Err(BlobError::InvalidSize)
    } else {
        Ok(((centroids.rows@.len() * blob_size) as usize, centroids.n_cols))
    }
}

/// What [`blobs_with_distribution`] does with an engine in state `before`.
///
/// Where the dataset has no shape, the reason is returned and the engine is
/// left alone. Every other input gives the dataset, of that shape, and
/// leaves the engine after one draw for each entry.
pub open spec fn generates<T: Scalar, R, D: Distribution<T, R>>(
    blob_size: usize,
    centroids: &Matrix<T>,
    dist: &D,
    before: R,
    out: Result<Matrix<T>, BlobError>,
    after: R,
) -> bool {
    match shape_of_dataset(blob_size, centroids) {
        Err(e) => out == Err::<Matrix<T>, BlobError>(e) && after == before,
        Ok((n_rows, n_cols)) => {
            &&& out matches Ok(m)
            &&& m.n_cols == n_cols
            &&& m.well_formed()
            &&& m.grid().len() == n_rows
            &&& m.grid() == dataset::<T, R, D>(
                blob_size as nat,
                centroids.grid(),
                n_cols as nat,
                dist,
                before,
            )
            &&& after == engine_after::<T, R, D>(dist, before, (n_rows * n_cols) as nat)
        },
    }
}

/// Checks the centroids and the size of the blobs, and tells the shape of
/// the dataset that they ask for: `blob_size` rows for each centroid, and the
/// centroids' number of columns, whether or not there is a centroid to read it
/// from.
pub fn dataset_shape<T>(blob_size: usize, blob_centroids: &Matrix<T>) -> (out: Result<
    (usize, usize),
    BlobError,
>)
    ensures
        out == shape_of_dataset(blob_size, blob_centroids),
{
    if blob_centroids.n_cols == 0 || !blob_centroids.is_rectangular() {
        return Err(BlobError::InvalidShape);
    }
    match blob_centroids.rows.len().checked_mul(blob_size) {
        Some(n_rows) => Ok((n_rows, blob_centroids.n_cols)),
        None => Err(BlobError::InvalidSize),
    }
}

/// Given `blob_centroids`, one centroid in each row, generates `blob_size`
/// points (a blob) around each of them and stacks the blobs in the order of
/// their centroids: rows `i * blob_size .. (i + 1) * blob_size` of the result
/// are the blob around centroid `i`.
///
/// The distribution is borrowed for each blob in turn and never consumed.
pub fn blobs_with_distribution<T: Scalar, R, D: Distribution<T, R>>(
    blob_size: usize,
    blob_centroids: &Matrix<T>,
    distribution: D,
    rng: &mut R,
) -> (out: Result<Matrix<T>, BlobError>)
    ensures
        generates::<T, R, D>(blob_size, blob_centroids, &distribution, *old(rng), out, *final(rng)),
{
    let n_features = match dataset_shape(blob_size, blob_centroids) {
        Ok((_, n_cols)) => n_cols,
        Err(e) => {
            return Err(e);
        },
    };
    let n_centroids = blob_centroids.rows.len();
    let ghost start = *rng;
    let ghost centroids = blob_centroids.grid();
    let mut rows: Vec<Vec<T>> = Vec::new();
    let mut i: usize = 0;
    while i < n_centroids
        invariant
            i <= n_centroids,
            n_centroids == blob_centroids.rows@.len(),
            n_features == blob_centroids.n_cols,
            n_features > 0,
            blob_centroids.well_formed(),
            centroids == blob_centroids.grid(),
            n_centroids * blob_size <= usize::MAX,
            rows@.len() == i * blob_size <= n_centroids * blob_size,
            forall|k: int|
                0 <= k < rows@.len() ==> (#[trigger] rows@[k])@ == dataset::<T, R, D>(
                    blob_size as nat,
                    centroids,
                    n_features as nat,
                    &distribution,
                    start,
                )[k],
            *rng == engine_after::<T, R, D>(
                &distribution,
                start,
                (i * blob_size * n_features) as nat,
            ),
        decreases n_centroids - i,
    {
        match make_blob(blob_size, &blob_centroids.rows[i], &distribution, rng) {
            Ok(mut blob) => {
                proof {
                    let whole = dataset::<T, R, D>(
                        blob_size as nat,
                        centroids,
                        n_features as nat,
                        &distribution,
                        start,
                    );
                    let added = blob.rows@;
                    lemma_dataset_block::<T, R, D>(
                        blob_size as nat,
                        centroids,
                        n_features as nat,
                        &distribution,
                        start,
                        i as int,
                    );
                    lemma_engine_after_add::<T, R, D>(
                        &distribution,
                        start,
                        (i * blob_size * n_features) as nat,
                        blob_size as nat * n_features as nat,
                    );
                    assert((i + 1) * blob_size * n_features == i * blob_size * n_features
                        + blob_size * n_features) by (nonlinear_arith);
                    assert(blob.grid().len() == blob_size);
                    assert forall|r: int| 0 <= r < blob_size implies (#[trigger] added[r])@
                        == whole[i * blob_size + r] by {
                        assert(whole.subrange(i * blob_size, (i + 1) * blob_size)[r]
                            == whole[i * blob_size + r]);
                    }
                }
                rows.append(&mut blob.rows);
            },
            // A row of well-formed centroids with a column is never refused.
            Err(e) => {
                return Err(e);
            },
        }
        i += 1;
    }
    let m = Matrix { n_cols: n_features, rows };
    assert(m.grid() =~= dataset::<T, R, D>(
        blob_size as nat,
        centroids,
        n_features as nat,
        &distribution,
        start,
    ));
    Ok(m)
}

/// The special case of [`blobs_with_distribution`] with the standard normal
/// distribution.
pub fn blobs<T: Scalar, R>(
    blob_size: usize,
    blob_centroids: &Matrix<T>,
    rng: &mut R,
) -> (out: Result<Matrix<T>, BlobError>) where StandardNormal: Distribution<T, R>
    ensures
        generates::<T, R, StandardNormal>(
            blob_size,
            blob_centroids,
            &StandardNormal,
            *old(rng),
            out,
            *final(rng),
        ),
{
    blobs_with_distribution(blob_size, blob_centroids, StandardNormal, rng)
}

/// Rows `i * blob_size .. (i + 1) * blob_size` of a dataset are the blob
/// around centroid `i`, drawn by an engine that has made the draws of the
/// blobs before it.
pub proof fn lemma_dataset_block<T: Scalar, R, D: Distribution<T, R>>(
    blob_size: nat,
    centroids: Seq<Seq<T>>,
    n_features: nat,
    dist: &D,
    rng: R,
    i: int,
)
    requires
        0 <= i < centroids.len(),
        centroids[i].len() == n_features,
    ensures
        0 <= i * blob_size <= (i + 1) * blob_size <= centroids.len() * blob_size,
        dataset::<T, R, D>(blob_size, centroids, n_features, dist, rng).subrange(
            i * blob_size,
            (i + 1) * blob_size,
        ) == blob::<T, R, D>(
            blob_size,
            centroids[i],
            dist,
            engine_after::<T, R, D>(dist, rng, (i * blob_size * n_features) as nat),
        ),
{
    let whole = dataset::<T, R, D>(blob_size, centroids, n_features, dist, rng);
    let skipped = (i * blob_size * n_features) as nat;
    let part = blob::<T, R, D>(
        blob_size,
        centroids[i],
        dist,
        engine_after::<T, R, D>(dist, rng, skipped),
    );
    assert(0 <= i * blob_size <= (i + 1) * blob_size <= centroids.len() * blob_size
        && (i + 1) * blob_size == i * blob_size + blob_size
        && i * blob_size * n_features >= 0) by (nonlinear_arith)
        requires
            0 <= i < centroids.len(),
    ;
    let block = whole.subrange(i * blob_size, (i + 1) * blob_size);
    assert forall|r: int| 0 <= r < blob_size implies #[trigger] block[r] == part[r] by {
        let row = i * blob_size + r;
        assert(row / (blob_size as int) == i) by (nonlinear_arith)
            requires
                row == i * blob_size + r,
                0 <= r < blob_size,
        ;
        assert(row * n_features == i * blob_size * n_features + r * n_features
            && r * n_features >= 0) by (nonlinear_arith)
            requires
                row == i * blob_size + r,
                0 <= r,
        ;
        assert forall|c: int| 0 <= c < n_features implies #[trigger] block[r][c] == part[r][c] by {
            lemma_draw_add::<T, R, D>(dist, rng, skipped, (r * n_features + c) as nat);
        }
    }
}

/// A blob has one row for each point and one column for each coordinate of
/// the centroid; with `blob_size == 0` it has no rows, and no draw is made.
pub proof fn lemma_blob_shape<T: Scalar, R, D: Distribution<T, R>>(
    blob_size: usize,
    centroid: Seq<T>,
    dist: &D,
    before: R,
    out: Result<Matrix<T>, BlobError>,
    after: R,
)
    requires
        centroid.len() >= 1,
        samples::<T, R, D>(blob_size, centroid, dist, before, out, after),
    ensures
        out is Ok,
        out->Ok_0.grid().len() == blob_size,
        out->Ok_0.n_cols == centroid.len(),
        forall|r: int|
            0 <= r < blob_size ==> (#[trigger] out->Ok_0.grid()[r]).len() == centroid.len(),
        blob_size == 0 ==> after == before,
{
    if blob_size == 0 {
        assert(0nat * centroid.len() == 0) by (nonlinear_arith);
    }
}

/// A dataset has `blob_size` rows for each centroid and as many columns as
/// the centroids have, whenever the centroids are well formed with at least
/// one column and the number of rows fits in a `usize`.
pub proof fn lemma_rows_and_columns<T: Scalar, R, D: Distribution<T, R>>(
    blob_size: usize,
    centroids: &Matrix<T>,
    dist: &D,
    before: R,
    out: Result<Matrix<T>, BlobError>,
    after: R,
)
    requires
        centroids.n_cols >= 1,
        centroids.well_formed(),
        blob_size * centroids.grid().len() <= usize::MAX,
        generates::<T, R, D>(blob_size, centroids, dist, before, out, after),
    ensures
        out is Ok,
        out->Ok_0.grid().len() == blob_size * centroids.grid().len(),
        out->Ok_0.n_cols == centroids.n_cols,
        forall|i: int|
            0 <= i < out->Ok_0.grid().len() ==> (#[trigger] out->Ok_0.grid()[i]).len()
                == centroids.n_cols,
{
    assert(blob_size * centroids.grid().len() == centroids.rows@.len() * blob_size)
        by (nonlinear_arith)
        requires
            centroids.grid().len() == centroids.rows@.len(),
    ;
}

/// With `blob_size == 0` the dataset has no rows and keeps the centroids'
/// number of columns, and no draw is made.
pub proof fn lemma_empty_blobs<T: Scalar, R, D: Distribution<T, R>>(
    centroids: &Matrix<T>,
    dist: &D,
    before: R,
    out: Result<Matrix<T>, BlobError>,
    after: R,
)
    requires
        centroids.n_cols >= 1,
        centroids.well_formed(),
        generates::<T, R, D>(0, centroids, dist, before, out, after),
    ensures
        out is Ok,
        out->Ok_0.grid().len() == 0,
        out->Ok_0.n_cols == centroids.n_cols,
        after == before,
{
    assert(centroids.rows@.len() * 0 * centroids.n_cols == 0) by (nonlinear_arith);
}

/// Without centroids the dataset has no rows and keeps the stated number of
/// columns, though there is no row to read it from, and no draw is made.
pub proof fn lemma_no_centroids<T: Scalar, R, D: Distribution<T, R>>(
    blob_size: usize,
    centroids: &Matrix<T>,
    dist: &D,
    before: R,
    out: Result<Matrix<T>, BlobError>,
    after: R,
)
    requires
        centroids.n_cols >= 1,
        centroids.grid().len() == 0,
        generates::<T, R, D>(blob_size, centroids, dist, before, out, after),
    ensures
        out is Ok,
        out->Ok_0.grid().len() == 0,
        out->Ok_0.n_cols == centroids.n_cols,
        after == before,
{
    assert(0 * blob_size * centroids.n_cols == 0) by (nonlinear_arith);
}

/// Generation is a function of its inputs and of the engine's state: two
/// runs on the same inputs, from the same state, end alike. Both succeed or
/// both fail with the same error, the datasets agree entry by entry, and the
/// engines are left in the same state.
///
/// [`blobs`] is a run of [`blobs_with_distribution`] with
/// [`StandardNormal`], so the two agree as well.
pub proof fn lemma_same_state_same_dataset<T: Scalar, R, D: Distribution<T, R>>(
    blob_size: usize,
    centroids: &Matrix<T>,
    dist: &D,
    before: R,
    first: Result<Matrix<T>, BlobError>,
    first_after: R,
    second: Result<Matrix<T>, BlobError>,
    second_after: R,
)
    requires
        generates::<T, R, D>(blob_size, centroids, dist, before, first, first_after),
        generates::<T, R, D>(blob_size, centroids, dist, before, second, second_after),
    ensures
        first_after == second_after,
        first is Ok <==> second is Ok,
        first is Err ==> first->Err_0 == second->Err_0,
        first is Ok ==> first->Ok_0.n_cols == second->Ok_0.n_cols && first->Ok_0.grid()
            == second->Ok_0.grid(),
{
}

/// Two blobs drawn around the same centroid, from the same state of the
/// engine, end alike.
pub proof fn lemma_same_state_same_blob<T: Scalar, R, D: Distribution<T, R>>(
    blob_size: usize,
    centroid: Seq<T>,
    dist: &D,
    before: R,
    first: Result<Matrix<T>, BlobError>,
    first_after: R,
    second: Result<Matrix<T>, BlobError>,
    second_after: R,
)
    requires
        samples::<T, R, D>(blob_size, centroid, dist, before, first, first_after),
        samples::<T, R, D>(blob_size, centroid, dist, before, second, second_after),
    ensures
        first_after == second_after,
        first is Ok <==> second is Ok,
        first is Err ==> first->Err_0 == second->Err_0,
        first is Ok ==> first->Ok_0.n_cols == second->Ok_0.n_cols && first->Ok_0.grid()
            == second->Ok_0.grid(),
{
}

/// With a single centroid, generating the dataset is sampling one blob
/// around that centroid: whatever one of the two may return and leave the
/// engine in, the other may too.
pub proof fn lemma_single_centroid<T: Scalar, R, D: Distribution<T, R>>(
    blob_size: usize,
    centroids: &Matrix<T>,
    dist: &D,
    before: R,
    out: Result<Matrix<T>, BlobError>,
    after: R,
)
    requires
        centroids.well_formed(),
        centroids.grid().len() == 1,
    ensures
        generates::<T, R, D>(blob_size, centroids, dist, before, out, after)
            <==> samples::<T, R, D>(blob_size, centroids.grid()[0], dist, before, out, after),
{
    let centroid = centroids.grid()[0];
    if centroids.n_cols > 0 {
        let whole = dataset::<T, R, D>(
            blob_size as nat,
            centroids.grid(),
            centroids.n_cols as nat,
            dist,
            before,
        );
        lemma_dataset_block::<T, R, D>(
            blob_size as nat,
            centroids.grid(),
            centroids.n_cols as nat,
            dist,
            before,
            0,
        );
        assert(whole.subrange(0, blob_size as int) =~= whole);
        assert(1 * blob_size * centroids.n_cols == blob_size as nat * centroid.len())
            by (nonlinear_arith)
            requires
                centroid.len() == centroids.n_cols,
        ;
    }
}

} // verus!
