//! The tail of a pipeline run: once decoding and dispatch are done, check
//! the result count, restore temporal order, and assemble the final image.
//! Everything here is pure; the caller only drains its worker results into a
//! vector first.

use vstd::prelude::*;
use crate::assemble::{assemble, Image};
use crate::collect::{collect_results, column_colours, sorted_by_index};
use crate::colour::IndexedColumn;
use crate::error::PipelineError;

verus! {

/// Every column in the sequence has the height of the first.
pub open spec fn uniform_heights(sorted: Seq<IndexedColumn>) -> bool {
    forall|j: int|
        0 <= j < sorted.len() ==> (#[trigger] sorted[j]).column@.len()
            == sorted[0].column@.len()
}

/// `img` is the barcode image of the ordered results `sorted`: one column
/// per result, laid out left to right, each pixel read back from the column
/// it came from.
pub open spec fn image_of(img: Image, sorted: Seq<IndexedColumn>) -> bool {
    &&& sorted.len() >= 1
    &&& img.width == sorted.len()
    &&& img.height == sorted[0].column@.len()
    &&& uniform_heights(sorted)
    &&& img.data@.len() == 3 * img.width * img.height
    &&& forall|i: int, j: int|
        #![trigger sorted[j].column@[i]]
        0 <= i < img.height && 0 <= j < img.width ==> {
            &&& img.data@[3 * (i * img.width + j)] == sorted[j].column@[i].r
            &&& img.data@[3 * (i * img.width + j) + 1] == sorted[j].column@[i].g
            &&& img.data@[3 * (i * img.width + j) + 2] == sorted[j].column@[i].b
        }
}

/// Finishes a run: checks that exactly `expected` results arrived, sorts
/// them by frame index, and transposes the columns into the final image.
///
/// On success the image is the one assembled from some temporal ordering of
/// exactly the given results; when no two results share a frame index that
/// ordering — and so the image — is unique, whatever completion order the
/// workers produced (see `lemma_collection_order_independent`). Every
/// failure is reported and nothing is assembled: a wrong result count, a run
/// that submitted no job at all, or columns of unequal height.
pub fn finish_run(results: Vec<IndexedColumn>, expected: usize) -> (r: Result<
    Image,
    PipelineError,
>)
    ensures
        match r {
            Ok(img) => {
                &&& results@.len() == expected
                &&& expected >= 1
                &&& exists|sorted: Seq<IndexedColumn>|
                    {
                        &&& #[trigger] sorted.to_multiset() == results@.to_multiset()
                        &&& sorted_by_index(sorted)
                        &&& image_of(img, sorted)
                    }
            },
            Err(e) => {
                ||| (e == PipelineError::ResultCountMismatch && results@.len() != expected)
                ||| (e == PipelineError::EmptyColumnSet && results@.len() == expected
                    && expected == 0)
                ||| (e == PipelineError::ColumnHeightMismatch && results@.len() == expected
                    && exists|sorted: Seq<IndexedColumn>|
                    {
                        &&& #[trigger] sorted.to_multiset() == results@.to_multiset()
                        &&& sorted_by_index(sorted)
                        &&& !uniform_heights(sorted)
                    })
            },
        },
{
    let sorted = match collect_results(results, expected) {
        Ok(sorted) => sorted,
        Err(e) => {
            return Err(e);
        },
    };
    let ghost sorted_seq = sorted@;
    let cols = column_colours(sorted);
    match assemble(&cols) {
        Ok(img) => {
            proof {
                assert(image_of(img, sorted_seq)) by {
                    assert(forall|j: int|
                        0 <= j < sorted_seq.len() ==> (#[trigger] cols@[j])@
                            == sorted_seq[j].column@);
                    assert forall|i: int, j: int|
                        #![trigger sorted_seq[j].column@[i]]
                        0 <= i < img.height && 0 <= j < img.width implies {
                        &&& img.data@[3 * (i * img.width + j)] == sorted_seq[j].column@[i].r
                        &&& img.data@[3 * (i * img.width + j) + 1] == sorted_seq[j].column@[i].g
                        &&& img.data@[3 * (i * img.width + j) + 2] == sorted_seq[j].column@[i].b
                    } by {
                        assert(cols@[j]@[i] == sorted_seq[j].column@[i]);
                    }
                    assert forall|j: int|
                        0 <= j < sorted_seq.len() implies (#[trigger] sorted_seq[j]).column@.len()
                        == sorted_seq[0].column@.len() by {
                        assert(cols@[j]@ == sorted_seq[j].column@);
                        assert(cols@[0]@ == sorted_seq[0].column@);
                    }
                }
            }
            Ok(img)
        },
        Err(e) => {
            proof {
                if e == PipelineError::ColumnHeightMismatch {
                    assert(!uniform_heights(sorted_seq)) by {
                        assert(forall|j: int|
                            0 <= j < sorted_seq.len() ==> (#[trigger] cols@[j])@
                                == sorted_seq[j].column@);
                        if uniform_heights(sorted_seq) {
                            assert forall|k: int|
                                0 <= k < cols@.len() implies (#[trigger] cols@[k])@.len()
                                == cols@[0]@.len() by {
                                assert(cols@[k]@ == sorted_seq[k].column@);
                                assert(cols@[0]@ == sorted_seq[0].column@);
                                assert(sorted_seq[k].column@.len()
                                    == sorted_seq[0].column@.len());
                            }
                        }
                    }
                }
            }
            Err(e)
        },
    }
}

} // verus!
