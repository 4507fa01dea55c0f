//! The public path extractor: percent-decoding, UTF-8 validation and
//! deserialization of a request's capture store.

use crate::deser::{deserialize, spec_decode};
use crate::errors::{
    ErrorKind, ErrorKindView, FailedToDeserializePathParams, PathDeserializationError,
};
use crate::shape::{Decoded, DecodedView, Target, TargetView};
use crate::store::{pairs_view, CaptureStore};
use crate::text::{decoded_chars, decoded_value, decodes_cleanly};
use vstd::prelude::*;

verus! {

/// Extractor for typed values out of the URL path captures.
///
/// Percent-encoded parameters are decoded first; the decoded parameters
/// must be valid UTF-8, otherwise extraction fails with a `400 Bad
/// Request` rejection.
#[derive(Debug)]
pub struct Path<T>(pub T);

/// First capture at or after `i` whose raw value does not percent-decode
/// to valid UTF-8; `entries.len()` when all remaining values decode.
pub open spec fn first_undecodable(entries: Seq<(Seq<char>, Seq<char>)>, i: int) -> int
    recommends
        0 <= i <= entries.len(),
    decreases entries.len() - i,
{
    if i < 0 || i >= entries.len() {
        entries.len() as int
    } else if !decodes_cleanly(entries[i].1) {
        i
    } else {
        first_undecodable(entries, i + 1)
    }
}

proof fn lemma_first_undecodable(entries: Seq<(Seq<char>, Seq<char>)>, i: int)
    requires
        0 <= i <= entries.len(),
        forall|j: int| 0 <= j < i ==> decodes_cleanly(#[trigger] entries[j].1),
    ensures
        first_undecodable(entries, 0) == first_undecodable(entries, i),
    decreases i,
{
    if i > 0 {
        lemma_first_undecodable(entries, i - 1);
    }
}

/// The capture entries with each value percent-decoded, assuming all of
/// them decode cleanly.
pub open spec fn decoded_pairs(entries: Seq<(Seq<char>, Seq<char>)>) -> Seq<
    (Seq<char>, Seq<char>),
> {
    Seq::new(entries.len(), |i: int| (entries[i].0, decoded_chars(entries[i].1)))
}

/// What extracting the raw capture entries into the shape `t` yields: the
/// first invalid-UTF-8 capture short-circuits before deserialization;
/// otherwise the decoded captures are deserialized per
/// [`spec_decode`].
pub open spec fn spec_extract(entries: Seq<(Seq<char>, Seq<char>)>, t: TargetView) -> Result<
    DecodedView,
    ErrorKindView,
> {
    let fu = first_undecodable(entries, 0);
    if fu < entries.len() {
        Err(ErrorKindView::InvalidUtf8InPathParam { key: entries[fu].0 })
    } else {
        spec_decode(decoded_pairs(entries), t)
    }
}

impl Path<Decoded> {
    /// Extract the request's captures into the shape `target`, exactly as
    /// [`spec_extract`] lays down. The store is only read: extraction
    /// never mutates captured state.
    pub fn from_captures(store: &CaptureStore, target: &Target) -> (r: Result<
        Path<Decoded>,
        FailedToDeserializePathParams,
    >)
        ensures
            r matches Ok(p) ==> spec_extract(store@, target@) == Ok::<
                DecodedView,
                ErrorKindView,
            >(p.0@),
            r matches Err(e) ==> spec_extract(store@, target@) == Err::<
                DecodedView,
                ErrorKindView,
            >(e@),
    {
        let n = store.len();
        let mut params: Vec<(String, String)> = Vec::new();
        let mut i: usize = 0;
        while i < n
            invariant
                n == store@.len(),
                i <= n,
                params@.len() == i,
                forall|j: int|
                    0 <= j < i ==> decodes_cleanly(#[trigger] store@[j].1) && pairs_view(params@)[j]
                        == (store@[j].0, decoded_chars(store@[j].1)),
            decreases n - i,
        {
            let p = store.entry(i);
            match decoded_value(&p.1) {
                Some(dv) => {
                    params.push((p.0, dv));
                },
                None => {
                    proof {
                        lemma_first_undecodable(store@, i as int);
                    }
                    return Err(
                        FailedToDeserializePathParams(
                            PathDeserializationError::new(
                                ErrorKind::InvalidUtf8InPathParam { key: p.0 },
                            ),
                        ),
                    );
                },
            }
            i += 1;
        }
        proof {
            lemma_first_undecodable(store@, n as int);
            assert(pairs_view(params@) =~= decoded_pairs(store@));
        }
        match deserialize(&params, target) {
            Ok(d) => Ok(Path(d)),
            Err(e) => Err(FailedToDeserializePathParams(e)),
        }
    }
}

} // verus!
