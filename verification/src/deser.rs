//! The path deserializer: decoding a decoded capture list into a target
//! shape, with the exact error taxonomy of [`crate::errors`].
//!
//! The decoder works on captures whose values are already percent-decoded
//! and validated (see [`crate::extract`]); it consumes them in store order
//! for positional shapes and by name for records.

use crate::errors::{ErrorKind, ErrorKindView, PathDeserializationError};
use crate::shape::{
    spec_elem_name, Decoded, DecodedView, ElemType, ElemTypeView, PrimValue, PrimValueView,
    Target, TargetView,
};
use crate::store::{has_key, lemma_lookup_first, lookup, pairs_view};
use vstd::prelude::*;
use vstd::string::StringExecFns;

verus! {

/// True when `c` is a decimal digit.
pub open spec fn is_digit(c: char) -> bool {
    0x30 <= (c as u32) <= 0x39
}

/// Numeric value of the digit `c`.
pub open spec fn digit_value(c: char) -> int {
    (c as u32) - 0x30
}

/// Value of `s` read as a decimal numeral, most significant digit first.
pub open spec fn digits_value(s: Seq<char>) -> int
    decreases s.len(),
{
    if s.len() == 0 {
        0
    } else {
        digits_value(s.drop_last()) * 10 + digit_value(s.last())
    }
}

/// True when every character of `s` is a decimal digit.
pub open spec fn all_digits(s: Seq<char>) -> bool {
    forall|i: int| 0 <= i < s.len() ==> is_digit(s[i])
}

/// True when `s` is a non-empty run of digits whose value fits in `u64`.
pub open spec fn parses_as_u64(s: Seq<char>) -> bool {
    s.len() > 0 && all_digits(s) && digits_value(s) <= u64::MAX
}

proof fn lemma_digits_nonneg(s: Seq<char>)
    requires
        all_digits(s),
    ensures
        digits_value(s) >= 0,
    decreases s.len(),
{
    if s.len() > 0 {
        let t = s.drop_last();
        assert(all_digits(t)) by {
            assert(forall|i: int| 0 <= i < t.len() ==> t[i] == s[i]);
        }
        lemma_digits_nonneg(t);
        assert(is_digit(s.last()));
    }
}

/// A digit run is worth at least any of its prefixes.
proof fn lemma_digits_prefix(s: Seq<char>, k: int)
    requires
        all_digits(s),
        0 <= k <= s.len(),
    ensures
        digits_value(s.take(k)) <= digits_value(s),
    decreases s.len() - k,
{
    if k == s.len() {
        assert(s.take(k) =~= s);
    } else {
        let a = s.take(k);
        let b = s.take(k + 1);
        assert(b.drop_last() =~= a);
        assert(b.last() == s[k]);
        assert(all_digits(a)) by {
            assert(forall|i: int| 0 <= i < a.len() ==> a[i] == s[i]);
        }
        lemma_digits_nonneg(a);
        assert(is_digit(s[k]));
        assert(digits_value(b) == digits_value(a) * 10 + digit_value(s[k]));
        lemma_digits_prefix(s, k + 1);
    }
}

/// Parse `s` as an unsigned decimal numeral; `None` exactly when `s` is
/// empty, holds a non-digit, or exceeds `u64::MAX`.
pub fn parse_u64(s: &String) -> (r: Option<u64>)
    ensures
        r is Some <==> parses_as_u64(s@),
        r matches Some(v) ==> v as int == digits_value(s@),
{
    let st = s.as_str();
    let n = st.unicode_len();
    if n == 0 {
        return None;
    }
    let mut acc: u64 = 0;
    let mut i: usize = 0;
    proof {
        assert(s@.take(0) =~= Seq::<char>::empty());
    }
    while i < n
        invariant
            st@ == s@,
            n == s@.len(),
            i <= n,
            all_digits(s@.take(i as int)),
            acc as int == digits_value(s@.take(i as int)),
        decreases n - i,
    {
        let c = st.get_char(i);
        let d32 = c as u32;
        if d32 < 0x30 || d32 > 0x39 {
            proof {
                assert(!is_digit(s@[i as int]));
                assert(!all_digits(s@));
            }
            return None;
        }
        let d = (d32 - 0x30) as u64;
        proof {
            assert(s@.take(i as int + 1).drop_last() =~= s@.take(i as int));
            assert(s@.take(i as int + 1).last() == s@[i as int]);
            assert(all_digits(s@.take(i as int + 1))) by {
                assert(forall|j: int|
                    0 <= j < i as int + 1 ==> s@.take(i as int + 1)[j] == s@[j]);
            }
            assert(digits_value(s@.take(i as int + 1)) == (acc as int) * 10 + d);
        }
        let m = match acc.checked_mul(10) {
            Some(m) => m,
            None => {
                proof {
                    if parses_as_u64(s@) {
                        lemma_digits_prefix(s@, i as int + 1);
                    }
                }
                return None;
            },
        };
        let acc2 = match m.checked_add(d) {
            Some(v) => v,
            None => {
                proof {
                    if parses_as_u64(s@) {
                        lemma_digits_prefix(s@, i as int + 1);
                    }
                }
                return None;
            },
        };
        acc = acc2;
        i += 1;
    }
    proof {
        assert(s@.take(n as int) =~= s@);
    }
    Some(acc)
}

/// True when the decoded value `v` parses at a position of type `t`; an
/// unsupported position never parses.
pub open spec fn prim_ok(t: ElemTypeView, v: Seq<char>) -> bool {
    match t {
        ElemTypeView::U64 => parses_as_u64(v),
        ElemTypeView::Text => true,
        ElemTypeView::Unsupported { .. } => false,
    }
}

/// The primitive that `v` parses to at a position of type `t`.
pub open spec fn prim_val(t: ElemTypeView, v: Seq<char>) -> PrimValueView {
    match t {
        ElemTypeView::U64 => PrimValueView::U64(digits_value(v) as u64),
        _ => PrimValueView::Text(v),
    }
}

/// Parse one decoded capture value at a position of type `t`.
fn parse_prim(t: &ElemType, value: &String) -> (r: Option<PrimValue>)
    ensures
        r is Some <==> prim_ok(t@, value@),
        r matches Some(v) ==> v@ == prim_val(t@, value@),
{
    match t {
        ElemType::U64 => match parse_u64(value) {
            Some(v) => Some(PrimValue::U64(v)),
            None => None,
        },
        ElemType::Text => Some(PrimValue::Text(value.clone())),
        ElemType::Unsupported { .. } => None,
    }
}

/// First position at or after `i` whose element does not parse;
/// `tys.len()` when all remaining positions parse.
pub open spec fn seq_first_bad(
    tys: Seq<ElemTypeView>,
    ps: Seq<(Seq<char>, Seq<char>)>,
    i: int,
) -> int
    recommends
        ps.len() == tys.len(),
        0 <= i <= tys.len(),
    decreases tys.len() - i,
{
    if i < 0 || i >= tys.len() {
        tys.len() as int
    } else if !prim_ok(tys[i], ps[i].1) {
        i
    } else {
        seq_first_bad(tys, ps, i + 1)
    }
}

proof fn lemma_seq_first_bad(tys: Seq<ElemTypeView>, ps: Seq<(Seq<char>, Seq<char>)>, i: int)
    requires
        0 <= i <= tys.len(),
        forall|j: int| 0 <= j < i ==> prim_ok(tys[j], #[trigger] ps[j].1),
    ensures
        seq_first_bad(tys, ps, 0) == seq_first_bad(tys, ps, i),
    decreases i,
{
    if i > 0 {
        lemma_seq_first_bad(tys, ps, i - 1);
    }
}

/// First capture at or after `i` whose value does not parse as `t`;
/// `ps.len()` when all remaining values parse.
pub open spec fn map_first_bad(t: ElemTypeView, ps: Seq<(Seq<char>, Seq<char>)>, i: int) -> int
    recommends
        0 <= i <= ps.len(),
    decreases ps.len() - i,
{
    if i < 0 || i >= ps.len() {
        ps.len() as int
    } else if !prim_ok(t, ps[i].1) {
        i
    } else {
        map_first_bad(t, ps, i + 1)
    }
}

proof fn lemma_map_first_bad(t: ElemTypeView, ps: Seq<(Seq<char>, Seq<char>)>, i: int)
    requires
        0 <= i <= ps.len(),
        forall|j: int| 0 <= j < i ==> prim_ok(t, #[trigger] ps[j].1),
    ensures
        map_first_bad(t, ps, 0) == map_first_bad(t, ps, i),
    decreases i,
{
    if i > 0 {
        lemma_map_first_bad(t, ps, i - 1);
    }
}

/// True when the field `f` decodes against the captures `ps`: its name is
/// captured and the captured value parses as the field's type.
pub open spec fn field_ok(f: (Seq<char>, ElemTypeView), ps: Seq<(Seq<char>, Seq<char>)>) -> bool {
    has_key(ps, f.0) && prim_ok(f.1, lookup(ps, f.0))
}

/// First field at or after `j` that does not decode; `fields.len()` when
/// all remaining fields decode.
pub open spec fn record_first_bad(
    fields: Seq<(Seq<char>, ElemTypeView)>,
    ps: Seq<(Seq<char>, Seq<char>)>,
    j: int,
) -> int
    recommends
        0 <= j <= fields.len(),
    decreases fields.len() - j,
{
    if j < 0 || j >= fields.len() {
        fields.len() as int
    } else if !field_ok(fields[j], ps) {
        j
    } else {
        record_first_bad(fields, ps, j + 1)
    }
}

proof fn lemma_record_first_bad(
    fields: Seq<(Seq<char>, ElemTypeView)>,
    ps: Seq<(Seq<char>, Seq<char>)>,
    j: int,
)
    requires
        0 <= j <= fields.len(),
        forall|k: int| 0 <= k < j ==> field_ok(#[trigger] fields[k], ps),
    ensures
        record_first_bad(fields, ps, 0) == record_first_bad(fields, ps, j),
    decreases j,
{
    if j > 0 {
        lemma_record_first_bad(fields, ps, j - 1);
    }
}

/// The error reported for the undecodable field `f`: an unsupported field
/// type outranks a missing capture, which outranks a parse failure.
pub open spec fn record_field_error(
    f: (Seq<char>, ElemTypeView),
    ps: Seq<(Seq<char>, Seq<char>)>,
) -> ErrorKindView {
    match f.1 {
        ElemTypeView::Unsupported { name } => ErrorKindView::UnsupportedType { name },
        _ => if !has_key(ps, f.0) {
            ErrorKindView::Message("missing field `"@ + f.0 + "`"@)
        } else {
            ErrorKindView::ParseErrorAtKey {
                key: f.0,
                value: lookup(ps, f.0),
                expected_type: spec_elem_name(f.1),
            }
        },
    }
}

/// What decoding the captures `ps` into the target shape `t` yields:
/// either the decoded value or the error kind the attempt fails with.
pub open spec fn spec_decode(ps: Seq<(Seq<char>, Seq<char>)>, t: TargetView) -> Result<
    DecodedView,
    ErrorKindView,
> {
    match t {
        TargetView::Scalar(ty) => if ps.len() != 1 {
            Err(ErrorKindView::WrongNumberOfParameters { got: ps.len() as int, expected: 1 })
        } else if ty matches ElemTypeView::Unsupported { name } {
            Err(ErrorKindView::UnsupportedType { name: ty->name })
        } else if !prim_ok(ty, ps[0].1) {
            Err(ErrorKindView::ParseError { value: ps[0].1, expected_type: spec_elem_name(ty) })
        } else {
            Ok(DecodedView::Scalar(prim_val(ty, ps[0].1)))
        },
        TargetView::Sequence(tys) => if ps.len() != tys.len() {
            Err(ErrorKindView::WrongNumberOfParameters {
                got: ps.len() as int,
                expected: tys.len() as int,
            })
        } else {
            let fb = seq_first_bad(tys, ps, 0);
            if fb == tys.len() {
                Ok(DecodedView::Sequence(Seq::new(tys.len(), |i: int| prim_val(tys[i], ps[i].1))))
            } else if tys[fb] matches ElemTypeView::Unsupported { name } {
                Err(ErrorKindView::UnsupportedType { name: tys[fb]->name })
            } else {
                Err(ErrorKindView::ParseErrorAtIndex {
                    index: fb,
                    value: ps[fb].1,
                    expected_type: spec_elem_name(tys[fb]),
                })
            }
        },
        TargetView::KeyedMap(ty) => if ty matches ElemTypeView::Unsupported { name } {
            Err(ErrorKindView::UnsupportedType { name: ty->name })
        } else {
            let fb = map_first_bad(ty, ps, 0);
            if fb == ps.len() {
                Ok(DecodedView::KeyedMap(
                    Seq::new(ps.len(), |i: int| (ps[i].0, prim_val(ty, ps[i].1))),
                ))
            } else {
                Err(ErrorKindView::ParseErrorAtKey {
                    key: ps[fb].0,
                    value: ps[fb].1,
                    expected_type: spec_elem_name(ty),
                })
            }
        },
        TargetView::Record(fields) => if ps.len() != fields.len() {
            Err(ErrorKindView::WrongNumberOfParameters {
                got: ps.len() as int,
                expected: fields.len() as int,
            })
        } else {
            let fb = record_first_bad(fields, ps, 0);
            if fb == fields.len() {
                Ok(DecodedView::Record(
                    Seq::new(
                        fields.len(),
                        |j: int| (fields[j].0, prim_val(fields[j].1, lookup(ps, fields[j].0))),
                    ),
                ))
            } else {
                Err(record_field_error(fields[fb], ps))
            }
        },
    }
}

proof fn lemma_record_first_bad_agrees(
    fields: Seq<(Seq<char>, ElemTypeView)>,
    ps1: Seq<(Seq<char>, Seq<char>)>,
    ps2: Seq<(Seq<char>, Seq<char>)>,
    j: int,
)
    requires
        0 <= j <= fields.len(),
        forall|k: Seq<char>| #[trigger] has_key(ps1, k) == has_key(ps2, k),
        forall|k: Seq<char>| #[trigger] has_key(ps1, k) ==> lookup(ps1, k) == lookup(ps2, k),
    ensures
        record_first_bad(fields, ps1, j) == record_first_bad(fields, ps2, j),
    decreases fields.len() - j,
{
    if j < fields.len() {
        assert(has_key(ps1, fields[j].0) == has_key(ps2, fields[j].0));
        lemma_record_first_bad_agrees(fields, ps1, ps2, j + 1);
    }
}

proof fn lemma_record_first_bad_all_ok(
    fields: Seq<(Seq<char>, ElemTypeView)>,
    ps: Seq<(Seq<char>, Seq<char>)>,
    j: int,
)
    requires
        0 <= j <= fields.len(),
        record_first_bad(fields, ps, j) == fields.len(),
    ensures
        forall|w: int| j <= w < fields.len() ==> field_ok(#[trigger] fields[w], ps),
    decreases fields.len() - j,
{
    if j < fields.len() {
        assert(field_ok(fields[j], ps));
        lemma_record_first_bad_all_ok(fields, ps, j + 1);
    }
}

/// Decoding into a record is independent of capture insertion order:
/// two capture lists of the same arity that bind the same keys, and bind
/// every shared key to the same value, decode to the same result.
pub proof fn lemma_record_decode_order_independent(
    fields: Seq<(Seq<char>, ElemTypeView)>,
    ps1: Seq<(Seq<char>, Seq<char>)>,
    ps2: Seq<(Seq<char>, Seq<char>)>,
)
    requires
        ps1.len() == ps2.len(),
        forall|k: Seq<char>| #[trigger] has_key(ps1, k) == has_key(ps2, k),
        forall|k: Seq<char>| #[trigger] has_key(ps1, k) ==> lookup(ps1, k) == lookup(ps2, k),
    ensures
        spec_decode(ps1, TargetView::Record(fields)) == spec_decode(
            ps2,
            TargetView::Record(fields),
        ),
{
    if ps1.len() == fields.len() {
        lemma_record_first_bad_agrees(fields, ps1, ps2, 0);
        let fb = record_first_bad(fields, ps1, 0);
        if fb == fields.len() {
            lemma_record_first_bad_all_ok(fields, ps1, 0);
            assert(Seq::new(
                fields.len(),
                |j: int| (fields[j].0, prim_val(fields[j].1, lookup(ps1, fields[j].0))),
            ) =~= Seq::new(
                fields.len(),
                |j: int| (fields[j].0, prim_val(fields[j].1, lookup(ps2, fields[j].0))),
            )) by {
                assert forall|j: int| 0 <= j < fields.len() implies (
                fields[j].0,
                prim_val(fields[j].1, lookup(ps1, fields[j].0)),
                ) == (fields[j].0, prim_val(fields[j].1, lookup(ps2, fields[j].0))) by {
                    assert(field_ok(fields[j], ps1));
                    assert(has_key(ps1, fields[j].0));
                }
            }
        } else {
            assert(record_field_error(fields[fb], ps1) == record_field_error(fields[fb], ps2))
                by {
                if has_key(ps1, fields[fb].0) {
                    assert(lookup(ps1, fields[fb].0) == lookup(ps2, fields[fb].0));
                }
            }
        }
    }
}

/// Decoding into a record does not depend on the order in which a
/// well-formed capture set was filled: two stores with unique keys that
/// hold the same entries, in whatever order, decode to the same result.
pub proof fn lemma_record_decode_permutation(
    fields: Seq<(Seq<char>, ElemTypeView)>,
    ps1: Seq<(Seq<char>, Seq<char>)>,
    ps2: Seq<(Seq<char>, Seq<char>)>,
)
    requires
        crate::store::keys_unique(ps1),
        crate::store::keys_unique(ps2),
        ps1.to_multiset() == ps2.to_multiset(),
    ensures
        spec_decode(ps1, TargetView::Record(fields)) == spec_decode(
            ps2,
            TargetView::Record(fields),
        ),
{
    broadcast use vstd::seq_lib::group_to_multiset_ensures;

    assert(ps1.len() == ps1.to_multiset().len());
    assert(ps2.len() == ps2.to_multiset().len());
    assert forall|k: Seq<char>| #[trigger] has_key(ps1, k) == has_key(ps2, k) by {
        if has_key(ps1, k) {
            let i = choose|i: int| 0 <= i < ps1.len() && ps1[i].0 == k;
            assert(ps1.contains(ps1[i]));
            assert(ps1.to_multiset().count(ps1[i]) > 0);
            assert(ps2.to_multiset().count(ps1[i]) > 0);
            assert(ps2.contains(ps1[i]));
            let j = choose|j: int| 0 <= j < ps2.len() && ps2[j] == ps1[i];
            assert(ps2[j].0 == k);
        }
        if has_key(ps2, k) {
            let i = choose|i: int| 0 <= i < ps2.len() && ps2[i].0 == k;
            assert(ps2.contains(ps2[i]));
            assert(ps2.to_multiset().count(ps2[i]) > 0);
            assert(ps1.to_multiset().count(ps2[i]) > 0);
            assert(ps1.contains(ps2[i]));
            let j = choose|j: int| 0 <= j < ps1.len() && ps1[j] == ps2[i];
            assert(ps1[j].0 == k);
        }
    }
    assert forall|k: Seq<char>| #[trigger] has_key(ps1, k) implies lookup(ps1, k) == lookup(
        ps2,
        k,
    ) by {
        let i = choose|i: int| 0 <= i < ps1.len() && ps1[i].0 == k;
        assert forall|w: int| 0 <= w < i implies ps1[w].0 != k by {
            assert(ps1[w].0 != ps1[i].0);
        }
        lemma_lookup_first(ps1, k, i);
        assert(ps1.contains(ps1[i]));
        assert(ps1.to_multiset().count(ps1[i]) > 0);
        assert(ps2.to_multiset().count(ps1[i]) > 0);
        assert(ps2.contains(ps1[i]));
        let j = choose|j: int| 0 <= j < ps2.len() && ps2[j] == ps1[i];
        assert forall|w: int| 0 <= w < j implies ps2[w].0 != k by {
            assert(ps2[w].0 != ps2[j].0);
        }
        lemma_lookup_first(ps2, k, j);
    }
    lemma_record_decode_order_independent(fields, ps1, ps2);
}

/// First value bound to `key` in `params`, scanning in order.
fn find_value(params: &Vec<(String, String)>, key: &String) -> (r: Option<String>)
    ensures
        r is Some <==> has_key(pairs_view(params@), key@),
        r matches Some(v) ==> v@ == lookup(pairs_view(params@), key@),
{
    let n = params.len();
    let mut i: usize = 0;
    while i < n
        invariant
            n == params@.len(),
            i <= n,
            forall|j: int| 0 <= j < i ==> pairs_view(params@)[j].0 != key@,
        decreases n - i,
    {
        if params[i].0.eq(key) {
            proof {
                lemma_lookup_first(pairs_view(params@), key@, i as int);
            }
            return Some(params[i].1.clone());
        }
        i += 1;
    }
    None
}

/// Decode the (already percent-decoded) captures `params` into the shape
/// `target`, exactly as [`spec_decode`] lays down.
pub fn deserialize(params: &Vec<(String, String)>, target: &Target) -> (r: Result<
    Decoded,
    PathDeserializationError,
>)
    ensures
        r matches Ok(d) ==> spec_decode(pairs_view(params@), target@) == Ok::<
            DecodedView,
            ErrorKindView,
        >(d@),
        r matches Err(e) ==> spec_decode(pairs_view(params@), target@) == Err::<
            DecodedView,
            ErrorKindView,
        >(e@),
{
    let ghost ps = pairs_view(params@);
    match target {
        Target::Scalar(ty) => {
            if params.len() != 1 {
                return Err(
                    PathDeserializationError::wrong_number_of_parameters().got(
                        params.len(),
                    ).expected(1),
                );
            }
            if let ElemType::Unsupported { name } = ty {
                return Err(PathDeserializationError::unsupported_type(name.clone()));
            }
            match parse_prim(ty, &params[0].1) {
                Some(v) => Ok(Decoded::Scalar(v)),
                None => Err(
                    PathDeserializationError::new(
                        ErrorKind::ParseError {
                            value: params[0].1.clone(),
                            expected_type: ty.elem_name(),
                        },
                    ),
                ),
            }
        },
        Target::Sequence(tys) => {
            let n = params.len();
            if n != tys.len() {
                return Err(
                    PathDeserializationError::wrong_number_of_parameters().got(n).expected(
                        tys.len(),
                    ),
                );
            }
            let ghost tysv = tys@.map(|k: int, t: ElemType| t@);
            let mut vals: Vec<PrimValue> = Vec::new();
            let mut i: usize = 0;
            while i < n
                invariant
                    n == params@.len(),
                    n == tys@.len(),
                    ps == pairs_view(params@),
                    tysv == tys@.map(|k: int, t: ElemType| t@),
                    target@ == TargetView::Sequence(tysv),
                    i <= n,
                    vals@.len() == i,
                    forall|j: int|
                        0 <= j < i ==> prim_ok(tysv[j], #[trigger] ps[j].1) && vals@[j]@
                            == prim_val(tysv[j], ps[j].1),
                decreases n - i,
            {
                match parse_prim(&tys[i], &params[i].1) {
                    Some(v) => {
                        vals.push(v);
                    },
                    None => {
                        proof {
                            lemma_seq_first_bad(tysv, ps, i as int);
                        }
                        if let ElemType::Unsupported { name } = &tys[i] {
                            return Err(PathDeserializationError::unsupported_type(name.clone()));
                        }
                        return Err(
                            PathDeserializationError::new(
                                ErrorKind::ParseErrorAtIndex {
                                    index: i,
                                    value: params[i].1.clone(),
                                    expected_type: tys[i].elem_name(),
                                },
                            ),
                        );
                    },
                }
                i += 1;
            }
            proof {
                lemma_seq_first_bad(tysv, ps, n as int);
                assert(vals@.map(|k: int, v: PrimValue| v@) =~= Seq::new(
                    tysv.len(),
                    |j: int| prim_val(tysv[j], ps[j].1),
                ));
            }
            Ok(Decoded::Sequence(vals))
        },
        Target::KeyedMap(ty) => {
            if let ElemType::Unsupported { name } = ty {
                return Err(PathDeserializationError::unsupported_type(name.clone()));
            }
            let n = params.len();
            let mut out: Vec<(String, PrimValue)> = Vec::new();
            let mut i: usize = 0;
            while i < n
                invariant
                    n == params@.len(),
                    ps == pairs_view(params@),
                    target@ == TargetView::KeyedMap(ty@),
                    !(ty@ matches ElemTypeView::Unsupported { .. }),
                    i <= n,
                    out@.len() == i,
                    forall|j: int|
                        0 <= j < i ==> prim_ok(ty@, #[trigger] ps[j].1) && out@[j].0@ == ps[j].0
                            && out@[j].1@ == prim_val(ty@, ps[j].1),
                decreases n - i,
            {
                match parse_prim(ty, &params[i].1) {
                    Some(v) => {
                        out.push((params[i].0.clone(), v));
                    },
                    None => {
                        proof {
                            lemma_map_first_bad(ty@, ps, i as int);
                        }
                        return Err(
                            PathDeserializationError::new(
                                ErrorKind::ParseErrorAtKey {
                                    key: params[i].0.clone(),
                                    value: params[i].1.clone(),
                                    expected_type: ty.elem_name(),
                                },
                            ),
                        );
                    },
                }
                i += 1;
            }
            proof {
                lemma_map_first_bad(ty@, ps, n as int);
                assert(out@.map(|k: int, kv: (String, PrimValue)| (kv.0@, kv.1@)) =~= Seq::new(
                    ps.len(),
                    |j: int| (ps[j].0, prim_val(ty@, ps[j].1)),
                ));
            }
            Ok(Decoded::KeyedMap(out))
        },
        Target::Record(fields) => {
            let n = params.len();
            if n != fields.len() {
                return Err(
                    PathDeserializationError::wrong_number_of_parameters().got(n).expected(
                        fields.len(),
                    ),
                );
            }
            let ghost fsv = fields@.map(|k: int, f: (String, ElemType)| (f.0@, f.1@));
            let m = fields.len();
            let mut out: Vec<(String, PrimValue)> = Vec::new();
            let mut j: usize = 0;
            while j < m
                invariant
                    n == params@.len(),
                    m == fields@.len(),
                    n == m,
                    ps == pairs_view(params@),
                    fsv == fields@.map(|k: int, f: (String, ElemType)| (f.0@, f.1@)),
                    target@ == TargetView::Record(fsv),
                    j <= m,
                    out@.len() == j,
                    forall|k: int|
                        0 <= k < j ==> field_ok(#[trigger] fsv[k], ps) && out@[k].0@ == fsv[k].0
                            && out@[k].1@ == prim_val(fsv[k].1, lookup(ps, fsv[k].0)),
                decreases m - j,
            {
                let fname = &fields[j].0;
                let fty = &fields[j].1;
                if let ElemType::Unsupported { name } = fty {
                    proof {
                        lemma_record_first_bad(fsv, ps, j as int);
                    }
                    return Err(PathDeserializationError::unsupported_type(name.clone()));
                }
                match find_value(params, fname) {
                    None => {
                        proof {
                            lemma_record_first_bad(fsv, ps, j as int);
                        }
                        let mut msg = String::from_str("missing field `");
                        msg.append(fname.as_str());
                        msg.append("`");
                        return Err(PathDeserializationError::custom(msg));
                    },
                    Some(v) => match parse_prim(fty, &v) {
                        None => {
                            proof {
                                lemma_record_first_bad(fsv, ps, j as int);
                            }
                            return Err(
                                PathDeserializationError::new(
                                    ErrorKind::ParseErrorAtKey {
                                        key: fname.clone(),
                                        value: v,
                                        expected_type: fty.elem_name(),
                                    },
                                ),
                            );
                        },
                        Some(pv) => {
                            out.push((fname.clone(), pv));
                        },
                    },
                }
                j += 1;
            }
            proof {
                lemma_record_first_bad(fsv, ps, m as int);
                assert(out@.map(|k: int, kv: (String, PrimValue)| (kv.0@, kv.1@)) =~= Seq::new(
                    fsv.len(),
                    |w: int| (fsv[w].0, prim_val(fsv[w].1, lookup(ps, fsv[w].0))),
                ));
            }
            Ok(Decoded::Record(out))
        },
    }
}

} // verus!
