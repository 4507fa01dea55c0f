//! Rendering of error kinds to their fixed, literal text, and the
//! client/server classification of each kind.
//!
//! The exact wording is part of the wire contract: clients match on it.

use crate::errors::{
    ErrorKind, ErrorKindView, FailedToDeserializePathParams, PathDeserializationError,
};
use vstd::prelude::*;
use vstd::string::StringExecFns;

verus! {

/// The digit character for `d`.
pub open spec fn digit_char(d: int) -> char
    recommends
        0 <= d <= 9,
{
    if d == 0 {
        '0'
    } else if d == 1 {
        '1'
    } else if d == 2 {
        '2'
    } else if d == 3 {
        '3'
    } else if d == 4 {
        '4'
    } else if d == 5 {
        '5'
    } else if d == 6 {
        '6'
    } else if d == 7 {
        '7'
    } else if d == 8 {
        '8'
    } else {
        '9'
    }
}

/// Decimal rendering of `n`, most significant digit first.
pub open spec fn dec_chars(n: nat) -> Seq<char>
    decreases n,
{
    if n < 10 {
        seq![digit_char(n as int)]
    } else {
        dec_chars(n / 10).push(digit_char((n % 10) as int))
    }
}

/// The one-character string for the digit `d`.
fn digit_str(d: usize) -> (r: &'static str)
    requires
        d <= 9,
    ensures
        r@ == seq![digit_char(d as int)],
{
    proof {
        reveal_strlit("0");
        reveal_strlit("1");
        reveal_strlit("2");
        reveal_strlit("3");
        reveal_strlit("4");
        reveal_strlit("5");
        reveal_strlit("6");
        reveal_strlit("7");
        reveal_strlit("8");
        reveal_strlit("9");
    }
    let r = match d {
        0 => "0",
        1 => "1",
        2 => "2",
        3 => "3",
        4 => "4",
        5 => "5",
        6 => "6",
        7 => "7",
        8 => "8",
        _ => "9",
    };
    proof {
        assert(r@ =~= seq![digit_char(d as int)]);
    }
    r
}

/// Render `n` in decimal.
pub fn usize_to_string(n: usize) -> (r: String)
    ensures
        r@ == dec_chars(n as nat),
    decreases n,
{
    if n < 10 {
        let mut s = String::new();
        s.append(digit_str(n));
        proof {
            assert(s@ =~= dec_chars(n as nat));
        }
        s
    } else {
        let mut s = usize_to_string(n / 10);
        s.append(digit_str(n % 10));
        proof {
            assert(s@ =~= dec_chars(n as nat));
        }
        s
    }
}

/// The literal text for the error kind `k` (see the response contract).
pub open spec fn spec_message(k: ErrorKindView) -> Seq<char> {
    match k {
        ErrorKindView::Message(t) => t,
        ErrorKindView::InvalidUtf8InPathParam { key } => "Invalid UTF-8 in `"@ + key + "`"@,
        ErrorKindView::WrongNumberOfParameters { got, expected } => "Wrong number of path arguments for `Path`. Expected "@
            + dec_chars(expected as nat) + " but got "@ + dec_chars(got as nat) + (if expected
            == 1 {
            ". Note that multiple parameters must be extracted with a tuple `Path<(_, _)>` or a struct `Path<YourParams>`"@
        } else {
            Seq::<char>::empty()
        }),
        ErrorKindView::UnsupportedType { name } => "Unsupported type `"@ + name + "`"@,
        ErrorKindView::ParseErrorAtKey { key, value, expected_type } => "Cannot parse `"@ + key
            + "` with value `"@ + value + "` to a `"@ + expected_type + "`"@,
        ErrorKindView::ParseError { value, expected_type } => "Cannot parse `"@ + value
            + "` to a `"@ + expected_type + "`"@,
        ErrorKindView::ParseErrorAtIndex { index, value, expected_type } => "Cannot parse value at index "@
            + dec_chars(index as nat) + " with value `"@ + value + "` to a `"@ + expected_type
            + "`"@,
    }
}

/// True when `k` reports malformed client input (rendered as 400); the
/// remaining kinds report a server-side route/type mismatch (rendered as
/// 500).
pub open spec fn is_client_error(k: ErrorKindView) -> bool {
    match k {
        ErrorKindView::Message(..) => true,
        ErrorKindView::InvalidUtf8InPathParam { .. } => true,
        ErrorKindView::ParseError { .. } => true,
        ErrorKindView::ParseErrorAtIndex { .. } => true,
        ErrorKindView::ParseErrorAtKey { .. } => true,
        ErrorKindView::WrongNumberOfParameters { .. } => false,
        ErrorKindView::UnsupportedType { .. } => false,
    }
}

/// The HTTP status the kind `k` is classified to.
pub open spec fn spec_status(k: ErrorKindView) -> int {
    if is_client_error(k) {
        400
    } else {
        500
    }
}

/// The response body the kind `k` is rendered to: client errors carry the
/// "Invalid URL: " prefix, server errors the bare text.
pub open spec fn spec_body(k: ErrorKindView) -> Seq<char> {
    if is_client_error(k) {
        "Invalid URL: "@ + spec_message(k)
    } else {
        spec_message(k)
    }
}

impl ErrorKind {
    /// The fixed, literal text of this kind.
    pub fn message(&self) -> (r: String)
        ensures
            r@ == spec_message(self@),
    {
        match self {
            ErrorKind::Message(t) => t.clone(),
            ErrorKind::InvalidUtf8InPathParam { key } => {
                let mut s = String::from_str("Invalid UTF-8 in `");
                s.append(key.as_str());
                s.append("`");
                s
            },
            ErrorKind::WrongNumberOfParameters { got, expected } => {
                let mut s = String::from_str("Wrong number of path arguments for `Path`. Expected ");
                let e = usize_to_string(*expected);
                s.append(e.as_str());
                s.append(" but got ");
                let g = usize_to_string(*got);
                s.append(g.as_str());
                if *expected == 1 {
                    s.append(
                        ". Note that multiple parameters must be extracted with a tuple `Path<(_, _)>` or a struct `Path<YourParams>`",
                    );
                }
                proof {
                    assert(s@ =~= spec_message(self@));
                }
                s
            },
            ErrorKind::UnsupportedType { name } => {
                let mut s = String::from_str("Unsupported type `");
                s.append(name.as_str());
                s.append("`");
                s
            },
            ErrorKind::ParseErrorAtKey { key, value, expected_type } => {
                let mut s = String::from_str("Cannot parse `");
                s.append(key.as_str());
                s.append("` with value `");
                s.append(value.as_str());
                s.append("` to a `");
                s.append(expected_type.as_str());
                s.append("`");
                s
            },
            ErrorKind::ParseError { value, expected_type } => {
                let mut s = String::from_str("Cannot parse `");
                s.append(value.as_str());
                s.append("` to a `");
                s.append(expected_type.as_str());
                s.append("`");
                s
            },
            ErrorKind::ParseErrorAtIndex { index, value, expected_type } => {
                let mut s = String::from_str("Cannot parse value at index ");
                let i = usize_to_string(*index);
                s.append(i.as_str());
                s.append(" with value `");
                s.append(value.as_str());
                s.append("` to a `");
                s.append(expected_type.as_str());
                s.append("`");
                s
            },
        }
    }

    /// True when this kind reports malformed client input.
    pub fn is_client(&self) -> (r: bool)
        ensures
            r == is_client_error(self@),
    {
        match self {
            ErrorKind::Message(..) => true,
            ErrorKind::InvalidUtf8InPathParam { .. } => true,
            ErrorKind::ParseError { .. } => true,
            ErrorKind::ParseErrorAtIndex { .. } => true,
            ErrorKind::ParseErrorAtKey { .. } => true,
            ErrorKind::WrongNumberOfParameters { .. } => false,
            ErrorKind::UnsupportedType { .. } => false,
        }
    }
}

impl PathDeserializationError {
    /// The fixed, literal text of the wrapped kind.
    pub fn message(&self) -> (r: String)
        ensures
            r@ == spec_message(self@),
    {
        self.kind.message()
    }
}

impl FailedToDeserializePathParams {
    /// The fixed, literal text of the wrapped kind.
    pub fn message(&self) -> (r: String)
        ensures
            r@ == spec_message(self@),
    {
        self.0.kind.message()
    }
}

} // verus!
