//! Input validation: the rules a declared field constraint stands for, as
//! verified checks — bounded length, bounded range, and non-blank text.  A
//! failed rule is a validation failure: severity WARN under the validation
//! error code.

use vstd::prelude::*;
use crate::exception::Exception;
use crate::exception::Severity;
use crate::exception::VALIDATION_ERROR;
use crate::strfmt::i64_to_string;
use crate::strfmt::spec_dec_digits;
use crate::strfmt::spec_dec_int;
use crate::strfmt::u128_to_string;
use vstd::string::StrSliceExecFns;
use vstd::string::StringExecFns;

verus! {

/// A value that can check its own declared constraints.
pub trait Validator {
    fn validate(&self) -> Result<(), Exception>;
}

/// A validation failure's shape: severity WARN under the validation code.
pub open spec fn spec_validation_error(e: Exception, message: Seq<char>) -> bool {
    &&& e.severity == Severity::Warn
    &&& e.code matches Some(c) && c@ == VALIDATION_ERROR@
    &&& e.message@ == message
}

/// Checks a length constraint: the length must not exceed `max` nor fall
/// short of `min`, where either bound may be absent.
pub fn validate_length(len: usize, min: Option<usize>, max: Option<usize>, field: &str) -> (r:
    Result<(), Exception>)
    ensures
        r is Ok <==> ((max matches Some(mx) ==> len <= mx) && (min matches Some(mn) ==> len >= mn)),
        max matches Some(mx) ==> (len > mx ==> (r matches Err(e) && spec_validation_error(
            e,
            field@ + " length must not be greater than "@ + spec_dec_digits(mx as int)
                + ", value="@ + spec_dec_digits(len as int),
        ))),
        min matches Some(mn) ==> ((len < mn && (max matches Some(mx) ==> len <= mx)) ==> (
        r matches Err(e) && spec_validation_error(
            e,
            field@ + " length must not be less than "@ + spec_dec_digits(mn as int) + ", value="@
                + spec_dec_digits(len as int),
        ))),
{
    match max {
        Some(mx) => {
            if len > mx {
                let mut m = field.to_owned();
                m.append(" length must not be greater than ");
                let d = u128_to_string(mx as u128);
                m.append(d.as_str());
                m.append(", value=");
                let d = u128_to_string(len as u128);
                m.append(d.as_str());
                proof {
                    assert(m@ =~= field@ + " length must not be greater than "@ + spec_dec_digits(
                        mx as int,
                    ) + ", value="@ + spec_dec_digits(len as int));
                }
                return Err(Exception::validation_error(m));
            }
        },
        None => {},
    }
    match min {
        Some(mn) => {
            if len < mn {
                let mut m = field.to_owned();
                m.append(" length must not be less than ");
                let d = u128_to_string(mn as u128);
                m.append(d.as_str());
                m.append(", value=");
                let d = u128_to_string(len as u128);
                m.append(d.as_str());
                proof {
                    assert(m@ =~= field@ + " length must not be less than "@ + spec_dec_digits(
                        mn as int,
                    ) + ", value="@ + spec_dec_digits(len as int));
                }
                return Err(Exception::validation_error(m));
            }
        },
        None => {},
    }
    Ok(())
}

/// Checks a numeric range constraint: the value must not exceed `max` nor
/// fall short of `min`, where either bound may be absent.
pub fn validate_range(value: i64, min: Option<i64>, max: Option<i64>, field: &str) -> (r: Result<
    (),
    Exception,
>)
    ensures
        r is Ok <==> ((max matches Some(mx) ==> value <= mx) && (min matches Some(mn) ==> value
            >= mn)),
        max matches Some(mx) ==> (value > mx ==> (r matches Err(e) && spec_validation_error(
            e,
            field@ + " must not be greater than "@ + spec_dec_int(mx as int) + ", value="@
                + spec_dec_int(value as int),
        ))),
        min matches Some(mn) ==> ((value < mn && (max matches Some(mx) ==> value <= mx)) ==> (
        r matches Err(e) && spec_validation_error(
            e,
            field@ + " must not be less than "@ + spec_dec_int(mn as int) + ", value="@
                + spec_dec_int(value as int),
        ))),
{
    match max {
        Some(mx) => {
            if value > mx {
                let mut m = field.to_owned();
                m.append(" must not be greater than ");
                let d = i64_to_string(mx);
                m.append(d.as_str());
                m.append(", value=");
                let d = i64_to_string(value);
                m.append(d.as_str());
                proof {
                    assert(m@ =~= field@ + " must not be greater than "@ + spec_dec_int(mx as int)
                        + ", value="@ + spec_dec_int(value as int));
                }
                return Err(Exception::validation_error(m));
            }
        },
        None => {},
    }
    match min {
        Some(mn) => {
            if value < mn {
                let mut m = field.to_owned();
                m.append(" must not be less than ");
                let d = i64_to_string(mn);
                m.append(d.as_str());
                m.append(", value=");
                let d = i64_to_string(value);
                m.append(d.as_str());
                proof {
                    assert(m@ =~= field@ + " must not be less than "@ + spec_dec_int(mn as int)
                        + ", value="@ + spec_dec_int(value as int));
                }
                return Err(Exception::validation_error(m));
            }
        },
        None => {},
    }
    Ok(())
}

/// The White_Space characters: a text made only of these is blank.
pub open spec fn spec_is_whitespace(c: char) -> bool {
    ||| c == ' '
    ||| ('\u{9}' <= c && c <= '\u{d}')
    ||| c == '\u{85}'
    ||| c == '\u{a0}'
    ||| c == '\u{1680}'
    ||| ('\u{2000}' <= c && c <= '\u{200a}')
    ||| c == '\u{2028}'
    ||| c == '\u{2029}'
    ||| c == '\u{202f}'
    ||| c == '\u{205f}'
    ||| c == '\u{3000}'
}

pub open spec fn spec_is_blank(s: Seq<char>) -> bool {
    forall|i: int| 0 <= i < s.len() ==> spec_is_whitespace(#[trigger] s[i])
}

fn is_whitespace_char(c: char) -> (r: bool)
    ensures
        r == spec_is_whitespace(c),
{
    c == ' ' || ('\u{9}' <= c && c <= '\u{d}') || c == '\u{85}' || c == '\u{a0}' || c == '\u{1680}'
        || ('\u{2000}' <= c && c <= '\u{200a}') || c == '\u{2028}' || c == '\u{2029}' || c
        == '\u{202f}' || c == '\u{205f}' || c == '\u{3000}'
}

/// Checks a non-blank constraint: some character must not be whitespace.  An
/// empty text counts as blank.
pub fn validate_not_blank(value: &str, field: &str) -> (r: Result<(), Exception>)
    ensures
        r is Ok <==> !spec_is_blank(value@),
        r matches Err(e) ==> spec_validation_error(e, field@ + " must not be blank"@),
{
    let n = value.unicode_len();
    let mut i: usize = 0;
    while i < n
        invariant
            i <= n,
            n == value@.len(),
            forall|j: int| 0 <= j < i ==> spec_is_whitespace(#[trigger] value@[j]),
        decreases n - i,
    {
        if !is_whitespace_char(value.get_char(i)) {
            return Ok(());
        }
        i += 1;
    }
    let mut m = field.to_owned();
    m.append(" must not be blank");
    proof {
        assert(m@ =~= field@ + " must not be blank"@);
    }
    Err(Exception::validation_error(m))
}

} // verus!

verus! {

impl Validator for crate::web::HelloRequest {
    fn validate(&self) -> Result<(), Exception> {
        crate::web::HelloRequest::validate(self)
    }
}

} // verus!
