//! The closed set of logical column types, the mapping from the database's
//! declared type strings onto it, and the exact inverse formatting used for
//! field labels.

use crate::digits::canonical_digits;
use crate::digits::dec_digits;
use crate::digits::digits_val;
use crate::digits::format_u64;
use crate::digits::lemma_dec_of_val;
use crate::digits::parse_digits;
use vstd::prelude::*;
use vstd::string::StrSliceExecFns;
use vstd::string::StringExecFns;

verus! {

/// A column's logical type. Bounded text carries its optional length.
#[derive(Debug, Clone, PartialEq, Eq)]
pub enum LiteType {
    Text,
    Blob,
    Integer,
    Real,
    Double,
    Varchar(Option<usize>),
    Boolean,
    Timestamp,
    BigInt,
    Date,
}

/// The fatal error for a declared type string outside the recognized set.
/// Carries the offending string for the diagnostic.
#[derive(Debug, Clone)]
pub struct TypeError {
    pub raw: String,
}

/// The digits between `VARCHAR(` and the closing parenthesis.
pub open spec fn varchar_inner(s: Seq<char>) -> Seq<char> {
    s.subrange(8, s.len() - 1)
}

/// The parameterized bounded-text form: `VARCHAR(` then the canonical
/// decimal spelling of a positive length that fits the machine word,
/// then `)`.
pub open spec fn is_varchar_param(s: Seq<char>) -> bool {
    &&& s.len() >= 10
    &&& s.subrange(0, 8) == "VARCHAR("@
    &&& s.last() == ')'
    &&& canonical_digits(varchar_inner(s))
    &&& digits_val(varchar_inner(s)) >= 1
    &&& digits_val(varchar_inner(s)) <= usize::MAX
}

/// What a declared type string means: one of the exact keywords, or the
/// parameterized bounded-text form, or nothing at all.
pub open spec fn spec_map(s: Seq<char>) -> Option<LiteType> {
    if s == "TEXT"@ {
        Some(LiteType::Text)
    } else if s == "BLOB"@ {
        Some(LiteType::Blob)
    } else if s == "INTEGER"@ {
        Some(LiteType::Integer)
    } else if s == "REAL"@ {
        Some(LiteType::Real)
    } else if s == "BOOLEAN"@ {
        Some(LiteType::Boolean)
    } else if s == "TIMESTAMP"@ {
        Some(LiteType::Timestamp)
    } else if s == "DATE"@ {
        Some(LiteType::Date)
    } else if s == "BIGINT"@ {
        Some(LiteType::BigInt)
    } else if s == "DOUBLE"@ {
        Some(LiteType::Double)
    } else if s == "VARCHAR"@ {
        Some(LiteType::Varchar(None))
    } else if is_varchar_param(s) {
        Some(LiteType::Varchar(Some(digits_val(varchar_inner(s)) as usize)))
    } else {
        None
    }
}

/// The keyword spelling of a logical type, the length re-emitted in the
/// parameterized bounded-text form.
pub open spec fn spec_format(t: LiteType) -> Seq<char> {
    match t {
        LiteType::Text => "TEXT"@,
        LiteType::Blob => "BLOB"@,
        LiteType::Integer => "INTEGER"@,
        LiteType::Real => "REAL"@,
        LiteType::Double => "DOUBLE"@,
        LiteType::Varchar(None) => "VARCHAR"@,
        LiteType::Varchar(Some(n)) => "VARCHAR("@ + dec_digits(n as nat) + ")"@,
        LiteType::Boolean => "BOOLEAN"@,
        LiteType::Timestamp => "TIMESTAMP"@,
        LiteType::BigInt => "BIGINT"@,
        LiteType::Date => "DATE"@,
    }
}

/// String equality by contents.
pub fn str_eq(a: &str, b: &str) -> (r: bool)
    ensures
        r == (a@ == b@),
{
    let ao = a.to_owned();
    let bo = b.to_owned();
    ao == bo
}

impl LiteType {
    /// Maps a declared type string to its logical type.
    ///
    /// Succeeds exactly where [`spec_map`] gives a type; every other string
    /// is the fatal unrecognized-type error, never a guessed fallback.
    pub fn map(s: &str) -> (r: Result<LiteType, TypeError>)
        ensures
            r is Ok <==> spec_map(s@) is Some,
            r matches Ok(t) ==> Some(t) == spec_map(s@),
            r matches Err(e) ==> e.raw@ == s@,
    {
        if str_eq(s, "TEXT") {
            return Ok(LiteType::Text);
        }
        if str_eq(s, "BLOB") {
            return Ok(LiteType::Blob);
        }
        if str_eq(s, "INTEGER") {
            return Ok(LiteType::Integer);
        }
        if str_eq(s, "REAL") {
            return Ok(LiteType::Real);
        }
        if str_eq(s, "BOOLEAN") {
            return Ok(LiteType::Boolean);
        }
        if str_eq(s, "TIMESTAMP") {
            return Ok(LiteType::Timestamp);
        }
        if str_eq(s, "DATE") {
            return Ok(LiteType::Date);
        }
        if str_eq(s, "BIGINT") {
            return Ok(LiteType::BigInt);
        }
        if str_eq(s, "DOUBLE") {
            return Ok(LiteType::Double);
        }
        if str_eq(s, "VARCHAR") {
            return Ok(LiteType::Varchar(None));
        }
        let n = s.unicode_len();
        if n >= 10 {
            let prefix = s.substring_char(0, 8);
            let last = s.get_char(n - 1);
            if str_eq(prefix, "VARCHAR(") && last == ')' {
                let inner = s.substring_char(8, n - 1);
                assert(inner@ == varchar_inner(s@));
                let inner_len = inner.unicode_len();
                let leading_zero = inner_len > 1 && inner.get_char(0) == '0';
                if !leading_zero {
                    match parse_digits(inner) {
                        Some(v) => {
                            if v >= 1 {
                                assert(is_varchar_param(s@));
                                return Ok(LiteType::Varchar(Some(v)));
                            }
                        },
                        None => {},
                    }
                }
            }
        }
        assert(spec_map(s@) is None);
        Err(TypeError { raw: s.to_owned() })
    }

    /// Formats a logical type back to its keyword spelling.
    pub fn format(&self) -> (r: String)
        ensures
            r@ == spec_format(*self),
    {
        match self {
            LiteType::Text => "TEXT".to_owned(),
            LiteType::Blob => "BLOB".to_owned(),
            LiteType::Integer => "INTEGER".to_owned(),
            LiteType::Real => "REAL".to_owned(),
            LiteType::Double => "DOUBLE".to_owned(),
            LiteType::Varchar(None) => "VARCHAR".to_owned(),
            LiteType::Varchar(Some(sz)) => {
                let mut r = "VARCHAR(".to_owned();
                let mid = format_u64(*sz as u64);
                r.append(mid.as_str());
                r.append(")");
                assert(r@ =~= spec_format(*self));
                r
            },
            LiteType::Boolean => "BOOLEAN".to_owned(),
            LiteType::Timestamp => "TIMESTAMP".to_owned(),
            LiteType::BigInt => "BIGINT".to_owned(),
            LiteType::Date => "DATE".to_owned(),
        }
    }
}

/// Formatting is the exact inverse of mapping: any string the mapper
/// accepts, keyword or parameterized bounded text, is reproduced verbatim
/// by formatting the mapped type.
pub proof fn lemma_format_map_roundtrip(s: Seq<char>)
    requires
        spec_map(s) is Some,
    ensures
        spec_format(spec_map(s).unwrap()) == s,
{
    let t = spec_map(s).unwrap();
    if s == "TEXT"@ || s == "BLOB"@ || s == "INTEGER"@ || s == "REAL"@ || s == "BOOLEAN"@
        || s == "TIMESTAMP"@ || s == "DATE"@ || s == "BIGINT"@ || s == "DOUBLE"@
        || s == "VARCHAR"@ {
    } else {
        assert(is_varchar_param(s));
        let inner = varchar_inner(s);
        lemma_dec_of_val(inner);
        let v = digits_val(inner);
        assert(t == LiteType::Varchar(Some(v as usize)));
        assert(dec_digits((v as usize) as nat) == inner);
        reveal_strlit("VARCHAR(");
        reveal_strlit(")");
        assert(spec_format(t) =~= s) by {
            assert("VARCHAR("@.len() == 8);
            assert(")"@.len() == 1);
            assert(")"@[0] == ')');
            let f = spec_format(t);
            assert(f.len() == s.len());
            assert forall|i: int| 0 <= i < f.len() implies f[i] == s[i] by {
                if i < 8 {
                    assert(f[i] == "VARCHAR("@[i]);
                    assert(s.subrange(0, 8)[i] == s[i]);
                } else if i < f.len() - 1 {
                    assert(f[i] == inner[i - 8]);
                    assert(inner[i - 8] == s[i]);
                } else {
                    assert(f[i] == ')');
                    assert(s.last() == s[i]);
                }
            }
        }
    }
}

} // verus!
