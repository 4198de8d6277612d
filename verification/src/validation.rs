//! The pure syntactic acceptance check applied to a candidate application
//! name before any write.

use vstd::prelude::*;
use vstd::string::StrSliceExecFns;
use vstd::string::StringExecFns;

use crate::error::DbError;

verus! {

/// Whether a character outside the ASCII range counts as alphanumeric.
/// Only the Unicode tables decide this, so it is named, not stated.
pub uninterp spec fn unicode_alphanumeric(c: char) -> bool;

/// Whether `char::is_alphanumeric` accepts the character: within ASCII,
/// exactly the letters and digits; beyond ASCII, the Unicode tables.
pub open spec fn alphanumeric(c: char) -> bool {
    if (c as int) < 128 {
        (97 <= c as int <= 122) || (65 <= c as int <= 90) || (48 <= c as int <= 57)
    } else {
        unicode_alphanumeric(c)
    }
}

/// Relies on `char::is_alphanumeric`: of the ASCII characters exactly the
/// letters and digits are alphanumeric; for the rest the Unicode tables
/// (here the name `unicode_alphanumeric`) decide.
#[verifier::external_body]
fn char_is_alphanumeric(c: char) -> (r: bool)
    ensures
        r == alphanumeric(c),
        (c as int) >= 128 ==> r == unicode_alphanumeric(c),
{
    c.is_alphanumeric()
}

/// Whether a character may appear in an application name.
pub open spec fn name_char(c: char) -> bool {
    alphanumeric(c) || c == '-' || c == '_'
}

/// The validation rules on a candidate name, all together: non-empty, at
/// most 255 characters, alphanumeric first character, and every character
/// alphanumeric, `-` or `_`.
pub open spec fn valid_app_name(s: Seq<char>) -> bool {
    &&& s.len() > 0
    &&& s.len() <= 255
    &&& alphanumeric(s[0])
    &&& forall|i: int| 0 <= i < s.len() ==> name_char(#[trigger] s[i])
}

/// Why the rules reject a candidate, or `None` when they accept it. The
/// rules are checked in order and the first failure decides the reason.
pub open spec fn name_rejection(s: Seq<char>) -> Option<Seq<char>> {
    if s.len() == 0 {
        Some("name cannot be empty"@)
    } else if s.len() > 255 {
        Some("name cannot exceed 255 characters"@)
    } else if !alphanumeric(s[0]) {
        Some("name must start with alphanumeric character"@)
    } else if exists|i: int| 0 <= i < s.len() && !name_char(#[trigger] s[i]) {
        Some("name can only contain alphanumeric characters, hyphens, and underscores"@)
    } else {
        None
    }
}

/// The acceptance predicate and the rejection reason agree: a name is
/// valid exactly when no rule rejects it.
pub proof fn lemma_valid_iff_no_rejection(s: Seq<char>)
    ensures
        valid_app_name(s) <==> name_rejection(s) is None,
{
    if valid_app_name(s) {
        assert(!(exists|i: int| 0 <= i < s.len() && !name_char(#[trigger] s[i]))) by {
            if exists|i: int| 0 <= i < s.len() && !name_char(#[trigger] s[i]) {
                let i = choose|i: int| 0 <= i < s.len() && !name_char(#[trigger] s[i]);
                assert(name_char(s[i]));
            }
        }
    }
    if name_rejection(s) is None {
        assert forall|i: int| 0 <= i < s.len() implies name_char(#[trigger] s[i]) by {
            if !name_char(s[i]) {
                assert(exists|j: int| 0 <= j < s.len() && !name_char(#[trigger] s[j]));
            }
        }
    }
}

/// Checks a candidate application name against the validation rules.
///
/// Accepts exactly the valid names; a rejected name yields `InvalidName`
/// carrying the reason for the first rule it breaks. Pure: the outcome is a
/// function of the input alone.
pub fn validate_app_name(name: &str) -> (r: Result<(), DbError>)
    ensures
        r is Ok <==> valid_app_name(name@),
        r matches Err(e) ==> (e matches DbError::InvalidName(m) && name_rejection(name@) == Some(
            m@,
        )),
{
    let n = name.unicode_len();
    if n == 0 {
        return Err(DbError::InvalidName(String::from_str("name cannot be empty")));
    }
    if n > 255 {
        return Err(DbError::InvalidName(String::from_str("name cannot exceed 255 characters")));
    }
    if !char_is_alphanumeric(name.get_char(0)) {
        return Err(
            DbError::InvalidName(String::from_str("name must start with alphanumeric character")),
        );
    }
    let mut i: usize = 0;
    while i < n
        invariant
            n == name@.len(),
            0 < n <= 255,
            alphanumeric(name@[0]),
            i <= n,
            forall|j: int| 0 <= j < i ==> name_char(#[trigger] name@[j]),
        decreases n - i,
    {
        let c = name.get_char(i);
        if !(char_is_alphanumeric(c) || c == '-' || c == '_') {
            return Err(
                DbError::InvalidName(
                    String::from_str(
                        "name can only contain alphanumeric characters, hyphens, and underscores",
                    ),
                ),
            );
        }
        i = i + 1;
    }
    Ok(())
}

} // verus!
