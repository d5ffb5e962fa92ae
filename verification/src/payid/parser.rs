//! Parsing Pay IDs (`ali@zbx`, `shop.ali@zbx`, `ali`) and validating the
//! display names registered with them.

use vstd::prelude::*;
use vstd::utf8::encode_utf8;
use crate::payid::error::PayIdError;
use crate::text::{
    ascii_alnum, char_is_alphabetic, find_char, find_from, is_alphabetic_spec, is_ascii_alnum, lowercase_spec,
    str_eq, str_to_lowercase, str_trim, trim_spec,
};

verus! {

/// The parts of a Pay ID.
#[derive(Debug, Clone)]
pub struct PayIdParts {
    /// The name before `@` (`shop.ali` for `shop.ali@zbx`).
    pub name: String,
    /// The network handle after `@` (`zbx` when none is given).
    pub handle: String,
    /// Whether the name has a sub-ID part (`shop.` in `shop.ali`).
    pub is_sub_id: bool,
    /// The parent name of a sub-ID (`ali` in `shop.ali`).
    pub parent: Option<String>,
    /// `name@handle`.
    pub canonical: String,
}

/// The index of the first character of `s` at or after `i` that is neither
/// an ASCII letter or digit nor a hyphen.
pub open spec fn first_bad_name_char(s: Seq<char>, i: int) -> Option<int>
    decreases s.len() - i,
{
    if i < 0 || i >= s.len() {
        None
    } else if !ascii_alnum(s[i]) && s[i] != '-' {
        Some(i)
    } else {
        first_bad_name_char(s, i + 1)
    }
}

/// Why a name part is refused, as the message of `InvalidFormat`: its
/// UTF-8 length must be 3 to 32 bytes, it must not start or end with a
/// hyphen, and it may hold only ASCII letters, digits and hyphens.
pub open spec fn name_part_error(name: Seq<char>) -> Option<Seq<char>> {
    let blen = encode_utf8(name).len();
    if blen < 3 || blen > 32 {
        Some("'"@ + name + "' must be 3-32 characters"@)
    } else if name[0] == '-' || name.last() == '-' {
        Some("'"@ + name + "' cannot start or end with hyphen"@)
    } else {
        match first_bad_name_char(name, 0) {
            Some(i) => Some("invalid character '"@ + seq![name[i]]
                + "' in Pay ID name — only a-z, 0-9 and hyphen allowed"@),
            None => None,
        }
    }
}

/// `Ok` for a valid name part, else `InvalidFormat` with the message of
/// `name_part_error`.
pub open spec fn name_result(name: Seq<char>, r: Result<(), PayIdError>) -> bool {
    match name_part_error(name) {
        None => r is Ok,
        Some(m) => r matches Err(PayIdError::InvalidFormat(s)) && s@ == m,
    }
}

fn validate_name_part(name: &str) -> (r: Result<(), PayIdError>)
    ensures
        name_result(name@, r),
{
    let blen = name.as_bytes().len();
    if blen < 3 || blen > 32 {
        let mut m = String::from_str("'");
        m.append(name);
        m.append("' must be 3-32 characters");
        return Err(PayIdError::InvalidFormat(m));
    }
    let n = name.unicode_len();
    proof {
        if n == 0 {
            assert(name@ =~= Seq::<char>::empty());
            assert(encode_utf8(name@).len() == 0);
        }
    }
    if name.get_char(0) == '-' || name.get_char(n - 1) == '-' {
        let mut m = String::from_str("'");
        m.append(name);
        m.append("' cannot start or end with hyphen");
        return Err(PayIdError::InvalidFormat(m));
    }
    let mut i: usize = 0;
    while i < n
        invariant
            n == name@.len(),
            3 <= encode_utf8(name@).len() <= 32,
            name@[0] != '-' && name@.last() != '-',
            0 <= i <= n,
            first_bad_name_char(name@, 0) == first_bad_name_char(name@, i as int),
        decreases n - i,
    {
        let c = name.get_char(i);
        if !is_ascii_alnum(c) && c != '-' {
            let mut m = String::from_str("invalid character '");
            m.append(name.substring_char(i, i + 1));
            m.append("' in Pay ID name — only a-z, 0-9 and hyphen allowed");
            proof {
                assert(name@.subrange(i as int, i + 1) =~= seq![c]);
                assert(first_bad_name_char(name@, i as int) == Some(i as int));
                assert(name_part_error(name@) == Some("invalid character '"@ + seq![name@[i as int]]
                    + "' in Pay ID name — only a-z, 0-9 and hyphen allowed"@));
                assert(m@ == "invalid character '"@ + seq![c] + "' in Pay ID name — only a-z, 0-9 and hyphen allowed"@);
            }
            return Err(PayIdError::InvalidFormat(m));
        }
        i += 1;
    }
    Ok(())
}

/// What parsing a normalised Pay ID gives: its parts, or the message of
/// the `InvalidFormat` error.
pub open spec fn parse_spec(s: Seq<char>) -> Result<(Seq<char>, Seq<char>, Option<Seq<char>>), Seq<char>> {
    if s.len() >= 2 && s[0] == '0' && s[1] == 'x' {
        Err("0x addresses are not Pay IDs — use the resolver directly"@)
    } else {
        let (name, handle) = match find_from(s, '@', 0) {
            Some(p) => (s.subrange(0, p), s.subrange(p + 1, s.len() as int)),
            None => (s, "zbx"@),
        };
        if find_from(s, '@', 0) is Some && handle.len() == 0 {
            Err("handle after @ cannot be empty"@)
        } else {
            match find_from(name, '.', 0) {
                Some(d) => {
                    let sub = name.subrange(0, d);
                    let parent = name.subrange(d + 1, name.len() as int);
                    match name_part_error(sub) {
                        Some(m) => Err(m),
                        None => match name_part_error(parent) {
                            Some(m) => Err(m),
                            None => Ok((name, handle, Some(parent))),
                        },
                    }
                },
                None => match name_part_error(name) {
                    Some(m) => Err(m),
                    None => Ok((name, handle, None)),
                },
            }
        }
    }
}

/// `r` is what parsing the normalised Pay ID `s` gives.
pub open spec fn parse_result(s: Seq<char>, r: Result<PayIdParts, PayIdError>) -> bool {
    match parse_spec(s) {
        Err(m) => r matches Err(PayIdError::InvalidFormat(e)) && e@ == m,
        Ok((name, handle, parent)) => r matches Ok(p) && {
            &&& p.name@ == name
            &&& p.handle@ == handle
            &&& p.is_sub_id == parent is Some
            &&& match parent {
                Some(pa) => p.parent matches Some(x) && x@ == pa,
                None => p.parent is None,
            }
            &&& p.canonical@ == name + "@"@ + handle
        },
    }
}

/// Parses a Pay ID that is already trimmed and in lower case.
pub fn parse_normalized_pay_id(input: &str) -> (r: Result<PayIdParts, PayIdError>)
    ensures
        parse_result(input@, r),
{
    let n = input.unicode_len();
    if n >= 2 && input.get_char(0) == '0' && input.get_char(1) == 'x' {
        return Err(PayIdError::InvalidFormat(String::from_str("0x addresses are not Pay IDs — use the resolver directly")));
    }
    let (name, handle): (&str, String) = match find_char(input, '@') {
        Some(p) => {
            let h = input.substring_char(p + 1, n);
            if h.unicode_len() == 0 {
                return Err(PayIdError::InvalidFormat(String::from_str("handle after @ cannot be empty")));
            }
            (input.substring_char(0, p), String::from_str(h))
        },
        None => (input, String::from_str("zbx")),
    };
    let parent: Option<String> = match find_char(name, '.') {
        Some(d) => {
            let nl = name.unicode_len();
            let sub = name.substring_char(0, d);
            let par = name.substring_char(d + 1, nl);
            match validate_name_part(sub) {
                Err(e) => return Err(e),
                Ok(()) => {},
            }
            match validate_name_part(par) {
                Err(e) => return Err(e),
                Ok(()) => {},
            }
            Some(String::from_str(par))
        },
        None => {
            match validate_name_part(name) {
                Err(e) => return Err(e),
                Ok(()) => {},
            }
            None
        },
    };
    let mut canonical = String::from_str(name);
    canonical.append("@");
    canonical.append(handle.as_str());
    let is_sub_id = parent.is_some();
    Ok(PayIdParts { name: String::from_str(name), handle, is_sub_id, parent, canonical })
}

/// Parses a Pay ID: the input is trimmed and put in lower case, then
/// parsed as `parse_normalized_pay_id` does.
pub fn parse_pay_id(input: &str) -> (r: Result<PayIdParts, PayIdError>)
    ensures
        parse_result(lowercase_spec(trim_spec(input@)), r),
{
    let t = str_trim(input);
    let lower = str_to_lowercase(t);
    parse_normalized_pay_id(lower.as_str())
}

/// The index of the first character of `s` at or after `i` that is not a
/// letter, a space, a hyphen, an apostrophe or a dot.
pub open spec fn first_bad_display_char(s: Seq<char>, i: int) -> Option<int>
    decreases s.len() - i,
{
    if i < 0 || i >= s.len() {
        None
    } else if !is_alphabetic_spec(s[i]) && s[i] != ' ' && s[i] != '-' && s[i] != '\'' && s[i] != '.' {
        Some(i)
    } else {
        first_bad_display_char(s, i + 1)
    }
}

/// Why a trimmed display name is refused: `None` when it is accepted,
/// `Some((true, _))` when it is empty (required), else `Some((false, m))`
/// with the message `m` of `DisplayNameInvalid`. It must hold 2 to 64 bytes
/// of UTF-8, and only letters, spaces, hyphens, apostrophes and dots.
pub open spec fn display_name_error(t: Seq<char>) -> Option<(bool, Seq<char>)> {
    let blen = encode_utf8(t).len();
    if t.len() == 0 {
        Some((true, Seq::empty()))
    } else if blen < 2 {
        Some((false, "display name must be at least 2 characters (e.g. 'Salman Tyagi')"@))
    } else if blen > 64 {
        Some((false, "display name must be 64 characters or fewer"@))
    } else {
        match first_bad_display_char(t, 0) {
            Some(i) => Some((false, "invalid character '"@ + seq![t[i]]
                + "' — only letters, spaces, hyphens, dots and apostrophes allowed"@)),
            None => None,
        }
    }
}

/// Why a display name is refused, before trimming: a blank name is
/// missing, a name with white space at either end is invalid, and otherwise
/// `display_name_error` decides.
pub open spec fn display_name_check(name: Seq<char>) -> Option<(bool, Seq<char>)> {
    let t = trim_spec(name);
    if t.len() == 0 {
        Some((true, Seq::empty()))
    } else if t != name {
        Some((false, "display name cannot start or end with a space"@))
    } else {
        display_name_error(name)
    }
}

/// `e` is the error `display_name_error` describes by `(required, m)`.
pub open spec fn is_display_error(e: PayIdError, required: bool, m: Seq<char>) -> bool {
    if required {
        e matches PayIdError::DisplayNameRequired
    } else {
        e matches PayIdError::DisplayNameInvalid(s) && s@ == m
    }
}

/// The verdict of `validate_display_name` on the name `t`.
pub open spec fn display_name_result(t: Seq<char>, r: Result<(), PayIdError>) -> bool {
    match display_name_check(t) {
        None => r is Ok,
        Some((req, m)) => r matches Err(e) && is_display_error(e, req, m),
    }
}

/// Validates a display name such as "Salman Tyagi": a blank name is
/// missing, one that starts or ends with white space is refused, and
/// otherwise `display_name_error` decides.
pub fn validate_display_name(name: &str) -> (r: Result<(), PayIdError>)
    ensures
        display_name_result(name@, r),
{
    let t = str_trim(name);
    let n = t.unicode_len();
    if n == 0 {
        return Err(PayIdError::DisplayNameRequired);
    }
    if !str_eq(t, name) {
        return Err(PayIdError::DisplayNameInvalid(String::from_str("display name cannot start or end with a space")));
    }
    let blen = t.as_bytes().len();
    if blen < 2 {
        return Err(PayIdError::DisplayNameInvalid(String::from_str(
            "display name must be at least 2 characters (e.g. 'Salman Tyagi')",
        )));
    }
    if blen > 64 {
        return Err(PayIdError::DisplayNameInvalid(String::from_str("display name must be 64 characters or fewer")));
    }
    let mut i: usize = 0;
    while i < n
        invariant
            n == t@.len(),
            t@ == trim_spec(name@),
            t@ == name@,
            n > 0,
            2 <= encode_utf8(t@).len() <= 64,
            0 <= i <= n,
            first_bad_display_char(t@, 0) == first_bad_display_char(t@, i as int),
        decreases n - i,
    {
        let c = t.get_char(i);
        if !char_is_alphabetic(c) && c != ' ' && c != '-' && c != '\'' && c != '.' {
            let mut m = String::from_str("invalid character '");
            m.append(t.substring_char(i, i + 1));
            m.append("' — only letters, spaces, hyphens, dots and apostrophes allowed");
            proof {
                assert(t@.subrange(i as int, i + 1) =~= seq![c]);
                assert(first_bad_display_char(t@, i as int) == Some(i as int));
            }
            return Err(PayIdError::DisplayNameInvalid(m));
        }
        i += 1;
    }
    Ok(())
}

} // verus!
