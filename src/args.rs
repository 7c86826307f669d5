//! Values of the runtime's command-line options: `KEY=VALUE` pairs,
//! directory mappings, URL permissions and the runtime type.

use vstd::prelude::*;
use crate::permission::Permission;
use crate::url_parts::{parse_url, url_parse};

verus! {

/// Why an option value was refused.
#[derive(Debug, Clone, Copy, PartialEq, Eq, Structural)]
pub enum ArgError {
    /// A `KEY=VALUE` value without `=`.
    MissingEquals,
    /// A permission that is no URL.
    InvalidUrl,
}

/// The kind of guest the runtime runs.
#[derive(Debug, Clone, Copy, PartialEq, Eq, Structural)]
pub enum RuntimeType {
    V86,
    Wasm,
}

/// `V86` when the v86 flag is given, else `Wasm`.
pub fn runtime_type(v86: bool) -> (r: RuntimeType)
    ensures
        r == (if v86 {
            RuntimeType::V86
        } else {
            RuntimeType::Wasm
        }),
{
    if v86 {
        RuntimeType::V86
    } else {
        RuntimeType::Wasm
    }
}

/// The first `=` of `s` at or after `from`.
pub open spec fn first_eq(s: Seq<char>, from: int) -> Option<int>
    decreases s.len() - from,
{
    if from < 0 || from >= s.len() {
        None
    } else if s[from] == '=' {
        Some(from)
    } else {
        first_eq(s, from + 1)
    }
}

/// The first `::` of `s` at or after `from`.
pub open spec fn first_sep(s: Seq<char>, from: int) -> Option<int>
    decreases s.len() - from,
{
    if from < 0 || from + 1 >= s.len() {
        None
    } else if s[from] == ':' && s[from + 1] == ':' {
        Some(from)
    } else {
        first_sep(s, from + 1)
    }
}

fn find_eq(s: &str, n: usize) -> (r: Option<usize>)
    requires
        n == s@.len(),
    ensures
        match first_eq(s@, 0) {
            Some(i) => r matches Some(k) && k == i && i < n,
            None => r is None,
        },
{
    let mut i: usize = 0;
    while i < n
        invariant
            n == s@.len(),
            i <= n,
            first_eq(s@, 0) == first_eq(s@, i as int),
        decreases n - i,
    {
        if s.get_char(i) == '=' {
            return Some(i);
        }
        i = i + 1;
    }
    None
}

fn find_sep(s: &str, n: usize, from: usize) -> (r: Option<usize>)
    requires
        n == s@.len(),
        from <= n,
    ensures
        match first_sep(s@, from as int) {
            Some(i) => r matches Some(k) && k == i && from <= i && i + 2 <= n,
            None => r is None,
        },
{
    let mut i: usize = from;
    while n - i >= 2
        invariant
            n == s@.len(),
            from <= i <= n,
            first_sep(s@, from as int) == first_sep(s@, i as int),
        decreases n - i,
    {
        if s.get_char(i) == ':' && s.get_char(i + 1) == ':' {
            return Some(i);
        }
        i = i + 1;
    }
    None
}

/// `KEY=VALUE`, split at the first `=`.
pub fn parse_envs(envs: &str) -> (r: Result<(String, String), ArgError>)
    ensures
        match first_eq(envs@, 0) {
            Some(i) => r matches Ok((k, v)) && k@ == envs@.take(i) && v@ == envs@.skip(i + 1),
            None => r == Err::<(String, String), ArgError>(ArgError::MissingEquals),
        },
{
    let n = envs.unicode_len();
    match find_eq(envs, n) {
        Some(i) => {
            let k = String::from_str(envs.substring_char(0, i));
            let v = String::from_str(envs.substring_char(i + 1, n));
            assert(envs@.subrange(0, i as int) =~= envs@.take(i as int));
            assert(envs@.subrange(i + 1, n as int) =~= envs@.skip(i + 1));
            Ok((k, v))
        },
        None => Err(ArgError::MissingEquals),
    }
}

/// `HOST_DIR[::GUEST_DIR]`: the guest directory is the text after the first
/// `::` up to the next one, or the host directory when there is no `::`.
pub fn parse_dirs(s: &str) -> (r: Result<(String, String), ArgError>)
    ensures
        match first_sep(s@, 0) {
            None => r matches Ok((h, g)) && h@ == s@ && g@ == s@,
            Some(i) => r matches Ok((h, g)) && h@ == s@.take(i) && g@ == match first_sep(s@, i + 2) {
                Some(j) => s@.subrange(i + 2, j),
                None => s@.skip(i + 2),
            },
        },
{
    let n = s.unicode_len();
    match find_sep(s, n, 0) {
        None => Ok((String::from_str(s), String::from_str(s))),
        Some(i) => {
            let host = String::from_str(s.substring_char(0, i));
            assert(s@.subrange(0, i as int) =~= s@.take(i as int));
            let end = match find_sep(s, n, i + 2) {
                Some(j) => j,
                None => n,
            };
            let guest = String::from_str(s.substring_char(i + 2, end));
            assert(s@.subrange(i + 2, n as int) =~= s@.skip(i + 2));
            Ok((host, guest))
        },
    }
}

/// A URL permission: the URL as given, and its scheme as the URL parser
/// reads it.
pub fn parse_permission(permission: &str) -> (r: Result<Permission, ArgError>)
    ensures
        match url_parse(permission@) {
            Some(p) => r matches Ok(perm) && perm.url@ == permission@ && perm.schema@ == p.0,
            None => r == Err::<Permission, ArgError>(ArgError::InvalidUrl),
        },
{
    match parse_url(permission) {
        Some(u) => Ok(Permission { schema: u.scheme, url: String::from_str(permission) }),
        None => Err(ArgError::InvalidUrl),
    }
}

} // verus!
