//! Package-specification and path-classification helpers.
//!
//! Paths are handled as plain `/`-separated strings; the file-name of a path
//! is the text after its last `/`, and the extension is the text after the
//! last `.` of the file-name, provided that dot is not its first character.

use vstd::prelude::*;
use crate::strutil::{
    chars_of, find_char, find_char_from, lemma_rfind_char, rfind_char, rfind_char_exec, subvec,
    to_string_of, ends_with_sub, spec_ends_with,
};

verus! {

/// The package name and optional version denoted by a specification string
/// such as `express`, `express@4.18.0` or `@types/node@18.0.0`.
///
/// A version is split off at the last `@` for plain names, and at the second
/// `@` for scoped names beginning with `@`; a string without such a
/// separator has no version.
pub open spec fn spec_parse_package(s: Seq<char>) -> (Seq<char>, Option<Seq<char>>) {
    match rfind_char(s, '@') {
        None => (s, None),
        Some(at) => if s.len() > 0 && s[0] == '@' {
            match find_char_from(s, '@', 1) {
                Some(second) => (s.subrange(0, second), Some(s.subrange(second + 1, s.len() as int))),
                None => (s, None),
            }
        } else {
            (s.subrange(0, at), Some(s.subrange(at + 1, s.len() as int)))
        },
    }
}

/// Splits a package specification into name and optional version.
pub fn parse_package_spec(pkg_spec: &str) -> (r: (String, Option<String>))
    ensures
        r.0@ == spec_parse_package(pkg_spec@).0,
        match r.1 {
            Some(v) => spec_parse_package(pkg_spec@).1 == Some(v@),
            None => spec_parse_package(pkg_spec@).1 is None,
        },
{
    let v = chars_of(pkg_spec);
    let n = v.len();
    match rfind_char_exec(&v, '@') {
        None => (to_string_of(&v), None),
        Some(at) => {
            if n > 0 && v[0] == '@' {
                match find_char(&v, '@', 1) {
                    Some(second) => {
                        proof {
                            crate::strutil::lemma_find_char_from(v@, '@', 1);
                        }
                        let name = subvec(&v, 0, second);
                        let version = subvec(&v, second + 1, n);
                        (to_string_of(&name), Some(to_string_of(&version)))
                    },
                    None => (to_string_of(&v), None),
                }
            } else {
                proof {
                    lemma_rfind_char(v@, '@');
                }
                let name = subvec(&v, 0, at);
                let version = subvec(&v, at + 1, n);
                (to_string_of(&name), Some(to_string_of(&version)))
            }
        },
    }
}

/// The base package of a module path: its first `/`-separated component,
/// or the first two components when the path names a scoped package
/// (one that begins with `@`).
pub open spec fn spec_base_package(s: Seq<char>) -> Seq<char> {
    match find_char_from(s, '/', 0) {
        None => s,
        Some(i) => if s.len() > 0 && s[0] == '@' {
            match find_char_from(s, '/', i + 1) {
                Some(j) => s.subrange(0, j),
                None => s,
            }
        } else {
            s.subrange(0, i)
        },
    }
}

/// Extracts the base package name from a module path such as
/// `express/lib/router` or `@types/node/fs`.
pub fn extract_base_package(mod_path: &str) -> (r: String)
    ensures
        r@ == spec_base_package(mod_path@),
{
    let v = chars_of(mod_path);
    let n = v.len();
    match find_char(&v, '/', 0) {
        None => to_string_of(&v),
        Some(i) => {
            proof {
                crate::strutil::lemma_find_char_from(v@, '/', 0);
                assert(i < n);
            }
            if n > 0 && v[0] == '@' {
                match find_char(&v, '/', i + 1) {
                    Some(j) => {
                        proof {
                            crate::strutil::lemma_find_char_from(v@, '/', i + 1);
                        }
                        let base = subvec(&v, 0, j);
                        to_string_of(&base)
                    },
                    None => to_string_of(&v),
                }
            } else {
                proof {
                    crate::strutil::lemma_find_char_from(v@, '/', 0);
                }
                let base = subvec(&v, 0, i);
                to_string_of(&base)
            }
        },
    }
}

/// The file-name of a path: the text after its last `/`.
pub open spec fn spec_file_name(s: Seq<char>) -> Seq<char> {
    match rfind_char(s, '/') {
        Some(i) => s.subrange(i + 1, s.len() as int),
        None => s,
    }
}

/// The extension of a path: the text after the last `.` of the file-name,
/// unless that dot is the file-name's first character.
pub open spec fn spec_extension(s: Seq<char>) -> Option<Seq<char>> {
    let name = spec_file_name(s);
    match rfind_char(name, '.') {
        Some(p) => if p > 0 {
            Some(name.subrange(p + 1, name.len() as int))
        } else {
            None
        },
        None => None,
    }
}

pub open spec fn spec_is_js_file(s: Seq<char>) -> bool {
    match spec_extension(s) {
        Some(e) => e == "js"@ || e == "mjs"@ || e == "ts"@ || e == "tsx"@ || e == "jsx"@,
        None => false,
    }
}

pub open spec fn spec_is_dts_file(s: Seq<char>) -> bool {
    match spec_extension(s) {
        Some(e) => e == "ts"@ && spec_ends_with(spec_file_name(s), ".d.ts"@),
        None => false,
    }
}

/// Extracts the file-name portion of `v` as a fresh vector.
fn file_name_chars(v: &Vec<char>) -> (r: Vec<char>)
    ensures
        r@ == spec_file_name(v@),
{
    let n = v.len();
    match rfind_char_exec(v, '/') {
        Some(i) => {
            proof {
                lemma_rfind_char(v@, '/');
                assert(i < n);
            }
            subvec(v, i + 1, n)
        },
        None => subvec(v, 0, n),
    }
}

/// Extracts the extension of `v`, if any.
fn extension_chars(v: &Vec<char>) -> (r: Option<Vec<char>>)
    ensures
        match r {
            Some(e) => spec_extension(v@) == Some(e@),
            None => spec_extension(v@) is None,
        },
{
    let name = file_name_chars(v);
    let n = name.len();
    match rfind_char_exec(&name, '.') {
        Some(p) => {
            if p > 0 {
                proof {
                    lemma_rfind_char(name@, '.');
                    assert(p < n);
                }
                Some(subvec(&name, p + 1, n))
            } else {
                None
            }
        },
        None => None,
    }
}

/// Is the path one of a JavaScript or TypeScript source file
/// (`js`, `mjs`, `ts`, `tsx` or `jsx`)?
pub fn is_js_file(path: &str) -> (r: bool)
    ensures
        r == spec_is_js_file(path@),
{
    let v = chars_of(path);
    match extension_chars(&v) {
        Some(e) => {
            let ejs = chars_of("js");
            let emjs = chars_of("mjs");
            let ets = chars_of("ts");
            let etsx = chars_of("tsx");
            let ejsx = chars_of("jsx");
            crate::strutil::eq_chars(&e, &ejs) || crate::strutil::eq_chars(&e, &emjs)
                || crate::strutil::eq_chars(&e, &ets) || crate::strutil::eq_chars(&e, &etsx)
                || crate::strutil::eq_chars(&e, &ejsx)
        },
        None => false,
    }
}

/// Is the path one of a TypeScript declaration file (a file-name ending in
/// `.d.ts`)?
pub fn is_dts_file(path: &str) -> (r: bool)
    ensures
        r == spec_is_dts_file(path@),
{
    let v = chars_of(path);
    match extension_chars(&v) {
        Some(e) => {
            let ets = chars_of("ts");
            if crate::strutil::eq_chars(&e, &ets) {
                let name = file_name_chars(&v);
                let dts = chars_of(".d.ts");
                ends_with_sub(&name, &dts)
            } else {
                false
            }
        },
        None => false,
    }
}

} // verus!
