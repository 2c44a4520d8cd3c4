//! Signature requests: splitting a `module:symbol` request string and the
//! module-level symbol search used when serving one.

use vstd::prelude::*;
use crate::errors::RequestError;
use crate::module_info::{NodeModuleInfo, SignatureInfo};
use crate::strutil::{chars_of, find_char, find_char_from, subvec, to_string_of};
use crate::parser::import_resolver::{spec_find_symbol, view_of_sig};

verus! {

/// Splits an import path of the shape `module:symbol` at its first `:`.
/// A string without `:` is an invalid request and is rejected before any
/// lookup happens.
pub fn parse_import_path(import_path: &str) -> (r: Result<(String, String), RequestError>)
    ensures
        match find_char_from(import_path@, ':', 0) {
            Some(p) => r matches Ok(t) && t.0@ == import_path@.subrange(0, p) && t.1@
                == import_path@.subrange(p + 1, import_path@.len() as int),
            None => r matches Err(RequestError::InvalidFormat),
        },
{
    let v = chars_of(import_path);
    let n = v.len();
    match find_char(&v, ':', 0) {
        Some(p) => {
            proof {
                crate::strutil::lemma_find_char_from(v@, ':', 0);
            }
            let module_part = subvec(&v, 0, p);
            let symbol_part = subvec(&v, p + 1, n);
            Ok((to_string_of(&module_part), to_string_of(&symbol_part)))
        },
        None => Err(RequestError::InvalidFormat),
    }
}

/// Searches a module record for the symbol, yielding the matching
/// signature; the search order and produced signatures are those of
/// [`spec_find_symbol`].
pub fn find_symbol_in_module(module_info: &NodeModuleInfo, symbol_name: &str) -> (r: Option<
    SignatureInfo,
>)
    ensures
        match r {
            Some(sig) => spec_find_symbol(*module_info, symbol_name@) == Some(view_of_sig(sig)),
            None => spec_find_symbol(*module_info, symbol_name@) is None,
        },
{
    crate::parser::import_resolver::find_symbol_in_module(module_info, symbol_name)
}

} // verus!
