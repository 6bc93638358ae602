//! Builder for a global-substitution table: it turns a mapping of identifier
//! names to raw source snippets, together with a snapshot of the process
//! environment, into two mappings from name to parsed expression tree, the
//! input of a downstream inline-globals rewrite pass.

use vstd::prelude::*;

pub mod config;
pub mod parse;
pub mod table;

verus! {

/// The shape of the source text handed to the parser for an entry of the
/// given kind: an environment-derived value is wrapped in single quotes so
/// that it parses as a string literal, a user-defined value is parsed as it
/// stands.
pub open spec fn prepared_source(raw: Seq<char>, is_env: bool) -> Seq<char> {
    if is_env {
        seq!['\''] + raw + seq!['\'']
    } else {
        raw
    }
}

/// The synthetic source identifier under which an entry named `name` is
/// parsed, so that parse diagnostics can be traced back to the entry.
pub open spec fn global_label(name: Seq<char>) -> Seq<char> {
    "GLOBAL_"@ + name
}

/// Wraps an environment-derived raw value in single-quote delimiters (no
/// escaping of embedded quotes is attempted); returns a user-defined raw
/// value unchanged.
pub fn prepare_source(raw: &str, is_env: bool) -> (r: String)
    ensures
        r@ == prepared_source(raw@, is_env),
{
    if is_env {
        let s = String::from_str("'").concat(raw).concat("'");
        proof {
            reveal_strlit("'");
            assert(s@ =~= prepared_source(raw@, true));
        }
        s
    } else {
        raw.to_owned()
    }
}

/// Builds the synthetic source identifier `GLOBAL_<name>` for an entry.
pub fn make_global_label(name: &str) -> (r: String)
    ensures
        r@ == global_label(name@),
{
    let r = String::from_str("GLOBAL_").concat(name);
    r
}

} // verus!
