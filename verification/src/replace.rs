//! Regular-expression text replacement.

use vstd::prelude::*;

verus! {

/// Whether `pattern` is a regular expression the `regex` crate compiles.
pub uninterp spec fn regex_pattern_ok(pattern: Seq<char>) -> bool;

/// The text with every non-overlapping match of `pattern` replaced by
/// `replacement`, as the `regex` crate computes it.
pub uninterp spec fn regex_replaced(
    pattern: Seq<char>,
    replacement: Seq<char>,
    text: Seq<char>,
) -> Seq<char>;

/// A replacement request that failed: the pattern did not compile, and
/// `message` holds the pattern compiler's description of the fault.
#[derive(Debug)]
pub struct ReplaceError {
    pub message: String,
}

/// Relies on `regex::Regex::new` and `Regex::replace_all`: whether a
/// pattern compiles depends on the pattern alone, and the rewritten text
/// is a function of pattern, replacement and text alone. The two calls
/// stand in one body because the compiled `Regex` value carries its
/// pattern only at run time.
#[verifier::external_body]
fn regex_replace_all(pattern: &str, replacement: &str, text: &str) -> (r: Result<String, String>)
    ensures
        r is Ok <==> regex_pattern_ok(pattern@),
        r matches Ok(out) ==> out@ == regex_replaced(pattern@, replacement@, text@),
{
    match regex::Regex::new(pattern) {
        Ok(re) => Ok(re.replace_all(text, replacement).to_string()),
        Err(e) => Err(e.to_string()),
    }
}

/// The four arguments of a replacement run.
#[derive(Debug)]
pub struct Arguments {
    pub target: String,
    pub replacement: String,
    pub filename: String,
    pub output: String,
}

/// Packs a replacement run's arguments: exactly four — target pattern,
/// replacement text, input file, output file — in that order.
pub fn parse_args(args: Vec<String>) -> (r: Option<Arguments>)
    ensures
        r is Some <==> args@.len() == 4,
        r matches Some(a) ==> a.target == args@[0] && a.replacement == args@[1]
            && a.filename == args@[2] && a.output == args@[3],
{
    if args.len() != 4 {
        return None;
    }
    Some(
        Arguments {
            target: args[0].clone(),
            replacement: args[1].clone(),
            filename: args[2].clone(),
            output: args[3].clone(),
        },
    )
}

/// Replaces every match of the regular expression `target` in `text` with
/// `replacement`: the rewritten text exactly when the pattern compiles,
/// and the compiler's complaint otherwise.
pub fn replace(target: &str, replacement: &str, text: &str) -> (r: Result<String, ReplaceError>)
    ensures
        r is Ok <==> regex_pattern_ok(target@),
        r matches Ok(out) ==> out@ == regex_replaced(target@, replacement@, text@),
{
    match regex_replace_all(target, replacement, text) {
        Ok(out) => Ok(out),
        Err(message) => Err(ReplaceError { message }),
    }
}

} // verus!
