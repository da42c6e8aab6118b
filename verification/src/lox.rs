use vstd::prelude::*;

use crate::error::Diagnostic;
use crate::parser::Parser;
use crate::scanner::{diag_models, scan_model, Scanner};
use crate::statement::Stmt;

verus! {

/// Scans and parses a source text in one step: the statements that
/// parsed, and every lexical and syntax problem met on the way. The
/// driver decides whether any diagnostic forbids evaluation; scanning
/// always finishes before parsing starts, and a source with scan errors
/// is not parsed at all — its scan diagnostics come back exactly, and no
/// statements. A source that scans cleanly to at least one token is
/// parsed, and the parse yields a statement or reports a diagnostic.
pub fn scan_and_parse(source: &str) -> (r: (Vec<Stmt>, Vec<Diagnostic>))
    ensures
        scan_model(source@, 0, 1).diags.len() > 0 ==> r.0@.len() == 0 && diag_models(r.1@)
            == scan_model(source@, 0, 1).diags,
        (scan_model(source@, 0, 1).diags.len() == 0 && scan_model(source@, 0, 1).tokens.len() >= 1)
            ==> r.0@.len() + r.1@.len() >= 1,
{
    let mut scanner = Scanner::new(source);
    match scanner.scan_tokens() {
        Err(diagnostics) => (Vec::new(), diagnostics),
        Ok(tokens) => {
            let mut parser = Parser::new(&tokens);
            parser.parse()
        },
    }
}

} // verus!
