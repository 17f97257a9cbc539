//! One-call entry points over the scanner.

use vstd::prelude::*;

use crate::common::text::{push_char, push_text};
use crate::common::token::Token;
use crate::lexer::error::LexerError;
use crate::lexer::grammar::{next_index, next_is_end, next_succeeds, scan_trace};
use crate::lexer::scanner::Scanner;
use crate::utils::{errors_report, format_errors, format_tokens, tokens_report};

verus! {

/// Scanning `s` from index `i` meets no error before the end-of-file token.
pub open spec fn clean_from(s: Seq<char>, i: int) -> bool
    decreases s.len() - i,
{
    if i < 0 || i > s.len() || !next_succeeds(s, i) {
        false
    } else if next_is_end(s, i) {
        true
    } else if i < next_index(s, i) <= s.len() {
        clean_from(s, next_index(s, i))
    } else {
        false
    }
}

/// A scan collects no error exactly when every step from `i` succeeds.
pub proof fn lemma_clean_iff_no_errors(s: Seq<char>, i: int, t: Seq<Token>, e: Seq<LexerError>)
    requires
        scan_trace(s, i, t, e),
    ensures
        e.len() == 0 <==> clean_from(s, i),
    decreases s.len() - i,
{
    if next_succeeds(s, i) && !next_is_end(s, i) {
        lemma_clean_iff_no_errors(s, next_index(s, i), t.drop_first(), e);
    }
}

/// All tokens and all errors of `source`.
pub fn lexical_analysis(source: &str) -> (r: (Vec<Token>, Vec<LexerError>))
    requires
        source@.len() < usize::MAX,
    ensures
        scan_trace(source@, 0, r.0@, r.1@),
{
    let mut scanner = Scanner::new(source);
    scanner.scan_all()
}

/// Whether `source` scans without a lexical error.
pub fn is_lexically_valid(source: &str) -> (r: bool)
    requires
        source@.len() < usize::MAX,
    ensures
        r == clean_from(source@, 0),
{
    let mut scanner = Scanner::new(source);
    let (tokens, errors) = scanner.scan_all();
    proof {
        lemma_clean_iff_no_errors(source@, 0, tokens@, errors@);
    }
    errors.len() == 0
}

/// The error report (when there are errors) followed by the token report.
pub fn format_lexical_analysis_result(tokens: &[Token], errors: &[LexerError]) -> (r: String)
    ensures
        r@ == (if errors@.len() > 0 {
            errors_report(errors@) + seq!['\n']
        } else {
            Seq::empty()
        }) + tokens_report(tokens@),
{
    let mut result = String::new();
    let report = format_tokens(tokens);
    if errors.len() > 0 {
        let e = format_errors(errors);
        push_text(&mut result, e.as_str());
        push_char(&mut result, '\n');
        push_text(&mut result, report.as_str());
        assert(result@ =~= (e@ + seq!['\n']) + report@);
    } else {
        push_text(&mut result, report.as_str());
        assert(result@ =~= Seq::<char>::empty() + report@);
    }
    result
}

} // verus!
