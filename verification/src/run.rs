//! The execution pipeline: source text through the lexer, the parser and
//! the interpreter against a session, returning the program output and
//! the diagnostic lines, and recording the session's error flags.

use vstd::prelude::*;
use crate::errors::{report_text, runtime_report_text, syntax_where_text, LexErrV};
use crate::interpreter::{initial_env, run_stmts, stmts_view};
use crate::parser::{sp_parse, Parser};
use crate::scanner::{lemma_lex_single_eof, lex_from, Scanner};
use crate::taco::Taco;

verus! {

/// The diagnostic lines for a list of lexical errors, in order.
pub open spec fn lex_reports(errs: Seq<LexErrV>) -> Seq<Seq<char>> {
    Seq::new(errs.len(), |i: int| report_text(errs[i].line as nat, ""@, errs[i].message))
}

/// Whether the session's evaluator suppresses execution: the error flag
/// its evaluator was created with, or the session's current flag when no
/// evaluator exists yet.
pub open spec fn session_gate(t: Taco) -> bool {
    match t.interpreter {
        Some(i) => i.had_error,
        None => t.has_error,
    }
}

/// Appends one line.
fn push_line(dst: &mut Vec<String>, line: String)
    ensures
        final(dst).deep_view() == old(dst).deep_view().push(line@),
{
    let ghost prev = dst@;
    let ghost prev_deep = dst.deep_view();
    let ghost lv = line@;
    dst.push(line);
    proof {
        assert(dst@ =~= prev.push(dst@.last()));
        assert(dst.deep_view() =~= prev_deep.push(lv)) by {
            assert forall|j: int| 0 <= j < prev.len() implies #[trigger] dst.deep_view()[j]
                == prev_deep[j] by {
                assert(dst@[j] == prev[j]);
            }
            assert(dst.deep_view()[prev.len() as int] == lv);
        }
    }
}

/// Runs one unit of source against a session: scan, parse, and execute.
/// Returns the program output lines and the diagnostic lines, in order:
/// the lexical reports, then the syntax or runtime report if one arose.
/// A syntax error stops the unit before execution and sets the session's
/// error flag; a runtime error sets the session's runtime-error flag; a
/// unit with lexical errors still executes, but sets the error flag
/// afterwards.
#[verifier::rlimit(100)]
pub fn exec(source: String, lang: &mut Taco) -> (r: (Vec<String>, Vec<String>))
    requires
        source@.len() < usize::MAX,
    ensures
        ({
            let lx = lex_from(source@, 0, 1);
            let pr = sp_parse(lx.toks, 0);
            match pr {
                Err(pe) => {
                    &&& r.0.deep_view() == Seq::<Seq<char>>::empty()
                    &&& r.1.deep_view() == lex_reports(lx.errs).push(
                        report_text(
                            pe.tokens[0].line as nat,
                            syntax_where_text(pe.tokens[0]),
                            pe.message,
                        ),
                    )
                    &&& final(lang).has_error == true
                    &&& final(lang).has_runtime_error == old(lang).has_runtime_error
                    &&& final(lang).interpreter == old(lang).interpreter
                },
                Ok(stmts) => {
                    let run = run_stmts(stmts, initial_env());
                    &&& final(lang).has_error == (lx.errs.len() > 0 || old(lang).has_error)
                    &&& (session_gate(*old(lang)) ==> r.0.deep_view() == Seq::<Seq<char>>::empty() && r.1.deep_view() == lex_reports(lx.errs) && final(lang).has_runtime_error == old(lang).has_runtime_error)
                    &&& (!session_gate(*old(lang)) ==> {
                        &&& r.0.deep_view() == run.out
                        &&& match run.err {
                            Some(re) => r.1.deep_view() == lex_reports(lx.errs).push(
                                runtime_report_text(re.token.line as nat, re.message),
                            ) && final(lang).has_runtime_error == true,
                            None => r.1.deep_view() == lex_reports(lx.errs) && final(lang).has_runtime_error == old(lang).has_runtime_error,
                        }
                    })
                },
            }
        }),
{
    let ghost src = source@;
    let ghost lx = lex_from(src, 0, 1);
    let mut scanner = Scanner::new(source);
    let tokens = scanner.scan_tokens();
    proof {
        assert(scanner.errors.deep_view() =~= lx.errs);
        assert(tokens.deep_view() =~= lx.toks) by {
            assert(tokens@ == scanner.tokens@);
            assert(scanner.tokens.deep_view() =~= lx.toks);
            assert forall|j: int| 0 <= j < tokens@.len() implies #[trigger] tokens.deep_view()[j]
                == scanner.tokens.deep_view()[j] by {
                assert(tokens@[j] == scanner.tokens@[j]);
            }
        }
        lemma_lex_single_eof(src, 0, 1);
    }
    let mut diagnostics: Vec<String> = Vec::new();
    proof {
        assert(diagnostics.deep_view() =~= lex_reports(lx.errs).take(0));
    }
    let m = scanner.errors.len();
    let mut k: usize = 0;
    while k < m
        invariant
            k <= m,
            m == scanner.errors@.len(),
            scanner.errors.deep_view() =~= lx.errs,
            diagnostics.deep_view() =~= lex_reports(lx.errs).take(k as int),
        decreases m - k,
    {
        let line = scanner.errors[k].report_string();
        proof {
            assert(scanner.errors@[k as int]@ == lx.errs[k as int]);
            assert(line@ == lex_reports(lx.errs)[k as int]);
        }
        push_line(&mut diagnostics, line);
        k = k + 1;
        proof {
            assert(diagnostics.deep_view() =~= lex_reports(lx.errs).take(k as int));
        }
    }
    proof {
        assert(lex_reports(lx.errs).take(m as int) =~= lex_reports(lx.errs));
    }
    let had_lex_errors = m > 0;
    let mut parser = Parser::new(tokens);
    proof {
        assert(parser.tokens.deep_view() =~= lx.toks);
        assert(parser.tokens@[parser.tokens@.len() - 1].token_type == crate::token::TokenType::Eof)
            by {
            assert(parser.tokens.deep_view()[parser.tokens@.len() - 1] == lx.toks.last());
        }
        assert(parser.wf());
    }
    let expr = parser.parse();
    let statements = match expr {
        Ok(statements) => statements,
        Err(e) => {
            proof {
                assert(e.token@.len() == 1) by {
                    assert(e@.tokens.len() == 1);
                }
                assert(e.token@[0]@ == e@.tokens[0]);
            }
            let line = e.report_string();
            push_line(&mut diagnostics, line);
            lang.set_error(true);
            let outputs: Vec<String> = Vec::new();
            proof {
                assert(outputs.deep_view() =~= Seq::<Seq<char>>::empty());
            }
            return (outputs, diagnostics);
        },
    };
    let interpreter = lang.interpreter();
    proof {
        assert(interpreter.had_error == session_gate(*old(lang)));
    }
    let (outputs, result) = interpreter.interpret(Ok(statements));
    match result {
        Ok(()) => {},
        Err(e) => {
            let line = e.report_string();
            push_line(&mut diagnostics, line);
            lang.set_runtime_error(true);
        },
    }
    if had_lex_errors {
        lang.set_error(true);
    }
    proof {
        assert(stmts_view(statements@) =~= statements.deep_view());
    }
    (outputs, diagnostics)
}

} // verus!
