//! The expansion engine, and the one template with behaviour: the
//! equality check. It evaluates to its first argument when the two
//! arguments are equal; on a mismatch it yields the diagnostic line for
//! the invocation's own call site and the exit status `1` with which the
//! process is to terminate. The caller performs the actual write to the
//! error stream and the termination; everything up to that point is
//! decided here.

use crate::scope::{TemplateBody, TemplateDef};
use crate::text::{dec_digits, dec_int, i64_to_decimal, u64_to_decimal};
use vstd::prelude::*;
use vstd::string::StringExecFns;

verus! {

/// The call site of an invocation: the source file and line the
/// diagnostic line must point at (the site itself, never the template's
/// definition).
#[derive(Debug, Clone, PartialEq, Eq)]
pub struct SourceLocation {
    pub file: String,
    pub line: u64,
}

/// What an equality check comes to: the value to continue with, or the
/// diagnostic line and exit status of a mismatch. A mismatch is final —
/// the program is not meant to continue past it.
#[derive(Debug, Clone, PartialEq, Eq)]
pub enum CheckOutcome {
    Pass(i64),
    Fail { diagnostic: String, status: u8 },
}

/// What an invocation expands to: a fixed text, an ordinary value, or the
/// fatal report of a failed equality check.
#[derive(Debug, Clone, PartialEq, Eq)]
pub enum Expansion {
    Text(String),
    Value(i64),
    Fatal { diagnostic: String, status: u8 },
}

/// The diagnostic line for a mismatch at `file:line`:
/// `<file>:<line>] Expected <expected> but got <actual>.`
pub open spec fn diagnostic_text(file: Seq<char>, line: nat, expected: int, actual: int) -> Seq<
    char,
> {
    file + ":"@ + dec_digits(line) + "] Expected "@ + dec_int(expected) + " but got "@ + dec_int(
        actual,
    ) + "."@
}

fn render_diagnostic(site: &SourceLocation, expected: i64, actual: i64) -> (r: String)
    ensures
        r@ == diagnostic_text(site.file@, site.line as nat, expected as int, actual as int),
{
    let mut s = site.file.clone();
    s.append(":");
    let line_text = u64_to_decimal(site.line);
    s.append(line_text.as_str());
    s.append("] Expected ");
    let expected_text = i64_to_decimal(expected);
    s.append(expected_text.as_str());
    s.append(" but got ");
    let actual_text = i64_to_decimal(actual);
    s.append(actual_text.as_str());
    s.append(".");
    proof {
        assert(s@ =~= diagnostic_text(
            site.file@,
            site.line as nat,
            expected as int,
            actual as int,
        ));
    }
    s
}

/// The equality check. `actual` and `expected` arrive already evaluated,
/// each exactly once, `actual` first — the construct takes values, not
/// expressions, so no argument can be evaluated twice. Equal arguments
/// pass and hand `actual` back with no further effect; unequal ones yield
/// the one diagnostic line for the call site and exit status `1`.
pub fn equality_check(actual: i64, expected: i64, site: &SourceLocation) -> (r: CheckOutcome)
    ensures
        actual == expected ==> r == CheckOutcome::Pass(actual),
        actual != expected ==> r == (CheckOutcome::Fail {
            diagnostic: r->Fail_diagnostic,
            status: 1,
        }) && r->Fail_diagnostic@ == diagnostic_text(
            site.file@,
            site.line as nat,
            expected as int,
            actual as int,
        ),
{
    if actual == expected {
        CheckOutcome::Pass(actual)
    } else {
        CheckOutcome::Fail { diagnostic: render_diagnostic(site, expected, actual), status: 1 }
    }
}

/// Expands one resolved invocation: a message template yields its fixed
/// text, the identity template its single argument unchanged, and the
/// equality-check template the outcome of `equality_check` on its two
/// arguments, in order.
pub fn expand(def: &TemplateDef, args: &Vec<i64>, site: &SourceLocation) -> (e: Expansion)
    requires
        args@.len() == def.arity(),
    ensures
        match def.body {
            TemplateBody::Message(m) => e == Expansion::Text(m),
            TemplateBody::Identity => e == Expansion::Value(args@[0]),
            TemplateBody::EqualityCheck => {
                &&& args@[0] == args@[1] ==> e == Expansion::Value(args@[0])
                &&& args@[0] != args@[1] ==> e == (Expansion::Fatal {
                    diagnostic: e->Fatal_diagnostic,
                    status: 1,
                }) && e->Fatal_diagnostic@ == diagnostic_text(
                    site.file@,
                    site.line as nat,
                    args@[1] as int,
                    args@[0] as int,
                )
            },
        },
{
    match &def.body {
        TemplateBody::Message(m) => Expansion::Text(m.clone()),
        TemplateBody::Identity => Expansion::Value(args[0]),
        TemplateBody::EqualityCheck => {
            let outcome = equality_check(args[0], args[1], site);
            match outcome {
                CheckOutcome::Pass(v) => Expansion::Value(v),
                CheckOutcome::Fail { diagnostic, status } => Expansion::Fatal {
                    diagnostic,
                    status,
                },
            }
        },
    }
}

} // verus!
