use vstd::prelude::*;
use vstd::string::*;

use crate::flatten::{flats_view, flatten_pipe, rewrite_names, FlatSpec, PipeNodeFlatten};
use crate::parse::{ident_text, parse_pipe, ErrorKind, ParseError, PipeMacros};
use crate::template::closure::{run_body_text, AsyncRuntime};
use crate::template::closures::{generate_closures, runnable, steps_text};
use crate::template::pool::{
    all_have_args, closure_steps, generate_pool, lemma_occurs_wrap, lemma_pool_sets_limit,
    occurs_in, pool_text, P_MAX_END, P_MOVE,
};
use crate::tokens::render;
use crate::template::thread_creator::constraints_ref_view;
use crate::tokens::Tok;

verus! {

impl ParseError {
    /// The message reported for the error; `toks` is the input it was found in.
    pub open spec fn spec_message(&self, toks: Seq<Tok>) -> Seq<char> {
        match self.kind {
            ErrorKind::ExpectedIdent => "expected identifier"@,
            ErrorKind::ExpectedColon => "expected `:`"@,
            ErrorKind::ExpectedPipe => "expected `|`"@,
            ErrorKind::ExpectedArrow => "expected `->`"@,
            ErrorKind::ExpectedBraces => "expected curly braces"@,
            ErrorKind::ExpectedExpr => "expected an expression"@,
            ErrorKind::ExpectedType => "expected a type path"@,
            ErrorKind::UnknownConstraint => "Unknown constraint: "@ + if (self.pos as int) < toks.len() {
                ident_text(toks, self.pos as int)
            } else {
                Seq::empty()
            },
            ErrorKind::UnclosedGroup => "unbalanced delimiters"@,
        }
    }

    /// The message reported for the error (see `spec_message`).
    pub fn message(&self, toks: &Vec<Tok>) -> (m: String)
        ensures
            m@ == self.spec_message(toks@),
    {
        let mut m = String::new();
        match self.kind {
            ErrorKind::ExpectedIdent => m.append("expected identifier"),
            ErrorKind::ExpectedColon => m.append("expected `:`"),
            ErrorKind::ExpectedPipe => m.append("expected `|`"),
            ErrorKind::ExpectedArrow => m.append("expected `->`"),
            ErrorKind::ExpectedBraces => m.append("expected curly braces"),
            ErrorKind::ExpectedExpr => m.append("expected an expression"),
            ErrorKind::ExpectedType => m.append("expected a type path"),
            ErrorKind::UnknownConstraint => {
                m.append("Unknown constraint: ");
                if self.pos < toks.len() {
                    match &toks[self.pos] {
                        Tok::Ident(x) => m.append(x.as_str()),
                        _ => {},
                    }
                }
            },
            ErrorKind::UnclosedGroup => m.append("unbalanced delimiters"),
        }
        assert(m@ =~= self.spec_message(toks@));
        m
    }
}

pub const COMPILE_ERROR_OPEN: &'static str = "compile_error!(\"";

pub const COMPILE_ERROR_CLOSE: &'static str = "\")";

/// What the stage generation reports when an `async` stage has no runtime.
pub const NO_RUNTIME_MESSAGE: &'static str = "Failed to generate closure implementation list. Please check the error message above.";

/// What the expansion reports when a closure step takes no argument.
pub const NO_ARGUMENT_MESSAGE: &'static str = "Every closure step must take an argument";

pub const BLOCK_OPEN: &'static str = "{\n";

pub const BLOCK_CLOSE: &'static str = "_Pool::new()\n}\n";

/// A compile error carrying `msg`.
pub open spec fn error_text(msg: Seq<char>) -> Seq<char> {
    COMPILE_ERROR_OPEN@ + msg + COMPILE_ERROR_CLOSE@
}

/// The expansion of a pipeline: a block that declares the stage types and the
/// pool and evaluates to `_Pool::new()`; or, where the input is no pipeline or
/// cannot be built, a compile error that says why.
pub open spec fn pipe_text(toks: Seq<Tok>, runtime: AsyncRuntime) -> Seq<char> {
    match parse_pipe(toks) {
        Err(e) => error_text(e.spec_message(toks)),
        Ok(p) => match flatten_pipe(p) {
            Err(e) => error_text(e.spec_message()),
            Ok(steps) => if !runnable(steps, runtime) {
                error_text(NO_RUNTIME_MESSAGE@)
            } else if !all_have_args(closure_steps(steps)) {
                error_text(NO_ARGUMENT_MESSAGE@)
            } else {
                match pool_text(steps, p.global_constraints) {
                    Err(e) => error_text(e.spec_message()),
                    Ok(pool) => BLOCK_OPEN@ + steps_text(steps, runtime) + pool + BLOCK_CLOSE@,
                }
            },
        },
    }
}

/// A pipeline that starts with the global limit `(max_threads: m)` runs its
/// pool under that limit: wherever the expansion is a pool rather than a
/// compile error, it sets `max_thread_count` (the daemon's `let
/// max_thread_count = `, which `P_MOVE` ends with) to the text of `m`.
pub proof fn lemma_pipe_global_limit(toks: Seq<Tok>, rt: AsyncRuntime, m: Seq<Tok>)
    requires
        parse_pipe(toks) is Ok,
        parse_pipe(toks)->Ok_0.global_constraints matches Some(g) && g.max_threads == Some(m),
        flatten_pipe(parse_pipe(toks)->Ok_0) is Ok,
        runnable(flatten_pipe(parse_pipe(toks)->Ok_0)->Ok_0, rt),
        all_have_args(closure_steps(flatten_pipe(parse_pipe(toks)->Ok_0)->Ok_0)),
        closure_steps(flatten_pipe(parse_pipe(toks)->Ok_0)->Ok_0).len() > 0,
    ensures
        occurs_in(P_MOVE@ + render(m) + P_MAX_END@, pipe_text(toks, rt)),
{
    let p = parse_pipe(toks)->Ok_0;
    let steps = flatten_pipe(p)->Ok_0;
    lemma_pool_sets_limit(steps, p.global_constraints, m);
    let pool = pool_text(steps, p.global_constraints)->Ok_0;
    let out = pipe_text(toks, rt);
    assert(out == BLOCK_OPEN@ + steps_text(steps, rt) + pool + BLOCK_CLOSE@);
    lemma_occurs_wrap(P_MOVE@ + render(m) + P_MAX_END@, BLOCK_OPEN@ + steps_text(steps, rt), pool, BLOCK_CLOSE@);
}

fn error_expansion(msg: &str) -> (r: String)
    ensures
        r@ == error_text(msg@),
{
    let mut r = String::new();
    r.append(COMPILE_ERROR_OPEN);
    r.append(msg);
    r.append(COMPILE_ERROR_CLOSE);
    assert(r@ =~= error_text(msg@));
    r
}

/// Whether every `async` closure step can be run (see `runnable`).
fn check_runnable(steps: &Vec<PipeNodeFlatten>, runtime: AsyncRuntime) -> (r: bool)
    ensures
        r == runnable(flats_view(steps@), runtime),
{
    let ghost sv = flats_view(steps@);
    let mut i: usize = 0;
    while i < steps.len()
        invariant
            i <= steps@.len(),
            sv == flats_view(steps@),
            forall|j: int|
                0 <= j < i ==> match #[trigger] sv[j] {
                    FlatSpec::Closure(c) => run_body_text(c, runtime) is Ok,
                    FlatSpec::Dispatcher(_) => true,
                },
        decreases steps@.len() - i,
    {
        assert(sv[i as int] == steps@[i as int]@);
        match &steps[i] {
            PipeNodeFlatten::Closure(c) => {
                if c.is_async && runtime == AsyncRuntime::Unavailable {
                    return false;
                }
            },
            PipeNodeFlatten::Dispatcher(_) => {},
        }
        i = i + 1;
    }
    true
}

/// Whether every closure step takes at least one argument.
fn check_args(steps: &Vec<PipeNodeFlatten>) -> (r: bool)
    ensures
        r == all_have_args(closure_steps(flats_view(steps@))),
{
    let ghost sv = flats_view(steps@);
    let mut i: usize = 0;
    let mut ok = true;
    assert(sv.take(0) =~= Seq::<FlatSpec>::empty());
    while i < steps.len()
        invariant
            i <= steps@.len(),
            sv == flats_view(steps@),
            ok == all_have_args(closure_steps(sv.take(i as int))),
        decreases steps@.len() - i,
    {
        assert(sv[i as int] == steps@[i as int]@);
        assert(sv.take(i + 1).drop_last() =~= sv.take(i as int));
        let ghost before = closure_steps(sv.take(i as int));
        match &steps[i] {
            PipeNodeFlatten::Closure(c) => {
                let has = c.arg_ty.len() >= 1;
                assert(closure_steps(sv.take(i + 1)) == before + seq![c@]);
                assert(all_have_args(before + seq![c@]) == (all_have_args(before) && has)) by {
                    let after = before + seq![c@];
                    assert(c@.arg_ty.len() == c.arg_ty@.len());
                    assert(after[before.len() as int] == c@);
                    if all_have_args(after) {
                        assert forall|j: int| 0 <= j < before.len() implies #[trigger] before[j].arg_ty.len() >= 1 by {
                            assert(after[j] == before[j]);
                            assert(after[j].arg_ty.len() >= 1);
                        }
                        assert(after[before.len() as int].arg_ty.len() >= 1);
                    }
                    if all_have_args(before) && has {
                        assert forall|j: int| 0 <= j < after.len() implies #[trigger] after[j].arg_ty.len() >= 1 by {
                            if j < before.len() {
                                assert(after[j] == before[j]);
                                assert(before[j].arg_ty.len() >= 1);
                            }
                        }
                    }
                }
                ok = ok && has;
            },
            PipeNodeFlatten::Dispatcher(_) => {
                assert(closure_steps(sv.take(i + 1)) =~= before);
            },
        }
        i = i + 1;
    }
    assert(sv.take(i as int) =~= sv);
    ok
}

/// Expands a pipeline given as tokens (see `pipe_text`).
pub fn pipe(input: &Vec<Tok>, runtime: AsyncRuntime) -> (r: String)
    ensures
        r@ == pipe_text(input@, runtime),
{
    let input_macros = match PipeMacros::parse(input) {
        Ok(m) => m,
        Err(e) => {
            let msg = e.message(input);
            return error_expansion(msg.as_str());
        },
    };
    let ghost pv = input_macros@;
    let PipeMacros { global_constraints, closures } = input_macros;
    let steps = match rewrite_names(PipeMacros { global_constraints: None, closures }) {
        Ok(v) => v,
        Err(e) => {
            return error_expansion(e.message());
        },
    };
    if !check_runnable(&steps, runtime) {
        return error_expansion(NO_RUNTIME_MESSAGE);
    }
    if !check_args(&steps) {
        return error_expansion(NO_ARGUMENT_MESSAGE);
    }
    let closure_impl_list = generate_closures(&steps, runtime);
    let global = match &global_constraints {
        Some(g) => Some(g),
        None => None,
    };
    assert(constraints_ref_view(global) == pv.global_constraints);
    let pool_decl = match generate_pool(&steps, global) {
        Ok(p) => p,
        Err(e) => {
            return error_expansion(e.message());
        },
    };
    let mut out = String::new();
    out.append(BLOCK_OPEN);
    out.append(closure_impl_list.as_str());
    out.append(pool_decl.as_str());
    out.append(BLOCK_CLOSE);
    assert(out@ =~= pipe_text(input@, runtime));
    out
}

} // verus!
