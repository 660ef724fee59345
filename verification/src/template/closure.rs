use vstd::prelude::*;
use vstd::string::*;

use crate::flatten::{ClosureMacrosFlatten, FlatClosureSpec};
use crate::parse::types_view;
use crate::template::text::{
    append_names_one_or_tuple, append_type, append_types_one_or_tuple, one_or_tuple, type_text,
    type_texts, GenError,
};
use crate::tokens::{append_range, render};

verus! {

/// Which runtime runs the body of an `async` stage.
#[derive(Clone, Copy, Debug, PartialEq, Eq, Structural)]
pub enum AsyncRuntime {
    Tokio,
    AsyncStd,
    /// No async runtime is available.
    Unavailable,
}

pub const STRUCT_KW: &'static str = "struct ";

pub const NODE_IMPL: &'static str = ";\nimpl ::ichika::node::ThreadNode for ";

pub const REQUEST_TY: &'static str = " {\n    type Request = ";

pub const RESPONSE_TY: &'static str = ";\n    type Response = ";

pub const RUN_FN: &'static str = ";\n    fn run(";

pub const RUN_SIG: &'static str = ": Self::Request) -> ::ichika::Status<Self::Response, ::ichika::anyhow::Error> {\n        ";

pub const RUN_END: &'static str = "\n    }\n}\nimpl ::ichika::node::ThreadNodeEnum for ";

pub const ID_FN: &'static str = " {\n    fn id() -> &'static str {\n        stringify!(";

pub const ID_END: &'static str = ")\n    }\n}\n";

pub const SYNC_OPEN: &'static str = "{ ";

pub const SYNC_CLOSE: &'static str = "}.into_status()";

pub const TOKIO_OPEN: &'static str = "let rt = ::ichika::tokio::runtime::Runtime::new().unwrap();\n        rt.block_on(async move { ";

pub const ASYNC_STD_OPEN: &'static str = "::ichika::async_std::task::block_on(async move { ";

pub const ASYNC_CLOSE: &'static str = "}).into_status()";

/// A unit struct `id` implementing `ThreadNode` (from `req_ty` to `resp_ty`,
/// with `run(arg: ..)` returning `run_body`) and `ThreadNodeEnum` (named
/// `id`).
pub open spec fn node_impl_text(
    id: Seq<char>,
    req_ty: Seq<char>,
    resp_ty: Seq<char>,
    arg: Seq<char>,
    run_body: Seq<char>,
) -> Seq<char> {
    STRUCT_KW@ + id + NODE_IMPL@ + id + REQUEST_TY@ + req_ty + RESPONSE_TY@ + resp_ty + RUN_FN@ + arg
        + RUN_SIG@ + run_body + RUN_END@ + id + ID_FN@ + id + ID_END@
}

/// What `run` returns: the body's value, run on the async runtime for an
/// `async` stage, as a status.
pub open spec fn run_body_text(c: FlatClosureSpec, runtime: AsyncRuntime) -> Result<
    Seq<char>,
    GenError,
> {
    if !c.is_async {
        Ok(SYNC_OPEN@ + render(c.body) + SYNC_CLOSE@)
    } else {
        match runtime {
            AsyncRuntime::Tokio => Ok(TOKIO_OPEN@ + render(c.body) + ASYNC_CLOSE@),
            AsyncRuntime::AsyncStd => Ok(ASYNC_STD_OPEN@ + render(c.body) + ASYNC_CLOSE@),
            AsyncRuntime::Unavailable => Err(GenError::NoAsyncRuntime),
        }
    }
}

/// The stage type of a closure: its request is its argument type (the tuple
/// of them when it has other than one), its response its return type.
pub open spec fn closure_text(c: FlatClosureSpec, runtime: AsyncRuntime) -> Result<
    Seq<char>,
    GenError,
> {
    match run_body_text(c, runtime) {
        Err(e) => Err(e),
        Ok(run_body) => Ok(
            node_impl_text(
                c.id,
                one_or_tuple(type_texts(c.arg_ty)),
                type_text(c.ret_ty),
                one_or_tuple(c.arg),
                run_body,
            ),
        ),
    }
}

fn append_run_body(out: &mut String, closure: &ClosureMacrosFlatten, runtime: AsyncRuntime)
    requires
        run_body_text(closure@, runtime) is Ok,
    ensures
        final(out)@ == old(out)@ + run_body_text(closure@, runtime)->Ok_0,
{
    let open = if !closure.is_async {
        SYNC_OPEN
    } else {
        match runtime {
            AsyncRuntime::Tokio => TOKIO_OPEN,
            _ => ASYNC_STD_OPEN,
        }
    };
    out.append(open);
    append_range(out, &closure.body, 0, closure.body.len());
    assert(closure.body@.subrange(0, closure.body@.len() as int) =~= closure.body@);
    if !closure.is_async {
        out.append(SYNC_CLOSE);
    } else {
        out.append(ASYNC_CLOSE);
    }
    assert(final(out)@ =~= old(out)@ + run_body_text(closure@, runtime)->Ok_0);
}

/// The source text of the stage type of one closure (see `closure_text`).
pub fn generate_closure(closure: &ClosureMacrosFlatten, runtime: AsyncRuntime) -> (r: Result<
    String,
    GenError,
>)
    ensures
        match r {
            Ok(text) => closure_text(closure@, runtime) == Ok::<Seq<char>, GenError>(text@),
            Err(e) => closure_text(closure@, runtime) == Err::<Seq<char>, GenError>(e),
        },
{
    if closure.is_async && runtime == AsyncRuntime::Unavailable {
        return Err(GenError::NoAsyncRuntime);
    }
    let id = closure.id.as_str();
    let mut out = String::new();
    out.append(STRUCT_KW);
    out.append(id);
    out.append(NODE_IMPL);
    out.append(id);
    out.append(REQUEST_TY);
    append_types_one_or_tuple(&mut out, &closure.arg_ty);
    out.append(RESPONSE_TY);
    append_type(&mut out, &closure.ret_ty);
    out.append(RUN_FN);
    append_names_one_or_tuple(&mut out, &closure.arg);
    out.append(RUN_SIG);
    append_run_body(&mut out, closure, runtime);
    out.append(RUN_END);
    out.append(id);
    out.append(ID_FN);
    out.append(id);
    out.append(ID_END);
    assert(out@ =~= closure_text(closure@, runtime)->Ok_0);
    Ok(out)
}

} // verus!
