use vstd::prelude::*;
use vstd::string::*;

use crate::flatten::{
    branches_view, flats_view, BranchSpec, DispatcherMacrosFlatten, DispatcherSpec, FlatSpec,
    PipeNodeFlatten,
};
use crate::template::closure::{
    closure_text, generate_closure, node_impl_text, run_body_text, AsyncRuntime, ID_END, ID_FN,
    NODE_IMPL, REQUEST_TY, RESPONSE_TY, RUN_END, RUN_FN, RUN_SIG, STRUCT_KW,
};
use crate::template::text::{append_type, type_text};
use crate::tokens::{append_range, render};

verus! {

pub const DISPATCHER_ATTR: &'static str = "#[allow(non_camel_case_types)]\n";

pub const MATCH_OPEN: &'static str = "match req {\n";

pub const MATCH_CLOSE: &'static str = "        }";

pub const ARM_INDENT: &'static str = "            ";

pub const ARM_SWITCH: &'static str = " => ::ichika::Status::Switch((\"";

pub const ARM_END: &'static str = "\", req)),\n";

/// One dispatcher arm: on its condition, switch to its target stage.
pub open spec fn arm_text(b: BranchSpec) -> Seq<char> {
    ARM_INDENT@ + render(b.condition) + ARM_SWITCH@ + b.target_id + ARM_END@
}

/// The dispatcher arms, in order.
pub open spec fn arms_text(bs: Seq<BranchSpec>) -> Seq<char>
    decreases bs.len(),
{
    if bs.len() == 0 {
        Seq::empty()
    } else {
        arms_text(bs.drop_last()) + arm_text(bs.last())
    }
}

/// The arm texts of the branches, one per branch, in branch order.
pub open spec fn arm_texts(bs: Seq<BranchSpec>) -> Seq<Seq<char>> {
    Seq::new(bs.len(), |i: int| arm_text(bs[i]))
}

/// The dispatcher's arms keep the order of the `match`: the arms text is the
/// text of arm 0, then of arm 1, and so on, so that the first arm whose
/// condition matches a request decides where it goes.
pub proof fn lemma_arms_in_branch_order(bs: Seq<BranchSpec>)
    ensures
        arms_text(bs) == arm_texts(bs).flatten(),
    decreases bs.len(),
{
    arm_texts(bs).lemma_flatten_and_flatten_alt_are_equivalent();
    lemma_arms_flatten_alt(bs);
}

proof fn lemma_arms_flatten_alt(bs: Seq<BranchSpec>)
    ensures
        arms_text(bs) == arm_texts(bs).flatten_alt(),
    decreases bs.len(),
{
    if bs.len() > 0 {
        lemma_arms_flatten_alt(bs.drop_last());
        assert(arm_texts(bs).drop_last() =~= arm_texts(bs.drop_last()));
    } else {
        assert(arm_texts(bs) =~= Seq::<Seq<char>>::empty());
    }
}

/// The stage type of a dispatcher: it takes its input type to its output type
/// and answers each request with a switch to the target of the first arm whose
/// condition matches it.
pub open spec fn dispatcher_text(d: DispatcherSpec) -> Seq<char> {
    DISPATCHER_ATTR@ + node_impl_text(
        d.id,
        type_text(d.input_ty),
        type_text(d.output_ty),
        "req"@,
        MATCH_OPEN@ + arms_text(d.branches) + MATCH_CLOSE@,
    )
}

/// The source text of the stage type of a dispatcher (see `dispatcher_text`).
pub fn generate_dispatcher(dispatcher: &DispatcherMacrosFlatten) -> (r: String)
    ensures
        r@ == dispatcher_text(dispatcher@),
{
    let id = dispatcher.id.as_str();
    let mut out = String::new();
    out.append(DISPATCHER_ATTR);
    out.append(STRUCT_KW);
    out.append(id);
    out.append(NODE_IMPL);
    out.append(id);
    out.append(REQUEST_TY);
    append_type(&mut out, &dispatcher.input_ty);
    out.append(RESPONSE_TY);
    append_type(&mut out, &dispatcher.output_ty);
    out.append(RUN_FN);
    out.append("req");
    out.append(RUN_SIG);
    out.append(MATCH_OPEN);
    let ghost before_arms = out@;
    let ghost bs = branches_view(dispatcher.branches@);
    let mut i: usize = 0;
    assert(bs.take(0) =~= Seq::<BranchSpec>::empty());
    assert(before_arms + arms_text(bs.take(0)) =~= before_arms);
    while i < dispatcher.branches.len()
        invariant
            i <= dispatcher.branches@.len(),
            bs == branches_view(dispatcher.branches@),
            out@ == before_arms + arms_text(bs.take(i as int)),
        decreases dispatcher.branches@.len() - i,
    {
        let b = &dispatcher.branches[i];
        out.append(ARM_INDENT);
        append_range(&mut out, &b.condition.tokens, 0, b.condition.tokens.len());
        assert(b.condition.tokens@.subrange(0, b.condition.tokens@.len() as int)
            =~= b.condition.tokens@);
        out.append(ARM_SWITCH);
        out.append(b.target_id.as_str());
        out.append(ARM_END);
        assert(bs.take(i + 1).drop_last() =~= bs.take(i as int));
        assert(bs[i as int] == b@);
        assert(out@ =~= before_arms + arms_text(bs.take(i + 1)));
        i = i + 1;
    }
    assert(bs.take(i as int) =~= bs);
    out.append(MATCH_CLOSE);
    out.append(RUN_END);
    out.append(id);
    out.append(ID_FN);
    out.append(id);
    out.append(ID_END);
    assert(out@ =~= dispatcher_text(dispatcher@));
    out
}

/// Every `async` closure can be run: there is a runtime, or no such closure.
pub open spec fn runnable(steps: Seq<FlatSpec>, runtime: AsyncRuntime) -> bool {
    forall|i: int|
        0 <= i < steps.len() ==> match #[trigger] steps[i] {
            FlatSpec::Closure(c) => run_body_text(c, runtime) is Ok,
            FlatSpec::Dispatcher(_) => true,
        }
}

/// The stage type of one flattened step.
pub open spec fn step_text(n: FlatSpec, runtime: AsyncRuntime) -> Seq<char> {
    match n {
        FlatSpec::Closure(c) => closure_text(c, runtime)->Ok_0,
        FlatSpec::Dispatcher(d) => dispatcher_text(d),
    }
}

/// The stage types of all steps, in order.
pub open spec fn steps_text(steps: Seq<FlatSpec>, runtime: AsyncRuntime) -> Seq<char>
    decreases steps.len(),
{
    if steps.len() == 0 {
        Seq::empty()
    } else {
        steps_text(steps.drop_last(), runtime) + step_text(steps.last(), runtime)
    }
}

/// The source text of the stage types of all steps (see `steps_text`).
pub fn generate_closures(steps: &Vec<PipeNodeFlatten>, runtime: AsyncRuntime) -> (r: String)
    requires
        runnable(flats_view(steps@), runtime),
    ensures
        r@ == steps_text(flats_view(steps@), runtime),
{
    let ghost sv = flats_view(steps@);
    let mut out = String::new();
    let mut i: usize = 0;
    assert(sv.take(0) =~= Seq::<FlatSpec>::empty());
    while i < steps.len()
        invariant
            i <= steps@.len(),
            sv == flats_view(steps@),
            runnable(sv, runtime),
            out@ == steps_text(sv.take(i as int), runtime),
        decreases steps@.len() - i,
    {
        assert(sv[i as int] == steps@[i as int]@);
        match &steps[i] {
            PipeNodeFlatten::Closure(c) => {
                assert(run_body_text(c@, runtime) is Ok);
                match generate_closure(c, runtime) {
                    Ok(text) => {
                        out.append(text.as_str());
                    },
                    Err(_) => {},
                }
            },
            PipeNodeFlatten::Dispatcher(d) => {
                let text = generate_dispatcher(d);
                out.append(text.as_str());
            },
        }
        assert(sv.take(i + 1).drop_last() =~= sv.take(i as int));
        assert(out@ =~= steps_text(sv.take(i + 1), runtime));
        i = i + 1;
    }
    assert(sv.take(i as int) =~= sv);
    out
}

} // verus!
