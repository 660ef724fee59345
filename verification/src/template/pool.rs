use vstd::prelude::*;
use vstd::string::*;

use crate::flatten::{flats_view, ClosureMacrosFlatten, FlatClosureSpec, FlatSpec, PipeNodeFlatten};
use crate::parse::{types_view, ConstraintsSpec, ThreadConstraints, TypePath, TypeSpec};
use crate::template::text::{
    append_type, append_types_one_or_tuple, one_or_tuple, type_text, type_texts, GenError,
};
use crate::template::thread_creator::{
    constraints_ref_view, generate_routing_table, generate_thread_creator, routing_table_text,
    limit_check_text, spec_type_matches, thread_creator_text, type_matches, TC_IF, TC_LATER,
};
use crate::tokens::{append_range, is_punct, render, Tok};

verus! {

/// The closure steps among the flattened steps, in order.
pub open spec fn closure_steps(steps: Seq<FlatSpec>) -> Seq<FlatClosureSpec>
    decreases steps.len(),
{
    if steps.len() == 0 {
        Seq::empty()
    } else {
        closure_steps(steps.drop_last()) + match steps.last() {
            FlatSpec::Closure(c) => seq![c],
            FlatSpec::Dispatcher(_) => Seq::empty(),
        }
    }
}

/// The position of each closure step among the flattened steps, in order.
pub open spec fn closure_positions(steps: Seq<FlatSpec>) -> Seq<int>
    decreases steps.len(),
{
    if steps.len() == 0 {
        Seq::empty()
    } else {
        closure_positions(steps.drop_last()) + match steps.last() {
            FlatSpec::Closure(_) => seq![steps.len() - 1],
            FlatSpec::Dispatcher(_) => Seq::empty(),
        }
    }
}

/// Stage `i` (of the closure steps) stands at `closure_positions(steps)[i]`
/// of the flattened steps, and the positions increase.
pub proof fn lemma_closure_positions(steps: Seq<FlatSpec>)
    ensures
        closure_positions(steps).len() == closure_steps(steps).len(),
        forall|i: int|
            0 <= i < closure_positions(steps).len() ==> {
                let m = #[trigger] closure_positions(steps)[i];
                &&& 0 <= m < steps.len()
                &&& steps[m] == FlatSpec::Closure(closure_steps(steps)[i])
            },
        forall|i: int, j: int|
            0 <= i < j < closure_positions(steps).len() ==> closure_positions(steps)[i]
                < closure_positions(steps)[j],
    decreases steps.len(),
{
    if steps.len() > 0 {
        let init = steps.drop_last();
        lemma_closure_positions(init);
        let p = closure_positions(steps);
        let q = closure_positions(init);
        assert forall|i: int| 0 <= i < q.len() implies #[trigger] steps[q[i]] == init[q[i]] by {}
        assert forall|i: int| 0 <= i < q.len() implies p[i] == q[i] && closure_steps(steps)[i]
            == closure_steps(init)[i] by {}
    }
}

pub open spec fn refs_view(v: Seq<&ClosureMacrosFlatten>) -> Seq<FlatClosureSpec> {
    Seq::new(v.len(), |i: int| v[i]@)
}

/// The closure steps among the flattened steps, and their positions.
fn collect_closures(steps: &Vec<PipeNodeFlatten>) -> (r: (Vec<&ClosureMacrosFlatten>, Vec<usize>))
    ensures
        refs_view(r.0@) == closure_steps(flats_view(steps@)),
        r.1@.len() == closure_positions(flats_view(steps@)).len(),
        forall|i: int| 0 <= i < r.1@.len() ==> #[trigger] r.1@[i] as int == closure_positions(flats_view(steps@))[i],
{
    let ghost sv = flats_view(steps@);
    let mut r: Vec<&ClosureMacrosFlatten> = Vec::new();
    let mut pos: Vec<usize> = Vec::new();
    let mut i: usize = 0;
    assert(sv.take(0) =~= Seq::<FlatSpec>::empty());
    assert(refs_view(r@) =~= Seq::<FlatClosureSpec>::empty());
    while i < steps.len()
        invariant
            i <= steps@.len(),
            sv == flats_view(steps@),
            refs_view(r@) == closure_steps(sv.take(i as int)),
            pos@.len() == closure_positions(sv.take(i as int)).len(),
            forall|k: int| 0 <= k < pos@.len() ==> #[trigger] pos@[k] as int == closure_positions(sv.take(i as int))[k],
        decreases steps@.len() - i,
    {
        let ghost before = refs_view(r@);
        let ghost before_pos = closure_positions(sv.take(i as int));
        assert(sv.take(i + 1).drop_last() =~= sv.take(i as int));
        assert(sv[i as int] == steps@[i as int]@);
        match &steps[i] {
            PipeNodeFlatten::Closure(c) => {
                r.push(c);
                pos.push(i);
                assert(refs_view(r@) =~= before + seq![c@]);
                assert(closure_positions(sv.take(i + 1)) == before_pos + seq![i as int]);
            },
            PipeNodeFlatten::Dispatcher(_) => {
                assert(before + Seq::<FlatClosureSpec>::empty() =~= before);
                assert(closure_positions(sv.take(i + 1)) =~= before_pos);
            },
        }
        i = i + 1;
    }
    assert(sv.take(i as int) =~= sv);
    (r, pos)
}

// ---------------------------------------------------------------------------
// Repeated pieces
// ---------------------------------------------------------------------------

/// `f(0) + f(1) + .. + f(n - 1)`.
pub open spec fn concat_n(f: spec_fn(int) -> Seq<char>, n: int) -> Seq<char>
    decreases n,
{
    if n <= 0 {
        Seq::empty()
    } else {
        concat_n(f, n - 1) + f(n - 1)
    }
}

/// `f(0)`, .., `f(n - 1)` separated by `sep`.
pub open spec fn join_n(f: spec_fn(int) -> Seq<char>, n: int, sep: Seq<char>) -> Seq<char>
    decreases n,
{
    if n <= 0 {
        Seq::empty()
    } else if n == 1 {
        f(0)
    } else {
        join_n(f, n - 1, sep) + sep + f(n - 1)
    }
}

pub const CHAN_A: &'static str = "        let (tx_";

pub const CHAN_B: &'static str = ", rx_";

pub const CHAN_C: &'static str = ") = ::ichika::flume::unbounded::<";

pub const CHAN_D: &'static str = ">();\n";

pub const PODS_INIT_A: &'static str = "                let mut pods_";

pub const PODS_INIT_B: &'static str = ": Vec<::ichika::pod::ThreadPod<::std::thread::JoinHandle<::ichika::anyhow::Result<()>>>> = Vec::new();\n";

pub const CLEAN_A: &'static str = "                    pods_";

pub const CLEAN_B: &'static str = ".retain(|pod| !pod.handle().is_finished());\n";

pub const PODS: &'static str = "pods_";

pub const LEN: &'static str = ".len()";

pub const IS_EMPTY: &'static str = ".is_empty()";

/// The request channel of stage `c`, typed by its first argument type.
pub open spec fn chan_text(c: FlatClosureSpec) -> Seq<char> {
    CHAN_A@ + c.id + CHAN_B@ + c.id + CHAN_C@ + type_text(c.arg_ty[0]) + CHAN_D@
}

/// The empty list of workers of stage `c`.
pub open spec fn pods_init_text(c: FlatClosureSpec) -> Seq<char> {
    PODS_INIT_A@ + c.id + PODS_INIT_B@
}

/// Dropping the finished workers of stage `c`.
pub open spec fn clean_text(c: FlatClosureSpec) -> Seq<char> {
    CLEAN_A@ + c.id + CLEAN_B@
}

pub open spec fn pods_len_text(c: FlatClosureSpec) -> Seq<char> {
    PODS@ + c.id + LEN@
}

pub open spec fn pods_empty_text(c: FlatClosureSpec) -> Seq<char> {
    PODS@ + c.id + IS_EMPTY@
}

pub open spec fn chans(s: Seq<FlatClosureSpec>) -> Seq<char> {
    concat_n(|i: int| chan_text(s[i]), s.len() as int)
}

pub open spec fn pods_inits(s: Seq<FlatClosureSpec>) -> Seq<char> {
    concat_n(|i: int| pods_init_text(s[i]), s.len() as int)
}

pub open spec fn cleans(s: Seq<FlatClosureSpec>) -> Seq<char> {
    concat_n(|i: int| clean_text(s[i]), s.len() as int)
}

/// The total number of workers of all stages.
pub open spec fn len_sum(s: Seq<FlatClosureSpec>) -> Seq<char> {
    join_n(|i: int| pods_len_text(s[i]), s.len() as int, " + "@)
}

/// Whether every stage has no worker left.
pub open spec fn all_empty(s: Seq<FlatClosureSpec>) -> Seq<char> {
    join_n(|i: int| pods_empty_text(s[i]), s.len() as int, " && "@)
}

/// Every closure step takes at least one argument.
pub open spec fn all_have_args(s: Seq<FlatClosureSpec>) -> bool {
    forall|i: int| 0 <= i < s.len() ==> #[trigger] s[i].arg_ty.len() >= 1
}

pub fn append_chans(out: &mut String, s: &Vec<&ClosureMacrosFlatten>)
    requires
        all_have_args(refs_view(s@)),
    ensures
        final(out)@ == old(out)@ + chans(refs_view(s@)),
{
    let ghost sv = refs_view(s@);
    let ghost f = |i: int| chan_text(sv[i]);
    let mut i: usize = 0;
    while i < s.len()
        invariant
            i <= s@.len(),
            sv == refs_view(s@),
            f == (|i: int| chan_text(sv[i])),
            all_have_args(sv),
            out@ == old(out)@ + concat_n(f, i as int),
        decreases s@.len() - i,
    {
        let c = s[i];
        assert(sv[i as int] == c@);
        assert(sv[i as int].arg_ty.len() >= 1);
        assert(c.arg_ty@.len() >= 1);
        out.append(CHAN_A);
        out.append(c.id.as_str());
        out.append(CHAN_B);
        out.append(c.id.as_str());
        out.append(CHAN_C);
        append_type(out, &c.arg_ty[0]);
        out.append(CHAN_D);
        assert(types_view(c.arg_ty@)[0] == c.arg_ty@[0]@);
        assert(out@ =~= old(out)@ + concat_n(f, i + 1));
        i = i + 1;
    }
}

pub fn append_pods_inits(out: &mut String, s: &Vec<&ClosureMacrosFlatten>)
    ensures
        final(out)@ == old(out)@ + pods_inits(refs_view(s@)),
{
    let ghost sv = refs_view(s@);
    let ghost f = |i: int| pods_init_text(sv[i]);
    let mut i: usize = 0;
    while i < s.len()
        invariant
            i <= s@.len(),
            sv == refs_view(s@),
            f == (|i: int| pods_init_text(sv[i])),
            out@ == old(out)@ + concat_n(f, i as int),
        decreases s@.len() - i,
    {
        let c = s[i];
        assert(sv[i as int] == c@);
        out.append(PODS_INIT_A);
        out.append(c.id.as_str());
        out.append(PODS_INIT_B);
        assert(out@ =~= old(out)@ + concat_n(f, i + 1));
        i = i + 1;
    }
}

pub fn append_cleans(out: &mut String, s: &Vec<&ClosureMacrosFlatten>)
    ensures
        final(out)@ == old(out)@ + cleans(refs_view(s@)),
{
    let ghost sv = refs_view(s@);
    let ghost f = |i: int| clean_text(sv[i]);
    let mut i: usize = 0;
    while i < s.len()
        invariant
            i <= s@.len(),
            sv == refs_view(s@),
            f == (|i: int| clean_text(sv[i])),
            out@ == old(out)@ + concat_n(f, i as int),
        decreases s@.len() - i,
    {
        let c = s[i];
        assert(sv[i as int] == c@);
        out.append(CLEAN_A);
        out.append(c.id.as_str());
        out.append(CLEAN_B);
        assert(out@ =~= old(out)@ + concat_n(f, i + 1));
        i = i + 1;
    }
}

/// Appends `pods_X<suffix>` for every stage `X`, separated by `sep`.
fn append_pods_joined(out: &mut String, s: &Vec<&ClosureMacrosFlatten>, suffix: &str, sep: &str)
    ensures
        final(out)@ == old(out)@ + join_n(
            |i: int| PODS@ + refs_view(s@)[i].id + suffix@,
            s@.len() as int,
            sep@,
        ),
{
    let ghost sv = refs_view(s@);
    let ghost f = |i: int| PODS@ + sv[i].id + suffix@;
    let mut i: usize = 0;
    while i < s.len()
        invariant
            i <= s@.len(),
            sv == refs_view(s@),
            f == (|i: int| PODS@ + sv[i].id + suffix@),
            out@ == old(out)@ + join_n(f, i as int, sep@),
        decreases s@.len() - i,
    {
        let c = s[i];
        assert(sv[i as int] == c@);
        if i > 0 {
            out.append(sep);
        }
        out.append(PODS);
        out.append(c.id.as_str());
        out.append(suffix);
        assert(out@ =~= old(out)@ + join_n(f, i + 1, sep@));
        i = i + 1;
    }
}

pub fn append_len_sum(out: &mut String, s: &Vec<&ClosureMacrosFlatten>)
    ensures
        final(out)@ == old(out)@ + len_sum(refs_view(s@)),
{
    append_pods_joined(out, s, LEN, " + ");
    assert((|i: int| PODS@ + refs_view(s@)[i].id + LEN@) =~= (|i: int|
        pods_len_text(refs_view(s@)[i])));
}

pub fn append_all_empty(out: &mut String, s: &Vec<&ClosureMacrosFlatten>)
    ensures
        final(out)@ == old(out)@ + all_empty(refs_view(s@)),
{
    append_pods_joined(out, s, IS_EMPTY, " && ");
    assert((|i: int| PODS@ + refs_view(s@)[i].id + IS_EMPTY@) =~= (|i: int|
        pods_empty_text(refs_view(s@)[i])));
}

// ---------------------------------------------------------------------------
// Where each stage sends its results, and the worker starters
// ---------------------------------------------------------------------------

pub const TX: &'static str = "tx_";

pub const RX: &'static str = "rx_";

pub const TX_POOL_RESPONSE: &'static str = "tx_pods_response";

/// The sender that a stage whose output type is `out_ty` hands its results
/// to: that of the first closure step from position `from` on (of all
/// flattened steps) whose first argument type matches `out_ty`, or else the
/// pool's response channel.
pub open spec fn next_tx(steps: Seq<FlatSpec>, from: int, out_ty: TypeSpec) -> Seq<char>
    decreases steps.len() - from,
{
    if from < 0 || from >= steps.len() {
        TX_POOL_RESPONSE@
    } else {
        match steps[from] {
            FlatSpec::Closure(c) => if c.arg_ty.len() > 0 && spec_type_matches(c.arg_ty[0], out_ty) {
                TX@ + c.id
            } else {
                next_tx(steps, from + 1, out_ty)
            },
            FlatSpec::Dispatcher(_) => next_tx(steps, from + 1, out_ty),
        }
    }
}

fn prefixed(head: &str, name: &String) -> (r: String)
    ensures
        r@ == head@ + name@,
{
    let mut r = String::new();
    r.append(head);
    r.append(name.as_str());
    assert(r@ =~= head@ + name@);
    r
}

/// The sender that a stage hands its results to (see `next_tx`).
fn find_next_tx(steps: &Vec<PipeNodeFlatten>, from: usize, out_ty: &TypePath) -> (r: String)
    ensures
        r@ == next_tx(flats_view(steps@), from as int, out_ty@),
{
    let ghost sv = flats_view(steps@);
    let mut k = from;
    while k < steps.len()
        invariant
            from <= k,
            sv == flats_view(steps@),
            next_tx(sv, k as int, out_ty@) == next_tx(sv, from as int, out_ty@),
        decreases steps@.len() - k,
    {
        assert(sv[k as int] == steps@[k as int]@);
        match &steps[k] {
            PipeNodeFlatten::Closure(c) => {
                if c.arg_ty.len() > 0 {
                    assert(types_view(c.arg_ty@)[0] == c.arg_ty@[0]@);
                    if type_matches(&c.arg_ty[0], out_ty) {
                        return prefixed(TX, &c.id);
                    }
                }
            },
            PipeNodeFlatten::Dispatcher(_) => {},
        }
        k = k + 1;
    }
    let mut r = String::new();
    r.append(TX_POOL_RESPONSE);
    r
}

/// Without dispatchers, the closure steps are the steps themselves, each at
/// its own position.
pub proof fn lemma_closure_steps_plain(steps: Seq<FlatSpec>)
    requires
        forall|k: int| 0 <= k < steps.len() ==> #[trigger] steps[k] is Closure,
    ensures
        closure_steps(steps).len() == steps.len(),
        closure_positions(steps).len() == steps.len(),
        forall|k: int|
            0 <= k < steps.len() ==> #[trigger] closure_steps(steps)[k] == steps[k]->Closure_0,
        forall|k: int| 0 <= k < steps.len() ==> #[trigger] closure_positions(steps)[k] == k,
    decreases steps.len(),
{
    if steps.len() > 0 {
        let init = steps.drop_last();
        assert forall|k: int| 0 <= k < init.len() implies #[trigger] init[k] is Closure by {
            assert(init[k] == steps[k]);
        }
        lemma_closure_steps_plain(init);
        assert(steps.last() is Closure);
        assert forall|k: int| 0 <= k < steps.len() implies #[trigger] closure_steps(steps)[k]
            == steps[k]->Closure_0 by {
            if k < init.len() {
                assert(closure_steps(steps)[k] == closure_steps(init)[k]);
                assert(init[k] == steps[k]);
            }
        }
        assert forall|k: int| 0 <= k < steps.len() implies #[trigger] closure_positions(steps)[k] == k by {
            if k < init.len() {
                assert(closure_positions(steps)[k] == closure_positions(init)[k]);
            }
        }
    }
}

/// The closure step at `m` takes what a stage whose output type is `out_ty`
/// gives: its first argument type matches `out_ty`.
pub open spec fn accepts_at(steps: Seq<FlatSpec>, m: int, out_ty: TypeSpec) -> bool {
    &&& steps[m] is Closure
    &&& steps[m]->Closure_0.arg_ty.len() > 0
    &&& spec_type_matches(steps[m]->Closure_0.arg_ty[0], out_ty)
}

/// A stage's results go to the first closure step from position `from` on
/// that takes its output type, or, where there is none, to the pool's
/// responses.
pub proof fn lemma_next_tx(steps: Seq<FlatSpec>, from: int, out_ty: TypeSpec)
    requires
        0 <= from,
    ensures
        (exists|m: int| from <= m < steps.len() && #[trigger] accepts_at(steps, m, out_ty)) ==> exists|
            m: int,
        |
            {
                &&& from <= m < steps.len()
                &&& #[trigger] accepts_at(steps, m, out_ty)
                &&& forall|k: int| from <= k < m ==> !#[trigger] accepts_at(steps, k, out_ty)
                &&& next_tx(steps, from, out_ty) == TX@ + steps[m]->Closure_0.id
            },
        (forall|k: int| from <= k < steps.len() ==> !#[trigger] accepts_at(steps, k, out_ty))
            ==> next_tx(steps, from, out_ty) == TX_POOL_RESPONSE@,
    decreases steps.len() - from,
{
    if from < steps.len() {
        lemma_next_tx(steps, from + 1, out_ty);
        if accepts_at(steps, from, out_ty) {
            assert(forall|k: int| from <= k < from ==> !#[trigger] accepts_at(steps, k, out_ty));
        } else if exists|m: int| from <= m < steps.len() && #[trigger] accepts_at(steps, m, out_ty) {
            let m0 = choose|m: int| from <= m < steps.len() && #[trigger] accepts_at(steps, m, out_ty);
            assert(from + 1 <= m0 < steps.len() && accepts_at(steps, m0, out_ty));
            let m = choose|m: int|
                {
                    &&& from + 1 <= m < steps.len()
                    &&& #[trigger] accepts_at(steps, m, out_ty)
                    &&& forall|k: int| from + 1 <= k < m ==> !#[trigger] accepts_at(steps, k, out_ty)
                    &&& next_tx(steps, from + 1, out_ty) == TX@ + steps[m]->Closure_0.id
                };
            assert forall|k: int| from <= k < m implies !#[trigger] accepts_at(steps, k, out_ty) by {
                if k > from {
                    assert(from + 1 <= k < m);
                }
            }
        } else {
            assert forall|k: int| from + 1 <= k < steps.len() implies !#[trigger] accepts_at(steps, k, out_ty) by {}
        }
    }
}

/// The worker of stage `i` hands its results to the first closure step after
/// the stage's own position among all flattened steps (past any dispatchers)
/// whose input type matches the stage's output type, or else to the pool's
/// responses.
pub proof fn lemma_stage_successor(steps: Seq<FlatSpec>, i: int)
    requires
        0 <= i < closure_steps(steps).len(),
    ensures
        ({
            let s = closure_steps(steps);
            let p = closure_positions(steps)[i];
            &&& steps[p] == FlatSpec::Closure(s[i])
            &&& (exists|m: int| p < m < steps.len() && #[trigger] accepts_at(steps, m, s[i].ret_ty))
                ==> exists|m: int|
                {
                    &&& p < m < steps.len()
                    &&& #[trigger] accepts_at(steps, m, s[i].ret_ty)
                    &&& forall|k: int| p < k < m ==> !#[trigger] accepts_at(steps, k, s[i].ret_ty)
                    &&& next_tx(steps, p + 1, s[i].ret_ty) == TX@ + steps[m]->Closure_0.id
                }
            &&& (forall|k: int| p < k < steps.len() ==> !#[trigger] accepts_at(steps, k, s[i].ret_ty))
                ==> next_tx(steps, p + 1, s[i].ret_ty) == TX_POOL_RESPONSE@
        }),
{
    lemma_closure_positions(steps);
    let s = closure_steps(steps);
    let p = closure_positions(steps)[i];
    lemma_next_tx(steps, p + 1, s[i].ret_ty);
    if exists|m: int| p < m < steps.len() && #[trigger] accepts_at(steps, m, s[i].ret_ty) {
        let m0 = choose|m: int| p < m < steps.len() && #[trigger] accepts_at(steps, m, s[i].ret_ty);
        assert(p + 1 <= m0 < steps.len());
        let m = choose|m: int|
            {
                &&& p + 1 <= m < steps.len()
                &&& #[trigger] accepts_at(steps, m, s[i].ret_ty)
                &&& forall|k: int| p + 1 <= k < m ==> !#[trigger] accepts_at(steps, k, s[i].ret_ty)
                &&& next_tx(steps, p + 1, s[i].ret_ty) == TX@ + steps[m]->Closure_0.id
            };
        assert forall|k: int| p < k < m implies !#[trigger] accepts_at(steps, k, s[i].ret_ty) by {
            assert(p + 1 <= k < m);
        }
    }
    if forall|k: int| p < k < steps.len() ==> !#[trigger] accepts_at(steps, k, s[i].ret_ty) {
        assert forall|k: int| p + 1 <= k < steps.len() implies !#[trigger] accepts_at(steps, k, s[i].ret_ty) by {}
    }
}

/// In a pipeline of closure steps (no `match`), each stage hands its results
/// to the next stage when the next stage's input type matches its output
/// type, and the last stage hands them to the pool's responses.
pub proof fn lemma_pipeline_chain(steps: Seq<FlatSpec>, i: int)
    requires
        forall|k: int| 0 <= k < steps.len() ==> #[trigger] steps[k] is Closure,
        0 <= i < steps.len(),
    ensures
        ({
            let s = closure_steps(steps);
            let p = closure_positions(steps)[i];
            &&& i + 1 < s.len() && s[i + 1].arg_ty.len() > 0 && spec_type_matches(
                s[i + 1].arg_ty[0],
                s[i].ret_ty,
            ) ==> next_tx(steps, p + 1, s[i].ret_ty) == TX@ + s[i + 1].id
            &&& i + 1 == s.len() ==> next_tx(steps, p + 1, s[i].ret_ty) == TX_POOL_RESPONSE@
        }),
{
    lemma_closure_steps_plain(steps);
    if i + 1 < steps.len() {
        assert(steps[i + 1] is Closure);
    }
}

/// The stage names.
pub open spec fn names_of(s: Seq<FlatClosureSpec>) -> Seq<Seq<char>> {
    Seq::new(s.len(), |k: int| s[k].id)
}

/// The first argument type of each stage.
pub open spec fn first_arg_types(s: Seq<FlatClosureSpec>) -> Seq<TypeSpec> {
    Seq::new(s.len(), |k: int| s[k].arg_ty[0])
}

/// The stage's request type is its response type: it takes one argument,
/// whose type matches its return type.
pub open spec fn same_io(c: FlatClosureSpec) -> bool {
    c.arg_ty.len() == 1 && spec_type_matches(c.arg_ty[0], c.ret_ty)
}

/// A stage's own thread limits, or else the pipeline's.
pub open spec fn effective_constraints(c: FlatClosureSpec, g: Option<ConstraintsSpec>) -> Option<
    ConstraintsSpec,
> {
    if c.constraints is Some {
        c.constraints
    } else {
        g
    }
}

/// The worker starter of stage `i` of the closure steps `s`: its results go
/// to the first matching closure step after its own position among all the
/// flattened steps.
pub open spec fn creator_text(
    steps: Seq<FlatSpec>,
    s: Seq<FlatClosureSpec>,
    i: int,
    g: Option<ConstraintsSpec>,
) -> Seq<char> {
    thread_creator_text(
        RX@ + s[i].id,
        next_tx(steps, closure_positions(steps)[i] + 1, s[i].ret_ty),
        s[i].id,
        PODS@ + s[i].id,
        s[i].ret_ty,
        Some(routing_table_text(s[i].ret_ty, names_of(s), first_arg_types(s))),
        effective_constraints(s[i], g),
        same_io(s[i]),
    )
}

/// A stage that declares its own thread limits is started under exactly
/// those, whatever the pipeline's limits are: its worker starter is the same
/// under any global limits, and begins with the limit check for its own
/// limits. A stage without limits of its own is checked under the pipeline's.
pub proof fn lemma_stage_limits_first(
    steps: Seq<FlatSpec>,
    s: Seq<FlatClosureSpec>,
    i: int,
    g: Option<ConstraintsSpec>,
)
    requires
        0 <= i < s.len(),
    ensures
        s[i].constraints is Some ==> creator_text(steps, s, i, g) == creator_text(steps, s, i, None),
        s[i].constraints is Some ==> (TC_LATER@ + (PODS@ + s[i].id) + TC_IF@ + limit_check_text(
            RX@ + s[i].id,
            PODS@ + s[i].id,
            s[i].constraints,
        )).is_prefix_of(creator_text(steps, s, i, g)),
        s[i].constraints is None ==> (TC_LATER@ + (PODS@ + s[i].id) + TC_IF@ + limit_check_text(
            RX@ + s[i].id,
            PODS@ + s[i].id,
            g,
        )).is_prefix_of(creator_text(steps, s, i, g)),
{
    let c = if s[i].constraints is Some {
        s[i].constraints
    } else {
        g
    };
    let rx = RX@ + s[i].id;
    let pods = PODS@ + s[i].id;
    let pre = TC_LATER@ + pods + TC_IF@ + limit_check_text(rx, pods, c);
    let t = creator_text(steps, s, i, g);
    assert(t.subrange(0, pre.len() as int) =~= pre);
}

pub open spec fn creators(steps: Seq<FlatSpec>, s: Seq<FlatClosureSpec>, g: Option<ConstraintsSpec>) -> Seq<
    char,
> {
    concat_n(|i: int| creator_text(steps, s, i, g), s.len() as int)
}

fn stage_names(s: &Vec<&ClosureMacrosFlatten>) -> (r: Vec<String>)
    ensures
        r.deep_view() == names_of(refs_view(s@)),
{
    let ghost sv = refs_view(s@);
    let mut r: Vec<String> = Vec::new();
    let mut i: usize = 0;
    while i < s.len()
        invariant
            i <= s@.len(),
            sv == refs_view(s@),
            r@.len() == i,
            forall|j: int| 0 <= j < i ==> #[trigger] r@[j]@ == sv[j].id,
        decreases s@.len() - i,
    {
        assert(sv[i as int] == s@[i as int]@);
        r.push(s[i].id.clone());
        i = i + 1;
    }
    assert(r.deep_view() =~= names_of(sv));
    r
}

fn stage_input_types(s: &Vec<&ClosureMacrosFlatten>) -> (r: Vec<TypePath>)
    requires
        all_have_args(refs_view(s@)),
    ensures
        types_view(r@) == first_arg_types(refs_view(s@)),
{
    let ghost sv = refs_view(s@);
    let mut r: Vec<TypePath> = Vec::new();
    let mut i: usize = 0;
    while i < s.len()
        invariant
            i <= s@.len(),
            sv == refs_view(s@),
            all_have_args(sv),
            r@.len() == i,
            forall|j: int| 0 <= j < i ==> #[trigger] r@[j]@ == sv[j].arg_ty[0],
        decreases s@.len() - i,
    {
        let c = s[i];
        assert(sv[i as int] == c@);
        assert(sv[i as int].arg_ty.len() >= 1);
        assert(types_view(c.arg_ty@)[0] == c.arg_ty@[0]@);
        r.push(c.arg_ty[0].clone());
        i = i + 1;
    }
    assert(types_view(r@) =~= first_arg_types(sv));
    r
}

/// Appends the worker starters of all stages (see `creators`).
fn append_creators(
    out: &mut String,
    steps: &Vec<PipeNodeFlatten>,
    s: &Vec<&ClosureMacrosFlatten>,
    pos: &Vec<usize>,
    global: Option<&ThreadConstraints>,
)
    requires
        all_have_args(refs_view(s@)),
        pos@.len() == s@.len(),
        forall|i: int| 0 <= i < pos@.len() ==> #[trigger] pos@[i] as int == closure_positions(flats_view(steps@))[i],
        forall|i: int| 0 <= i < pos@.len() ==> #[trigger] pos@[i] < steps@.len(),
    ensures
        final(out)@ == old(out)@ + creators(
            flats_view(steps@),
            refs_view(s@),
            constraints_ref_view(global),
        ),
{
    let ghost sv = refs_view(s@);
    let ghost fv = flats_view(steps@);
    let ghost g = constraints_ref_view(global);
    let ghost f = |i: int| creator_text(fv, sv, i, g);
    let names = stage_names(s);
    let tys = stage_input_types(s);
    let mut i: usize = 0;
    while i < s.len()
        invariant
            i <= s@.len(),
            pos@.len() == s@.len(),
            forall|k: int| 0 <= k < pos@.len() ==> #[trigger] pos@[k] as int == closure_positions(fv)[k],
            forall|k: int| 0 <= k < pos@.len() ==> #[trigger] pos@[k] < steps@.len(),
            sv == refs_view(s@),
            fv == flats_view(steps@),
            g == constraints_ref_view(global),
            f == (|i: int| creator_text(fv, sv, i, g)),
            names.deep_view() == names_of(sv),
            types_view(tys@) == first_arg_types(sv),
            out@ == old(out)@ + concat_n(f, i as int),
        decreases s@.len() - i,
    {
        let c = s[i];
        assert(sv[i as int] == c@);
        let p = pos[i];
        assert(p as int == closure_positions(fv)[i as int]);
        assert(pos@[i as int] < steps@.len());
        let n = steps.len();
        assert(p < n);
        let rx = prefixed(RX, &c.id);
        let next = find_next_tx(steps, p + 1, &c.ret_ty);
        let pods = prefixed(PODS, &c.id);
        let routing = generate_routing_table(&c.ret_ty, &names, &tys);
        let constraints = match &c.constraints {
            Some(x) => Some(x),
            None => global,
        };
        assert(constraints_ref_view(constraints) == effective_constraints(c@, g));
        let same = c.arg_ty.len() == 1 && type_matches(&c.arg_ty[0], &c.ret_ty);
        assert(same == same_io(c@)) by {
            if c.arg_ty.len() == 1 {
                assert(types_view(c.arg_ty@)[0] == c.arg_ty@[0]@);
            }
        }
        let text = generate_thread_creator(
            &rx,
            &next,
            &c.id,
            &pods,
            &c.ret_ty,
            Some(routing),
            constraints,
            same,
        );
        assert(text@ == f(i as int));
        let ghost before = out@;
        out.append(text.as_str());
        assert(concat_n(f, i + 1) == concat_n(f, i as int) + f(i as int));
        assert(out@ =~= old(out)@ + concat_n(f, i + 1));
        i = i + 1;
    }
}

// ---------------------------------------------------------------------------
// The pool
// ---------------------------------------------------------------------------

pub const P_DECL_A: &'static str = "use ::ichika::status::IntoStatus;\nstruct _Pool {\n    daemon: Option<::std::thread::JoinHandle<::ichika::anyhow::Result<()>>>,\n    tx_shutdown: ::ichika::flume::Sender<()>,\n    tx_send_request: ::ichika::flume::Sender<";

pub const P_DECL_B: &'static str = ">,\n    rx_recv_response: ::ichika::flume::Receiver<";

pub const P_DECL_C: &'static str = ">,\n    tx_thread_usage_request: ::ichika::flume::Sender<()>,\n    rx_thread_usage_response: ::ichika::flume::Receiver<usize>,\n    tx_task_count_request: ::ichika::flume::Sender<String>,\n    rx_task_count_response: ::ichika::flume::Receiver<usize>,\n}\nimpl ::ichika::pool::ThreadPool for _Pool {\n    type Request = ";

pub const P_DECL_D: &'static str = ";\n    type Response = ";

pub const P_METHODS: &'static str = ";\n    fn send(&self, req: Self::Request) -> ::ichika::anyhow::Result<()> {\n        self.tx_send_request.send(req)?;\n        Ok(())\n    }\n    fn recv(&self) -> ::ichika::anyhow::Result<Option<Self::Response>> {\n        Ok(self\n            .rx_recv_response\n            .try_recv()\n            .map(|res| Some(res.to_owned()))\n            .unwrap_or_default())\n    }\n    fn thread_usage(&self) -> ::ichika::anyhow::Result<usize> {\n        self.tx_thread_usage_request.send(())?;\n        self.rx_thread_usage_response\n            .recv()\n            .map_err(|_| ::ichika::anyhow::anyhow!(\"No response\"))\n    }\n    fn task_count(&self, stage: impl ToString) -> ::ichika::anyhow::Result<usize> {\n        self.tx_task_count_request.send(stage.to_string())?;\n        self.rx_task_count_response\n            .recv()\n            .map_err(|_| ::ichika::anyhow::anyhow!(\"No response\"))\n    }\n}\nimpl _Pool {\n    pub fn new() -> ::ichika::anyhow::Result<Self> {\n        use ::ichika::node::*;\n        let (tx_shutdown, rx_shutdown) = ::ichika::flume::bounded(1);\n        let (tx_thread_usage_request, rx_thread_usage_request) = ::ichika::flume::bounded(1);\n        let (tx_thread_usage_response, rx_thread_usage_response) = ::ichika::flume::bounded(1);\n        let (tx_task_count_request, rx_task_count_request) = ::ichika::flume::bounded(1);\n        let (tx_task_count_response, rx_task_count_response) = ::ichika::flume::bounded(1);\n";

pub const P_RESP_CHAN: &'static str = "        let (tx_pods_response, rx_pods_response) = ::ichika::flume::unbounded::<";

pub const P_SPAWN: &'static str = ">();\n        let daemon = std::thread::spawn({\n            let ";

pub const P_EQ: &'static str = " = ";

pub const P_MOVE: &'static str = ".clone();\n            move || {\n                let max_thread_count = ";

pub const P_MAX_END: &'static str = ";\n";

pub const P_LOOP: &'static str = "                loop {\n";

pub const P_SIZE: &'static str = "                    let pods_size = ";

pub const P_SIZE_END: &'static str = ";\n";

pub const P_USAGE: &'static str = "                    if rx_thread_usage_request.try_recv().is_ok() {\n                        tx_thread_usage_response\n                            .send(";

pub const P_TASKS: &'static str = ")\n                            .unwrap();\n                    }\n                    if let Ok(stage) = rx_task_count_request.try_recv() {\n                        tx_task_count_response\n                            .send(match stage.as_str() {\n";

pub const TASK_ARM_A: &'static str = "                                \"";

pub const TASK_ARM_B: &'static str = "\" => pods_";

pub const TASK_ARM_C: &'static str = ".len() + rx_";

pub const TASK_ARM_D: &'static str = ".len(),\n";

pub const P_PLUS: &'static str = " + ";

pub const TASK_OTHER: &'static str = "                                _ => ";

pub const P_SHUTDOWN: &'static str = ".len(),\n                            })\n                            .unwrap();\n                    }\n                    if rx_shutdown.try_recv().is_ok() {\n                        break;\n                    }\n                    std::thread::sleep(std::time::Duration::from_millis(100));\n                }\n                loop {\n";

pub const P_STOP: &'static str = "                    if ";

pub const P_STOP_END: &'static str = " {\n                        break;\n                    }\n                    std::thread::sleep(std::time::Duration::from_millis(100));\n                }\n                ::ichika::anyhow::Ok(())\n            }\n        });\n        Ok(Self {\n            daemon: Some(daemon),\n            tx_shutdown,\n            tx_send_request: ";

pub const P_TAIL: &'static str = ".clone(),\n            rx_recv_response: rx_pods_response,\n            tx_thread_usage_request,\n            rx_thread_usage_response,\n            tx_task_count_request,\n            rx_task_count_response,\n        })\n    }\n}\nimpl Drop for _Pool {\n    fn drop(&mut self) {\n        self.tx_shutdown.send(()).unwrap();\n        self.daemon.take().unwrap().join().unwrap().unwrap();\n    }\n}\n";

pub const CPU_COUNT: &'static str = "num_cpus::get()";

/// The pool's response type, from the last stage's return type: a
/// single-segment path is written without a leading `::`.
pub open spec fn response_type_text(t: TypeSpec) -> Seq<char> {
    if t.segments.len() == 1 && t.tokens.len() >= 2 && is_punct(t.tokens[0], ':') {
        render(t.tokens.skip(2))
    } else {
        render(t.tokens)
    }
}

/// The pool's thread limit: the global `max_threads`, or else the number of
/// CPUs.
pub open spec fn max_threads_text(g: Option<ConstraintsSpec>) -> Seq<char> {
    match g {
        Some(ConstraintsSpec { max_threads: Some(m), .. }) => render(m),
        _ => CPU_COUNT@,
    }
}

/// The pool type and its `ThreadPool` impl, up to the stage channels of
/// `new`.
pub open spec fn pool_decl_text(req: Seq<char>, resp: Seq<char>) -> Seq<char> {
    P_DECL_A@ + req + P_DECL_B@ + resp + P_DECL_C@ + req + P_DECL_D@ + resp + P_METHODS@
}

/// The response channel and the start of the daemon thread.
pub open spec fn daemon_start_text(first: Seq<char>, max: Seq<char>, resp: Seq<char>) -> Seq<char> {
    P_RESP_CHAN@ + resp + P_SPAWN@ + first + P_EQ@ + first + P_MOVE@ + max + P_MAX_END@
}

/// The daemon's answer for stage `c` to a task count request: its live
/// workers and its queued requests.
pub open spec fn task_arm_text(c: FlatClosureSpec) -> Seq<char> {
    TASK_ARM_A@ + c.id + TASK_ARM_B@ + c.id + TASK_ARM_C@ + c.id + TASK_ARM_D@
}

pub open spec fn task_arms(s: Seq<FlatClosureSpec>) -> Seq<char> {
    concat_n(|i: int| task_arm_text(s[i]), s.len() as int)
}

/// The daemon's answers to monitoring requests, and its shutdown check: the
/// thread usage is the number of live workers of all stages; the task count of
/// a stage, asked by its name, is its live workers plus its queued requests;
/// for a name that no stage has, it is the live workers of all stages plus the
/// requests queued at the first stage (`first` is that stage's sender).
pub open spec fn monitor_text(s: Seq<FlatClosureSpec>, first: Seq<char>) -> Seq<char> {
    P_USAGE@ + len_sum(s) + P_TASKS@ + task_arms(s) + TASK_OTHER@ + len_sum(s) + P_PLUS@ + first
        + P_SHUTDOWN@
}

/// The daemon's wait for all workers, and the construction of the pool.
pub open spec fn shutdown_text(s: Seq<FlatClosureSpec>, first: Seq<char>) -> Seq<char> {
    P_STOP@ + all_empty(s) + P_STOP_END@ + first + P_TAIL@
}

/// The pool for the flattened steps: one request channel and one list of
/// workers per closure step (dispatchers get none), requests entering at the
/// first closure step and responses leaving from the last; a daemon thread
/// starts workers as the stage limits allow (each round, `pods_size` starts as
/// the live workers of all stages), answers the monitoring requests and, on
/// shutdown, waits for the workers to finish. A stage may run several workers
/// at once, so responses need not leave in the order the requests came in.
pub open spec fn pool_text(steps: Seq<FlatSpec>, g: Option<ConstraintsSpec>) -> Result<
    Seq<char>,
    GenError,
> {
    let s = closure_steps(steps);
    if s.len() == 0 {
        Err(GenError::NoClosure)
    } else {
        let req = one_or_tuple(type_texts(s[0].arg_ty));
        let resp = response_type_text(s.last().ret_ty);
        let first = TX@ + s[0].id;
        Ok(
            pool_decl_text(req, resp) + chans(s) + daemon_start_text(first, max_threads_text(g), resp)
                + pods_inits(s) + P_LOOP@ + cleans(s) + P_SIZE@ + len_sum(s) + P_SIZE_END@ + creators(steps, s, g) + monitor_text(s, first) + cleans(s) + shutdown_text(s, first),
        )
    }
}

/// `t` occurs in `s`.
pub open spec fn occurs_in(t: Seq<char>, s: Seq<char>) -> bool {
    exists|i: int| 0 <= i && i + t.len() <= s.len() && #[trigger] s.subrange(i, i + t.len()) == t
}

/// What occurs in a text occurs in any text around it.
pub proof fn lemma_occurs_wrap(t: Seq<char>, a: Seq<char>, u: Seq<char>, b: Seq<char>)
    requires
        occurs_in(t, u),
    ensures
        occurs_in(t, a + u + b),
{
    let i = choose|i: int| 0 <= i && i + t.len() <= u.len() && #[trigger] u.subrange(i, i + t.len()) == t;
    let v = a + u + b;
    assert(v.subrange(a.len() + i, a.len() + i + t.len()) =~= u.subrange(i, i + t.len()));
}

/// The pool for the pipeline's limits `g` with `max_threads: m` sets
/// `max_thread_count` to the text of `m`.
pub proof fn lemma_pool_sets_limit(steps: Seq<FlatSpec>, g: Option<ConstraintsSpec>, m: Seq<Tok>)
    requires
        closure_steps(steps).len() > 0,
        g matches Some(x) && x.max_threads == Some(m),
    ensures
        pool_text(steps, g) is Ok,
        occurs_in(P_MOVE@ + render(m) + P_MAX_END@, pool_text(steps, g)->Ok_0),
{
    let s = closure_steps(steps);
    let req = one_or_tuple(type_texts(s[0].arg_ty));
    let resp = response_type_text(s.last().ret_ty);
    let first = TX@ + s[0].id;
    let t = P_MOVE@ + render(m) + P_MAX_END@;
    assert(max_threads_text(g) == render(m));
    let dpre = P_RESP_CHAN@ + resp + P_SPAWN@ + first + P_EQ@ + first;
    let d = daemon_start_text(first, max_threads_text(g), resp);
    assert(d =~= dpre + t);
    let a = pool_decl_text(req, resp) + chans(s);
    let v = a + d;
    let u1 = v + pods_inits(s);
    let u2 = u1 + P_LOOP@;
    let u3 = u2 + cleans(s);
    let u4 = u3 + P_SIZE@;
    let u5 = u4 + len_sum(s);
    let u6 = u5 + P_SIZE_END@;
    let u7 = u6 + creators(steps, s, g);
    let u8 = u7 + monitor_text(s, first);
    let u9 = u8 + cleans(s);
    let pool = u9 + shutdown_text(s, first);
    assert(pool_text(steps, g) == Ok::<Seq<char>, GenError>(pool));
    lemma_prefix_grows(v, v, pods_inits(s));
    lemma_prefix_grows(v, u1, P_LOOP@);
    lemma_prefix_grows(v, u2, cleans(s));
    lemma_prefix_grows(v, u3, P_SIZE@);
    lemma_prefix_grows(v, u4, len_sum(s));
    lemma_prefix_grows(v, u5, P_SIZE_END@);
    lemma_prefix_grows(v, u6, creators(steps, s, g));
    lemma_prefix_grows(v, u7, monitor_text(s, first));
    lemma_prefix_grows(v, u8, cleans(s));
    lemma_prefix_grows(v, u9, shutdown_text(s, first));
    let i: int = (a.len() + dpre.len()) as int;
    let e: int = i + t.len();
    assert(pool.subrange(i, e) =~= t) by {
        assert(pool.subrange(i, e) =~= v.subrange(i, e));
        assert(v.subrange(i, e) =~= d.subrange(dpre.len() as int, (dpre.len() + t.len()) as int));
    }
}

/// A prefix of a text stays a prefix when the text grows.
proof fn lemma_prefix_grows(v: Seq<char>, u: Seq<char>, w: Seq<char>)
    requires
        v == u || v.is_prefix_of(u),
    ensures
        v.is_prefix_of(u + w),
{
    assert((u + w).subrange(0, v.len() as int) =~= v);
}

fn append_response_type(out: &mut String, t: &TypePath)
    ensures
        final(out)@ == old(out)@ + response_type_text(t@),
{
    if t.segments.len() == 1 && t.tokens.len() >= 2 && match &t.tokens[0] {
        Tok::Punct(c, _) => *c == ':',
        _ => false,
    } {
        append_range(out, &t.tokens, 2, t.tokens.len());
        assert(t.tokens@.subrange(2, t.tokens@.len() as int) =~= t.tokens@.skip(2));
    } else {
        append_type(out, t);
    }
    assert(t@.segments.len() == t.segments@.len());
}

fn append_max_threads(out: &mut String, g: Option<&ThreadConstraints>)
    ensures
        final(out)@ == old(out)@ + max_threads_text(constraints_ref_view(g)),
{
    match g {
        Some(ThreadConstraints { max_threads: Some(m), .. }) => {
            append_range(out, &m.tokens, 0, m.tokens.len());
            assert(m.tokens@.subrange(0, m.tokens@.len() as int) =~= m.tokens@);
        },
        _ => {
            out.append(CPU_COUNT);
        },
    }
}

fn append_pool_decl(out: &mut String, first: &ClosureMacrosFlatten, last: &ClosureMacrosFlatten)
    ensures
        final(out)@ == old(out)@ + pool_decl_text(
            one_or_tuple(type_texts(first@.arg_ty)),
            response_type_text(last@.ret_ty),
        ),
{
    out.append(P_DECL_A);
    append_types_one_or_tuple(out, &first.arg_ty);
    out.append(P_DECL_B);
    append_response_type(out, &last.ret_ty);
    out.append(P_DECL_C);
    append_types_one_or_tuple(out, &first.arg_ty);
    out.append(P_DECL_D);
    append_response_type(out, &last.ret_ty);
    out.append(P_METHODS);
    assert(final(out)@ =~= old(out)@ + pool_decl_text(
        one_or_tuple(type_texts(first@.arg_ty)),
        response_type_text(last@.ret_ty),
    ));
}

fn append_daemon_start(
    out: &mut String,
    first_tx: &str,
    g: Option<&ThreadConstraints>,
    last: &ClosureMacrosFlatten,
)
    ensures
        final(out)@ == old(out)@ + daemon_start_text(
            first_tx@,
            max_threads_text(constraints_ref_view(g)),
            response_type_text(last@.ret_ty),
        ),
{
    out.append(P_RESP_CHAN);
    append_response_type(out, &last.ret_ty);
    out.append(P_SPAWN);
    out.append(first_tx);
    out.append(P_EQ);
    out.append(first_tx);
    out.append(P_MOVE);
    append_max_threads(out, g);
    out.append(P_MAX_END);
    assert(final(out)@ =~= old(out)@ + daemon_start_text(
        first_tx@,
        max_threads_text(constraints_ref_view(g)),
        response_type_text(last@.ret_ty),
    ));
}

fn append_task_arms(out: &mut String, s: &Vec<&ClosureMacrosFlatten>)
    ensures
        final(out)@ == old(out)@ + task_arms(refs_view(s@)),
{
    let ghost sv = refs_view(s@);
    let ghost f = |i: int| task_arm_text(sv[i]);
    let mut i: usize = 0;
    while i < s.len()
        invariant
            i <= s@.len(),
            sv == refs_view(s@),
            f == (|i: int| task_arm_text(sv[i])),
            out@ == old(out)@ + concat_n(f, i as int),
        decreases s@.len() - i,
    {
        let c = s[i];
        assert(sv[i as int] == c@);
        out.append(TASK_ARM_A);
        out.append(c.id.as_str());
        out.append(TASK_ARM_B);
        out.append(c.id.as_str());
        out.append(TASK_ARM_C);
        out.append(c.id.as_str());
        out.append(TASK_ARM_D);
        assert(out@ =~= old(out)@ + concat_n(f, i + 1));
        i = i + 1;
    }
}

fn append_monitor(out: &mut String, s: &Vec<&ClosureMacrosFlatten>, first_tx: &str)
    ensures
        final(out)@ == old(out)@ + monitor_text(refs_view(s@), first_tx@),
{
    out.append(P_USAGE);
    append_len_sum(out, s);
    out.append(P_TASKS);
    append_task_arms(out, s);
    out.append(TASK_OTHER);
    append_len_sum(out, s);
    out.append(P_PLUS);
    out.append(first_tx);
    out.append(P_SHUTDOWN);
    assert(final(out)@ =~= old(out)@ + monitor_text(refs_view(s@), first_tx@));
}

fn append_shutdown(out: &mut String, s: &Vec<&ClosureMacrosFlatten>, first_tx: &str)
    ensures
        final(out)@ == old(out)@ + shutdown_text(refs_view(s@), first_tx@),
{
    out.append(P_STOP);
    append_all_empty(out, s);
    out.append(P_STOP_END);
    out.append(first_tx);
    out.append(P_TAIL);
    assert(final(out)@ =~= old(out)@ + shutdown_text(refs_view(s@), first_tx@));
}

/// The source text of the pool for the flattened steps (see `pool_text`).
pub fn generate_pool(
    closures: &Vec<PipeNodeFlatten>,
    global_constraints: Option<&ThreadConstraints>,
) -> (r: Result<String, GenError>)
    requires
        all_have_args(closure_steps(flats_view(closures@))),
    ensures
        match r {
            Ok(text) => pool_text(flats_view(closures@), constraints_ref_view(global_constraints))
                == Ok::<Seq<char>, GenError>(text@),
            Err(e) => pool_text(flats_view(closures@), constraints_ref_view(global_constraints))
                == Err::<Seq<char>, GenError>(e),
        },
{
    let (s, pos) = collect_closures(closures);
    proof {
        lemma_closure_positions(flats_view(closures@));
    }
    if s.len() == 0 {
        return Err(GenError::NoClosure);
    }
    let ghost sv = refs_view(s@);
    let first = s[0];
    let last = s[s.len() - 1];
    assert(sv[0] == first@);
    assert(sv.last() == last@);
    let first_tx = prefixed(TX, &first.id);
    let mut out = String::new();
    append_pool_decl(&mut out, first, last);
    append_chans(&mut out, &s);
    append_daemon_start(&mut out, first_tx.as_str(), global_constraints, last);
    append_pods_inits(&mut out, &s);
    out.append(P_LOOP);
    append_cleans(&mut out, &s);
    out.append(P_SIZE);
    append_len_sum(&mut out, &s);
    out.append(P_SIZE_END);
    append_creators(&mut out, closures, &s, &pos, global_constraints);
    append_monitor(&mut out, &s, first_tx.as_str());
    append_cleans(&mut out, &s);
    append_shutdown(&mut out, &s, first_tx.as_str());
    assert(out@ =~= pool_text(flats_view(closures@), constraints_ref_view(global_constraints))->Ok_0);
    Ok(out)
}

} // verus!
