use vstd::prelude::*;
use vstd::string::*;

use crate::parse::{
    string_opt_view, types_view, ConstraintsSpec, Expr, ThreadConstraints, TypePath, TypeSpec,
};
use crate::template::text::{append_type, type_text};
use crate::tokens::{append_range, render, str_eq, Tok};

verus! {

// ---------------------------------------------------------------------------
// Type matching and routing tables
// ---------------------------------------------------------------------------

/// Two tokens are alike: the same token, whatever the spacing after a
/// punctuation character.
pub open spec fn same_tok(a: Tok, b: Tok) -> bool {
    match (a, b) {
        (Tok::Ident(x), Tok::Ident(y)) => x@ == y@,
        (Tok::Punct(x, _), Tok::Punct(y, _)) => x == y,
        (Tok::Literal(x), Tok::Literal(y)) => x@ == y@,
        (Tok::Open(x), Tok::Open(y)) => x == y,
        (Tok::Close(x), Tok::Close(y)) => x == y,
        _ => false,
    }
}

/// The tokens of a type after its leading `::`, if it has one.
pub open spec fn path_tokens(t: TypeSpec) -> Seq<Tok> {
    if t.leading_colon && t.tokens.len() >= 2 {
        t.tokens.skip(2)
    } else {
        t.tokens
    }
}

/// Type matching for routing: two types match when their path segments have
/// the same names and their tokens, generic arguments included, are the same
/// apart from a leading `::` and spacing. So `::std::string::String` matches
/// `std::string::String`, and `Vec<u8>` matches `Vec<u8>` but not
/// `Vec<String>`.
pub open spec fn spec_type_matches(a: TypeSpec, b: TypeSpec) -> bool {
    &&& a.segments == b.segments
    &&& path_tokens(a).len() == path_tokens(b).len()
    &&& forall|i: int|
        0 <= i < path_tokens(a).len() ==> #[trigger] same_tok(path_tokens(a)[i], path_tokens(b)[i])
}

fn same_token(a: &Tok, b: &Tok) -> (r: bool)
    ensures
        r == same_tok(*a, *b),
{
    match (a, b) {
        (Tok::Ident(x), Tok::Ident(y)) => str_eq(x.as_str(), y.as_str()),
        (Tok::Punct(x, _), Tok::Punct(y, _)) => *x == *y,
        (Tok::Literal(x), Tok::Literal(y)) => str_eq(x.as_str(), y.as_str()),
        (Tok::Open(x), Tok::Open(y)) => *x == *y,
        (Tok::Close(x), Tok::Close(y)) => *x == *y,
        _ => false,
    }
}

fn path_start(t: &TypePath) -> (r: usize)
    ensures
        r <= t.tokens@.len(),
        path_tokens(t@) == t.tokens@.skip(r as int),
{
    if t.leading_colon && t.tokens.len() >= 2 {
        2
    } else {
        assert(t.tokens@.skip(0) =~= t.tokens@);
        0
    }
}

/// Whether the segment names of two types are the same.
fn same_segments(a: &TypePath, b: &TypePath) -> (r: bool)
    ensures
        r == (a@.segments == b@.segments),
{
    if a.segments.len() != b.segments.len() {
        assert(a.segments.deep_view().len() != b.segments.deep_view().len());
        return false;
    }
    let mut i: usize = 0;
    while i < a.segments.len()
        invariant
            i <= a.segments@.len() == b.segments@.len(),
            forall|j: int| 0 <= j < i ==> a.segments.deep_view()[j] == b.segments.deep_view()[j],
        decreases a.segments@.len() - i,
    {
        if !str_eq(a.segments[i].as_str(), b.segments[i].as_str()) {
            assert(a.segments.deep_view()[i as int] != b.segments.deep_view()[i as int]);
            return false;
        }
        i = i + 1;
    }
    assert(a.segments.deep_view() =~= b.segments.deep_view());
    true
}

/// Whether two types match (see `spec_type_matches`).
pub fn type_matches(a: &TypePath, b: &TypePath) -> (r: bool)
    ensures
        r == spec_type_matches(a@, b@),
{
    if !same_segments(a, b) {
        return false;
    }
    let sa = path_start(a);
    let sb = path_start(b);
    let ghost pa = path_tokens(a@);
    let ghost pb = path_tokens(b@);
    if a.tokens.len() - sa != b.tokens.len() - sb {
        return false;
    }
    let la = a.tokens.len();
    let lb = b.tokens.len();
    let n = la - sa;
    let mut i: usize = 0;
    while i < n
        invariant
            i <= n,
            n == pa.len(),
            n == pb.len(),
            sa + n == la,
            sb + n == lb,
            la == a.tokens@.len(),
            lb == b.tokens@.len(),
            pa == a.tokens@.skip(sa as int),
            pb == b.tokens@.skip(sb as int),
            pa == path_tokens(a@),
            pb == path_tokens(b@),
            a@.segments == b@.segments,
            forall|j: int| 0 <= j < i ==> #[trigger] same_tok(pa[j], pb[j]),
        decreases n - i,
    {
        assert(pa[i as int] == a.tokens@[sa + i]);
        assert(pb[i as int] == b.tokens@[sb + i]);
        if !same_token(&a.tokens[sa + i], &b.tokens[sb + i]) {
            assert(!same_tok(pa[i as int], pb[i as int]));
            return false;
        }
        i = i + 1;
    }
    true
}

/// Type matching is an equivalence: every type matches itself, matching is
/// symmetric, and two types that match a third match each other.
pub proof fn lemma_type_matches_equivalence(a: TypeSpec, b: TypeSpec, c: TypeSpec)
    ensures
        spec_type_matches(a, a),
        spec_type_matches(a, b) == spec_type_matches(b, a),
        spec_type_matches(a, b) && spec_type_matches(b, c) ==> spec_type_matches(a, c),
{
    let (pa, pb, pc) = (path_tokens(a), path_tokens(b), path_tokens(c));
    assert forall|i: int| 0 <= i < pa.len() implies #[trigger] same_tok(pa[i], pa[i]) by {}
    if spec_type_matches(a, b) {
        assert forall|i: int| 0 <= i < pb.len() implies #[trigger] same_tok(pb[i], pa[i]) by {
            assert(same_tok(pa[i], pb[i]));
        }
    }
    if spec_type_matches(b, a) {
        assert forall|i: int| 0 <= i < pa.len() implies #[trigger] same_tok(pa[i], pb[i]) by {
            assert(same_tok(pb[i], pa[i]));
        }
    }
    if spec_type_matches(a, b) && spec_type_matches(b, c) {
        assert forall|i: int| 0 <= i < pa.len() implies #[trigger] same_tok(pa[i], pc[i]) by {
            assert(same_tok(pa[i], pb[i]));
            assert(same_tok(pb[i], pc[i]));
        }
    }
}

pub const ROUTING_DECL: &'static str = "let mut routing_table: ::std::collections::HashMap<&'static str, ::ichika::flume::Sender<";

pub const ROUTING_NEW: &'static str = ">> = ::std::collections::HashMap::new();\n";

pub const ROUTE_INSERT: &'static str = "routing_table.insert(\"";

pub const ROUTE_TX: &'static str = "\", tx_";

pub const ROUTE_END: &'static str = ".clone());\n";

/// The routing table entry of stage `name`.
pub open spec fn route_entry(name: Seq<char>) -> Seq<char> {
    ROUTE_INSERT@ + name + ROUTE_TX@ + name + ROUTE_END@
}

/// The entries for the first `n` (name, input type) pairs: one for each stage
/// whose input type matches `out_ty`, in order.
pub open spec fn route_entries(
    out_ty: TypeSpec,
    names: Seq<Seq<char>>,
    tys: Seq<TypeSpec>,
    n: int,
) -> Seq<char>
    decreases n,
{
    if n <= 0 {
        Seq::empty()
    } else {
        route_entries(out_ty, names, tys, n - 1) + if spec_type_matches(tys[n - 1], out_ty) {
            route_entry(names[n - 1])
        } else {
            Seq::empty()
        }
    }
}

/// A routing table from stage names to the senders of the stages whose input
/// type matches `out_ty`, the output type of the current step.
pub open spec fn routing_table_text(out_ty: TypeSpec, names: Seq<Seq<char>>, tys: Seq<TypeSpec>) -> Seq<
    char,
> {
    let n = if names.len() < tys.len() {
        names.len()
    } else {
        tys.len()
    };
    ROUTING_DECL@ + type_text(out_ty) + ROUTING_NEW@ + route_entries(out_ty, names, tys, n as int)
}

/// Generate the routing table code that maps closure names to their tx channels.
/// Only includes targets whose Request type matches the current step's Response type.
pub fn generate_routing_table(
    current_output_type: &TypePath,
    closure_names: &Vec<String>,
    closure_input_types: &Vec<TypePath>,
) -> (r: String)
    ensures
        r@ == routing_table_text(
            current_output_type@,
            closure_names.deep_view(),
            types_view(closure_input_types@),
        ),
{
    let ghost names = closure_names.deep_view();
    let ghost tys = types_view(closure_input_types@);
    let n = if closure_names.len() < closure_input_types.len() {
        closure_names.len()
    } else {
        closure_input_types.len()
    };
    let mut out = String::new();
    out.append(ROUTING_DECL);
    append_type(&mut out, current_output_type);
    out.append(ROUTING_NEW);
    let ghost head = out@;
    let mut i: usize = 0;
    while i < n
        invariant
            i <= n <= closure_names@.len(),
            n <= closure_input_types@.len(),
            names == closure_names.deep_view(),
            tys == types_view(closure_input_types@),
            out@ == head + route_entries(current_output_type@, names, tys, i as int),
        decreases n - i,
    {
        assert(tys[i as int] == closure_input_types@[i as int]@);
        if type_matches(&closure_input_types[i], current_output_type) {
            let name = closure_names[i].as_str();
            out.append(ROUTE_INSERT);
            out.append(name);
            out.append(ROUTE_TX);
            out.append(name);
            out.append(ROUTE_END);
        }
        assert(out@ =~= head + route_entries(current_output_type@, names, tys, i + 1));
        i = i + 1;
    }
    assert(out@ =~= routing_table_text(current_output_type@, names, tys));
    out
}

// ---------------------------------------------------------------------------
// The code that starts the workers of one stage
// ---------------------------------------------------------------------------

pub const SPAWN_CHECK: &'static str = "::ichika::pool::spawn_allowed(\n        !";

pub const HAS_WORK: &'static str = ".is_empty(),\n        later_pods_size,\n        ";

pub const POOL_LIMIT: &'static str = ".len(),\n        max_thread_count,\n        ";

pub const ARG_SEP: &'static str = ",\n        ";

pub const BACKLOG: &'static str = ".len(),\n    )";

pub const SOME_OPEN: &'static str = "Some(";

pub const SOME_CLOSE: &'static str = ")";

pub const NONE: &'static str = "None";

/// An optional limit as an argument: `Some(expr)` or `None`.
pub open spec fn opt_arg_text(e: Option<Seq<Tok>>) -> Seq<char> {
    match e {
        Some(t) => SOME_OPEN@ + render(t) + SOME_CLOSE@,
        None => NONE@,
    }
}

/// A stage's own `max_threads` and `min_threads`, where it has limits.
pub open spec fn max_of(c: Option<ConstraintsSpec>) -> Option<Seq<Tok>> {
    match c {
        Some(x) => x.max_threads,
        None => None,
    }
}

pub open spec fn min_of(c: Option<ConstraintsSpec>) -> Option<Seq<Tok>> {
    match c {
        Some(x) => x.min_threads,
        None => None,
    }
}

/// The condition under which one more worker of a stage starts: the verified
/// `spawn_allowed` decision on whether a request is waiting, the running count
/// of workers of the stages before, the stage's workers, the pool's limit, the
/// stage's own limits and its backlog.
pub open spec fn limit_check_text(rx: Seq<char>, pods: Seq<char>, c: Option<ConstraintsSpec>) -> Seq<
    char,
> {
    SPAWN_CHECK@ + rx + HAS_WORK@ + pods + POOL_LIMIT@ + opt_arg_text(max_of(c)) + ARG_SEP@
        + opt_arg_text(min_of(c)) + ARG_SEP@ + rx + BACKLOG@
}

pub open spec fn constraints_ref_view(c: Option<&ThreadConstraints>) -> Option<ConstraintsSpec> {
    match c {
        Some(x) => Some(x@),
        None => None,
    }
}

fn append_opt_arg(out: &mut String, e: Option<&Expr>)
    ensures
        final(out)@ == old(out)@ + opt_arg_text(
            match e {
                Some(x) => Some(x.tokens@),
                None => None,
            },
        ),
{
    match e {
        Some(x) => {
            out.append(SOME_OPEN);
            append_range(out, &x.tokens, 0, x.tokens.len());
            assert(x.tokens@.subrange(0, x.tokens@.len() as int) =~= x.tokens@);
            out.append(SOME_CLOSE);
        },
        None => {
            out.append(NONE);
        },
    }
    assert(final(out)@ =~= old(out)@ + opt_arg_text(
        match e {
            Some(x) => Some(x.tokens@),
            None => None,
        },
    ));
}

fn append_limit_check(
    out: &mut String,
    rx: &str,
    pods: &str,
    step_constraints: Option<&ThreadConstraints>,
)
    ensures
        final(out)@ == old(out)@ + limit_check_text(
            rx@,
            pods@,
            constraints_ref_view(step_constraints),
        ),
{
    let ghost c = constraints_ref_view(step_constraints);
    out.append(SPAWN_CHECK);
    out.append(rx);
    out.append(HAS_WORK);
    out.append(pods);
    out.append(POOL_LIMIT);
    let (max, min) = match step_constraints {
        Some(t) => (t.max_threads.as_ref(), t.min_threads.as_ref()),
        None => (None, None),
    };
    append_opt_arg(out, max);
    out.append(ARG_SEP);
    append_opt_arg(out, min);
    out.append(ARG_SEP);
    out.append(rx);
    out.append(BACKLOG);
    assert(final(out)@ =~= old(out)@ + limit_check_text(rx@, pods@, c));
}

/// The worker start of a stage declared with `max_threads: m` is guarded by
/// the `spawn_allowed` decision given `Some(m)` as the stage's maximum, so by
/// `lemma_spawn_keeps_limits` the stage never grows past `m` workers.
pub proof fn lemma_creator_checks_stage_limit(
    rx: Seq<char>,
    pods: Seq<char>,
    c: Option<ConstraintsSpec>,
    m: Seq<Tok>,
)
    requires
        c matches Some(x) && x.max_threads == Some(m),
    ensures
        limit_check_text(rx, pods, c) == SPAWN_CHECK@ + rx + HAS_WORK@ + pods + POOL_LIMIT@ + (
        SOME_OPEN@ + render(m) + SOME_CLOSE@) + ARG_SEP@ + opt_arg_text(min_of(c)) + ARG_SEP@ + rx
            + BACKLOG@,
{
}

pub const TC_LATER: &'static str = "let later_pods_size = pods_size - ";

pub const TC_IF: &'static str = ".len();\nif ";

pub const TC_SPAWN: &'static str = " {\n    let thread = std::thread::spawn({\n        let rx_request = ";

pub const TC_TX: &'static str = ".clone();\n        let tx_response = ";

pub const TC_ROUTING: &'static str = ".clone();\n        ";

pub const TC_LOOP: &'static str = "\n        move || {\n            while let Ok(req) = rx_request.try_recv() {\n                let mut req = req;\n                let mut attempt: usize = 0;\n                loop {\n                    let res = ";

pub const TC_RUN: &'static str = "::run(req.clone());\n                    match ::ichika::worker::worker_step(res, attempt) {\n                        ::ichika::worker::WorkerAction::Send(res) => {\n                            tx_response.send(res).unwrap();\n                            break;\n                        }\n                        ::ichika::worker::WorkerAction::Stop => {\n                            break;\n                        }\n                        ::ichika::worker::WorkerAction::Rerun(delay_ms, value) => {\n                            std::thread::sleep(std::time::Duration::from_millis(delay_ms));\n                            attempt = attempt + 1;\n";

/// The rerun takes the value the stage gave as its next request: possible
/// only where the stage's request and response types are the same.
pub const TC_RERUN_ON_VALUE: &'static str = "                            if let Some(value) = value {\n                                req = value;\n                            }\n";

/// The rerun takes the same request again; the value is dropped.
pub const TC_RERUN_SAME: &'static str = "                            let _ = value;\n";

pub const TC_FAIL: &'static str = "                            continue;\n                        }\n                        ::ichika::worker::WorkerAction::Fail(err) => {\n                            eprintln!(\"Step {} panicked: {:?}\", ";

pub const TC_ID_ERR: &'static str = "::id(), err);\n                            break;\n                        }\n                        ::ichika::worker::WorkerAction::Switch(target, payload) => {\n                            if let Some(tx) = routing_table.get(target) {\n                                tx.send(payload).unwrap();\n                            } else {\n                                eprintln!(\"Warning: Switch target '{}' not found or type incompatible, falling back to next step\", target);\n                                tx_response.send(payload).unwrap();\n                            }\n                            break;\n                        }\n                        ::ichika::worker::WorkerAction::FailSwitch(target, err) => {\n                            eprintln!(\"PanicSwitch to target '{}' with error: {:?}\", target, err);\n                            break;\n                        }\n                        ::ichika::worker::WorkerAction::Back(target, payload) => {\n                            if let Some(tx) = routing_table.get(target) {\n                                tx.send(payload).unwrap();\n                            } else {\n                                eprintln!(\"Warning: Back target '{}' not found or type incompatible, falling back to next step\", target);\n                                tx_response.send(payload).unwrap();\n                            }\n                            break;\n                        }\n                    };\n                }\n            }\n            ::ichika::anyhow::Ok(())\n        }\n    });\n    ";

pub const TC_PUSH: &'static str = ".push(::ichika::pod::ThreadPod::new(";

pub const TC_END: &'static str = "::id(), thread));\n}\nlet pods_size = later_pods_size;\n";

pub const DEFAULT_ROUTING: &'static str = "let routing_table: ::std::collections::HashMap<&str, ::ichika::flume::Sender<";

/// The routing setup of a worker: the given table, or else an empty one for
/// `output_type`.
pub open spec fn routing_setup_text(routing: Option<Seq<char>>, output_type: TypeSpec) -> Seq<char> {
    match routing {
        Some(t) => t,
        None => DEFAULT_ROUTING@ + type_text(output_type) + ROUTING_NEW@,
    }
}

/// The code that starts one worker for stage `step`, when the verified
/// `spawn_allowed` decision allows it, and records it among `pods` as a
/// `ThreadPod` named after the stage. `pods_size` holds the workers of this
/// stage and of the stages after it; the stages after it are what the check
/// counts besides this stage's own, and what `pods_size` holds for the next
/// stage. The worker reads from `rx` and hands each status its stage reports
/// to the verified `worker_step`, doing what it answers: send on to `tx`,
/// route through its routing table, report a failure, or wait and run the
/// stage again, on the value it gave when `rerun_on_value` (the stage's
/// request and response types are the same), else on the same request.
pub open spec fn thread_creator_text(
    rx: Seq<char>,
    tx: Seq<char>,
    step: Seq<char>,
    pods: Seq<char>,
    output_type: TypeSpec,
    routing: Option<Seq<char>>,
    c: Option<ConstraintsSpec>,
    rerun_on_value: bool,
) -> Seq<char> {
    TC_LATER@ + pods + TC_IF@ + limit_check_text(rx, pods, c) + TC_SPAWN@ + rx + TC_TX@ + tx
        + TC_ROUTING@ + routing_setup_text(routing, output_type) + TC_LOOP@ + step + TC_RUN@ + (
    if rerun_on_value {
        TC_RERUN_ON_VALUE@
    } else {
        TC_RERUN_SAME@
    }) + TC_FAIL@ + step + TC_ID_ERR@ + pods + TC_PUSH@ + step + TC_END@
}

/// The source text that starts the workers of one stage (see
/// `thread_creator_text`).
pub fn generate_thread_creator(
    rx_request: &String,
    tx_response: &String,
    target_step_ident: &String,
    target_step_pods_ident: &String,
    output_type: &TypePath,
    routing_targets: Option<String>,
    step_constraints: Option<&ThreadConstraints>,
    rerun_on_value: bool,
) -> (r: String)
    ensures
        r@ == thread_creator_text(
            rx_request@,
            tx_response@,
            target_step_ident@,
            target_step_pods_ident@,
            output_type@,
            string_opt_view(routing_targets),
            constraints_ref_view(step_constraints),
            rerun_on_value,
        ),
{
    let rx = rx_request.as_str();
    let pods = target_step_pods_ident.as_str();
    let step = target_step_ident.as_str();
    let mut out = String::new();
    out.append(TC_LATER);
    out.append(pods);
    out.append(TC_IF);
    append_limit_check(&mut out, rx, pods, step_constraints);
    out.append(TC_SPAWN);
    out.append(rx);
    out.append(TC_TX);
    out.append(tx_response.as_str());
    out.append(TC_ROUTING);
    let ghost before_routing = out@;
    match &routing_targets {
        Some(t) => {
            out.append(t.as_str());
        },
        None => {
            out.append(DEFAULT_ROUTING);
            append_type(&mut out, output_type);
            out.append(ROUTING_NEW);
        },
    }
    assert(out@ =~= before_routing + routing_setup_text(string_opt_view(routing_targets), output_type@));
    out.append(TC_LOOP);
    out.append(step);
    out.append(TC_RUN);
    if rerun_on_value {
        out.append(TC_RERUN_ON_VALUE);
    } else {
        out.append(TC_RERUN_SAME);
    }
    out.append(TC_FAIL);
    out.append(step);
    out.append(TC_ID_ERR);
    out.append(pods);
    out.append(TC_PUSH);
    out.append(step);
    out.append(TC_END);
    assert(out@ =~= thread_creator_text(
        rx_request@,
        tx_response@,
        target_step_ident@,
        target_step_pods_ident@,
        output_type@,
        string_opt_view(routing_targets),
        constraints_ref_view(step_constraints),
        rerun_on_value,
    ));
    out
}

} // verus!
