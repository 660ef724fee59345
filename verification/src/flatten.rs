use vstd::prelude::*;

use crate::parse::{
    constraints_opt_view, types_view, ArmSpec, ClosureSpec, ConstraintsSpec, Expr, MatchNode,
    NodeSpec, PipeMacros, PipeNode, PipeSpec, ThreadConstraints, TypePath, TypeSpec,
};
use crate::tokens::{append_decimal, decimal, Tok};

verus! {

// ---------------------------------------------------------------------------
// The flat form of a pipeline: named closures and `match` dispatchers
// ---------------------------------------------------------------------------

/// A closure step with its final name.
#[derive(Debug)]
pub struct ClosureMacrosFlatten {
    pub id: String,
    pub constraints: Option<ThreadConstraints>,
    pub is_async: bool,
    pub arg: Vec<String>,
    pub arg_ty: Vec<TypePath>,
    pub ret_ty: TypePath,
    pub body: Vec<Tok>,
}

pub struct FlatClosureSpec {
    pub id: Seq<char>,
    pub constraints: Option<ConstraintsSpec>,
    pub is_async: bool,
    pub arg: Seq<Seq<char>>,
    pub arg_ty: Seq<TypeSpec>,
    pub ret_ty: TypeSpec,
    pub body: Seq<Tok>,
}

impl View for ClosureMacrosFlatten {
    type V = FlatClosureSpec;

    open spec fn view(&self) -> FlatClosureSpec {
        FlatClosureSpec {
            id: self.id@,
            constraints: constraints_opt_view(self.constraints),
            is_async: self.is_async,
            arg: self.arg.deep_view(),
            arg_ty: types_view(self.arg_ty@),
            ret_ty: self.ret_ty@,
            body: self.body@,
        }
    }
}

/// One arm of a dispatcher: its condition and the name of the step it
/// switches to (a closure, or the dispatcher of a nested `match`).
#[derive(Debug)]
pub struct BranchInfo {
    pub condition: Expr,
    pub target_id: String,
}

pub struct BranchSpec {
    pub condition: Seq<Tok>,
    pub target_id: Seq<char>,
}

impl View for BranchInfo {
    type V = BranchSpec;

    open spec fn view(&self) -> BranchSpec {
        BranchSpec { condition: self.condition.tokens@, target_id: self.target_id@ }
    }
}

pub open spec fn branches_view(v: Seq<BranchInfo>) -> Seq<BranchSpec> {
    Seq::new(v.len(), |i: int| v[i]@)
}

/// The routing step that a `match` becomes: it passes its input on, unchanged,
/// to the closure of the first arm whose condition matches.
#[derive(Debug)]
pub struct DispatcherMacrosFlatten {
    pub id: String,
    pub input_ty: TypePath,
    pub output_ty: TypePath,
    pub branches: Vec<BranchInfo>,
}

pub struct DispatcherSpec {
    pub id: Seq<char>,
    pub input_ty: TypeSpec,
    pub output_ty: TypeSpec,
    pub branches: Seq<BranchSpec>,
}

impl View for DispatcherMacrosFlatten {
    type V = DispatcherSpec;

    open spec fn view(&self) -> DispatcherSpec {
        DispatcherSpec {
            id: self.id@,
            input_ty: self.input_ty@,
            output_ty: self.output_ty@,
            branches: branches_view(self.branches@),
        }
    }
}

#[derive(Debug)]
pub enum PipeNodeFlatten {
    Closure(ClosureMacrosFlatten),
    Dispatcher(DispatcherMacrosFlatten),
}

pub enum FlatSpec {
    Closure(FlatClosureSpec),
    Dispatcher(DispatcherSpec),
}

impl View for PipeNodeFlatten {
    type V = FlatSpec;

    open spec fn view(&self) -> FlatSpec {
        match self {
            PipeNodeFlatten::Closure(c) => FlatSpec::Closure(c@),
            PipeNodeFlatten::Dispatcher(d) => FlatSpec::Dispatcher(d@),
        }
    }
}

pub open spec fn flats_view(v: Seq<PipeNodeFlatten>) -> Seq<FlatSpec> {
    Seq::new(v.len(), |i: int| v[i]@)
}

/// Why a pipeline cannot be flattened.
#[derive(Clone, Copy, Debug, PartialEq, Eq, Structural)]
pub enum RewriteError {
    /// A `match` without arms.
    EmptyMatch,
    /// The closure that gives a `match` its input type takes no argument.
    MissingInputType,
}

impl RewriteError {
    /// The message reported for the error.
    pub fn message(&self) -> (m: &'static str)
        ensures
            m@ == self.spec_message(),
    {
        match self {
            RewriteError::EmptyMatch => "Empty match",
            RewriteError::MissingInputType => "Missing input type",
        }
    }

    pub open spec fn spec_message(&self) -> Seq<char> {
        match self {
            RewriteError::EmptyMatch => "Empty match"@,
            RewriteError::MissingInputType => "Missing input type"@,
        }
    }
}

// ---------------------------------------------------------------------------
// Naming and flattening
// ---------------------------------------------------------------------------

/// The flat form of a closure step: its own name, or else `prefix`.
pub open spec fn flat_closure(prefix: Seq<char>, c: ClosureSpec) -> FlatClosureSpec {
    FlatClosureSpec {
        id: match c.id {
            Some(x) => x,
            None => prefix,
        },
        constraints: c.constraints,
        is_async: c.is_async,
        arg: c.arg,
        arg_ty: c.arg_ty,
        ret_ty: c.ret_ty,
        body: c.body,
    }
}

/// The name of the dispatcher of a `match` step named `prefix`.
pub open spec fn dispatcher_name(prefix: Seq<char>) -> Seq<char> {
    prefix + "_match_dispatcher"@
}

/// The name prefix of arm `i` of a step named `prefix`.
pub open spec fn arm_prefix(prefix: Seq<char>, i: nat) -> Seq<char> {
    prefix + "_"@ + decimal(i)
}

/// The dispatcher of a `match` step named `prefix` followed by the flat forms
/// of its arms, or the error met on the way.
pub open spec fn with_dispatcher(
    prefix: Seq<char>,
    input_ty: TypeSpec,
    arms: Result<(Seq<FlatSpec>, Seq<BranchSpec>), RewriteError>,
) -> Result<Seq<FlatSpec>, RewriteError> {
    match arms {
        Err(e) => Err(e),
        Ok((nodes, branches)) => Ok(
            seq![
                FlatSpec::Dispatcher(
                    DispatcherSpec {
                        id: dispatcher_name(prefix),
                        input_ty,
                        output_ty: input_ty,
                        branches,
                    },
                ),
            ] + nodes,
        ),
    }
}

/// The name of a flat step.
pub open spec fn flat_id(n: FlatSpec) -> Seq<char> {
    match n {
        FlatSpec::Closure(c) => c.id,
        FlatSpec::Dispatcher(d) => d.id,
    }
}

/// The input type of a step: a closure's first argument type; for a `match`,
/// the input type of its first arm, at any depth.
pub open spec fn node_input(n: NodeSpec) -> Result<TypeSpec, RewriteError>
    decreases n,
{
    match n {
        NodeSpec::Closure(c) => if c.arg_ty.len() == 0 {
            Err(RewriteError::MissingInputType)
        } else {
            Ok(c.arg_ty[0])
        },
        NodeSpec::Match(arms) => if arms.len() == 0 {
            Err(RewriteError::EmptyMatch)
        } else {
            proof {
                assert(decreases_to!(arms => arms[0]));
            }
            node_input(arms[0].body)
        },
    }
}

/// The flat form of one step named `prefix`: a closure stays one closure; a
/// `match` becomes its dispatcher followed by the flat forms of its arms, which
/// may themselves be `match`es.
pub open spec fn flat_node(prefix: Seq<char>, n: NodeSpec) -> Result<Seq<FlatSpec>, RewriteError>
    decreases n, 0nat,
{
    match n {
        NodeSpec::Closure(c) => Ok(seq![FlatSpec::Closure(flat_closure(prefix, c))]),
        NodeSpec::Match(arms) => match node_input(n) {
            Err(e) => Err(e),
            Ok(t) => with_dispatcher(prefix, t, flat_arms(prefix, arms, 0)),
        },
    }
}

/// The flat forms of arms `i..` of a `match` step named `prefix`, and the
/// dispatcher branches that lead to them: the branch of an arm targets the
/// first flat step of that arm (its closure, or the dispatcher of a nested
/// `match`).
pub open spec fn flat_arms(prefix: Seq<char>, arms: Seq<ArmSpec>, i: nat) -> Result<
    (Seq<FlatSpec>, Seq<BranchSpec>),
    RewriteError,
>
    decreases arms, arms.len() - i,
{
    if i >= arms.len() {
        Ok((Seq::empty(), Seq::empty()))
    } else {
        proof {
            assert(decreases_to!(arms => arms[i as int]));
        }
        match flat_node(arm_prefix(prefix, i), arms[i as int].body) {
            Err(e) => Err(e),
            Ok(nodes) => match flat_arms(prefix, arms, i + 1) {
                Err(e) => Err(e),
                Ok((rest, branches)) => Ok(
                    (
                        nodes + rest,
                        seq![
                            BranchSpec {
                                condition: arms[i as int].condition,
                                target_id: flat_id(nodes[0]),
                            },
                        ] + branches,
                    ),
                ),
            },
        }
    }
}

// ---------------------------------------------------------------------------
// What flattening guarantees
// ---------------------------------------------------------------------------

/// A closure step flattens to itself alone, named by its own name or else by
/// the prefix; a `match` step that flattens gives a list that starts with its
/// dispatcher, named after the prefix, whose input type is the step's input
/// type and whose output type is its input type.
pub proof fn lemma_flat_node_shape(prefix: Seq<char>, n: NodeSpec)
    ensures
        n matches NodeSpec::Closure(c) ==> flat_node(prefix, n) == Ok::<
            Seq<FlatSpec>,
            RewriteError,
        >(seq![FlatSpec::Closure(flat_closure(prefix, c))]),
        flat_node(prefix, n) matches Ok(v) ==> v.len() >= 1,
        (n is Match && flat_node(prefix, n) is Ok) ==> ({
            let v = flat_node(prefix, n)->Ok_0;
            &&& v[0] is Dispatcher
            &&& v[0]->Dispatcher_0.id == dispatcher_name(prefix)
            &&& node_input(n) == Ok::<TypeSpec, RewriteError>(v[0]->Dispatcher_0.input_ty)
            &&& v[0]->Dispatcher_0.output_ty == v[0]->Dispatcher_0.input_ty
        }),
{
}

/// The flat forms of the arms `i..` of a `match` named `prefix`, laid end to
/// end.
pub open spec fn arm_flats(prefix: Seq<char>, arms: Seq<ArmSpec>, i: nat) -> Seq<FlatSpec>
    decreases arms.len() - i,
{
    if i >= arms.len() {
        Seq::empty()
    } else {
        flat_node(arm_prefix(prefix, i), arms[i as int].body)->Ok_0 + arm_flats(prefix, arms, i + 1)
    }
}

/// The branch of arm `j` of a `match` named `prefix`: the arm's condition, and
/// the name of the first flat step of the arm.
pub open spec fn arm_branch(prefix: Seq<char>, arms: Seq<ArmSpec>, j: int) -> BranchSpec {
    BranchSpec {
        condition: arms[j].condition,
        target_id: flat_id(flat_node(arm_prefix(prefix, j as nat), arms[j].body)->Ok_0[0]),
    }
}

/// Arms `i..` flatten exactly when each of them does; then they give the flat
/// forms of the arms laid end to end, and one branch per arm, in order.
pub proof fn lemma_flat_arms(prefix: Seq<char>, arms: Seq<ArmSpec>, i: nat)
    requires
        i <= arms.len(),
    ensures
        flat_arms(prefix, arms, i) is Ok ==> forall|j: nat|
            i <= j < arms.len() ==> (#[trigger] flat_node(arm_prefix(prefix, j), arms[j as int].body)) is Ok,
        (forall|j: nat|
            i <= j < arms.len() ==> (#[trigger] flat_node(arm_prefix(prefix, j), arms[j as int].body)) is Ok)
            ==> flat_arms(prefix, arms, i) is Ok,
        flat_arms(prefix, arms, i) is Ok ==> ({
            let (nodes, brs) = flat_arms(prefix, arms, i)->Ok_0;
            &&& nodes == arm_flats(prefix, arms, i)
            &&& brs.len() == arms.len() - i
            &&& forall|j: int| 0 <= j < brs.len() ==> #[trigger] brs[j] == arm_branch(prefix, arms, i + j)
        }),
    decreases arms.len() - i,
{
    if i < arms.len() {
        lemma_flat_arms(prefix, arms, i + 1);
        let first = flat_node(arm_prefix(prefix, i), arms[i as int].body);
        assert(first == flat_node(arm_prefix(prefix, (i as int) as nat), arms[i as int].body));
        if flat_arms(prefix, arms, i) is Ok {
            let (nodes, brs) = flat_arms(prefix, arms, i)->Ok_0;
            let (rest, rbrs) = flat_arms(prefix, arms, i + 1)->Ok_0;
            assert forall|j: int| 0 <= j < brs.len() implies #[trigger] brs[j] == arm_branch(prefix, arms, i + j) by {
                if j > 0 {
                    assert(brs[j] == rbrs[j - 1]);
                    assert(i + 1 + (j - 1) == i + j);
                }
            }
            assert forall|j: nat| i <= j < arms.len() implies (#[trigger] flat_node(
                arm_prefix(prefix, j),
                arms[j as int].body,
            )) is Ok by {
                if j == i {
                    assert(first is Ok);
                }
            }
        } else {
            if first is Ok {
                assert(!(flat_arms(prefix, arms, i + 1) is Ok));
                if forall|j: nat|
                    i <= j < arms.len() ==> (#[trigger] flat_node(arm_prefix(prefix, j), arms[j as int].body)) is Ok {
                    assert forall|j: nat| i + 1 <= j < arms.len() implies (#[trigger] flat_node(
                        arm_prefix(prefix, j),
                        arms[j as int].body,
                    )) is Ok by {}
                    assert(false);
                }
                assert(!(forall|j: nat|
                    i <= j < arms.len() ==> (#[trigger] flat_node(arm_prefix(prefix, j), arms[j as int].body)) is Ok));
            } else {
                assert(!(flat_node(arm_prefix(prefix, i), arms[i as int].body) is Ok));
                assert(!(forall|j: nat|
                    i <= j < arms.len() ==> (#[trigger] flat_node(arm_prefix(prefix, j), arms[j as int].body)) is Ok));
            }
        }
    }
}

/// A `match` step flattens exactly when it has an input type and each arm
/// flattens. Then it gives its dispatcher followed by the flat forms of its
/// arms, in order. The dispatcher is named `prefix_match_dispatcher`, takes and
/// gives the input type of the first arm, and has one branch per arm, keeping
/// the arm's condition and targeting the first flat step of the arm: its
/// closure, or the dispatcher of a nested `match`. Arm `j` is named after
/// `prefix_j`.
pub proof fn lemma_match_flattening(prefix: Seq<char>, arms: Seq<ArmSpec>)
    ensures
        flat_node(prefix, NodeSpec::Match(arms)) is Ok <==> {
            &&& node_input(NodeSpec::Match(arms)) is Ok
            &&& forall|j: nat|
                j < arms.len() ==> (#[trigger] flat_node(arm_prefix(prefix, j), arms[j as int].body)) is Ok
        },
        flat_node(prefix, NodeSpec::Match(arms)) is Ok ==> ({
            let v = flat_node(prefix, NodeSpec::Match(arms))->Ok_0;
            let d = v[0]->Dispatcher_0;
            &&& arms.len() >= 1
            &&& v[0] is Dispatcher
            &&& v == seq![v[0]] + arm_flats(prefix, arms, 0)
            &&& d.id == dispatcher_name(prefix)
            &&& node_input(arms[0].body) == Ok::<TypeSpec, RewriteError>(d.input_ty)
            &&& d.output_ty == d.input_ty
            &&& d.branches.len() == arms.len()
            &&& forall|j: int| 0 <= j < arms.len() ==> #[trigger] d.branches[j] == arm_branch(prefix, arms, j)
        }),
{
    lemma_flat_arms(prefix, arms, 0);
    if flat_node(prefix, NodeSpec::Match(arms)) is Ok {
        let v = flat_node(prefix, NodeSpec::Match(arms))->Ok_0;
        let (nodes, brs) = flat_arms(prefix, arms, 0)->Ok_0;
        assert(v == seq![v[0]] + nodes);
        assert forall|j: int| 0 <= j < arms.len() implies #[trigger] v[0]->Dispatcher_0.branches[j]
            == arm_branch(prefix, arms, j) by {
            assert(brs[j] == arm_branch(prefix, arms, 0 + j));
            assert(0 + j == j);
        }
    }
}

/// Prepends the nodes and branches found so far to the outcome for the rest.
pub open spec fn prepend(
    nodes: Seq<FlatSpec>,
    branches: Seq<BranchSpec>,
    rest: Result<(Seq<FlatSpec>, Seq<BranchSpec>), RewriteError>,
) -> Result<(Seq<FlatSpec>, Seq<BranchSpec>), RewriteError> {
    match rest {
        Ok((n, b)) => Ok((nodes + n, branches + b)),
        Err(e) => Err(e),
    }
}

fn arm_prefix_string(prefix: &String, i: usize) -> (r: String)
    ensures
        r@ == arm_prefix(prefix@, i as nat),
{
    let mut s = prefix.clone();
    s.append("_");
    append_decimal(&mut s, i);
    s
}

/// The input type of a step (see `node_input`).
pub fn node_input_type(n: &PipeNode) -> (r: Result<TypePath, RewriteError>)
    ensures
        match r {
            Ok(t) => node_input(n.view()) == Ok::<TypeSpec, RewriteError>(t@),
            Err(e) => node_input(n.view()) == Err::<TypeSpec, RewriteError>(e),
        },
    decreases n,
{
    match n {
        PipeNode::Closure(c) => {
            if c.arg_ty.len() == 0 {
                Err(RewriteError::MissingInputType)
            } else {
                Ok(c.arg_ty[0].clone())
            }
        },
        PipeNode::Match(arms) => {
            if arms.len() == 0 {
                Err(RewriteError::EmptyMatch)
            } else {
                node_input_type(&arms[0].body)
            }
        },
    }
}

/// The name of a flat step.
pub fn flat_node_id(n: &PipeNodeFlatten) -> (r: String)
    ensures
        r@ == flat_id(n@),
{
    match n {
        PipeNodeFlatten::Closure(c) => c.id.clone(),
        PipeNodeFlatten::Dispatcher(d) => d.id.clone(),
    }
}

/// Flattens one step named `prefix` (see `flat_node`).
pub fn rewrite_name(prefix: String, step: PipeNode) -> (r: Result<Vec<PipeNodeFlatten>, RewriteError>)
    ensures
        match r {
            Ok(v) => flat_node(prefix@, step.view()) == Ok::<Seq<FlatSpec>, RewriteError>(
                flats_view(v@),
            ),
            Err(e) => flat_node(prefix@, step.view()) == Err::<Seq<FlatSpec>, RewriteError>(e),
        },
    decreases step,
{
    let ghost step_view = step.view();
    match step {
        PipeNode::Closure(closure) => {
            let c = *closure;
            let ghost cv = c@;
            let id = match c.id {
                Some(x) => x,
                None => prefix,
            };
            let flat = ClosureMacrosFlatten {
                id,
                constraints: c.constraints,
                is_async: c.is_async,
                arg: c.arg,
                arg_ty: c.arg_ty,
                ret_ty: c.ret_ty,
                body: c.body,
            };
            assert(flat@ == flat_closure(prefix@, cv));
            let v = vec![PipeNodeFlatten::Closure(flat)];
            assert(flats_view(v@) =~= seq![FlatSpec::Closure(flat_closure(prefix@, cv))]);
            Ok(v)
        },
        PipeNode::Match(arms) => {
            let ghost orig = arms@;
            let ghost arms_spec = step_view->Match_0;
            assert(arms_spec.len() == orig.len());
            assert(forall|i: int| 0 <= i < orig.len() ==> #[trigger] arms_spec[i] == (ArmSpec {
                condition: orig[i].condition.tokens@,
                body: orig[i].body.view(),
            }));
            if arms.len() == 0 {
                return Err(RewriteError::EmptyMatch);
            }
            let input_ty = match node_input_type(&arms[0].body) {
                Ok(t) => t,
                Err(e) => {
                    return Err(e);
                },
            };
            let output_ty = input_ty.clone();
            let ghost target = flat_node(prefix@, step_view);
            assert(target == with_dispatcher(prefix@, input_ty@, flat_arms(prefix@, arms_spec, 0)));
            let n = arms.len();
            let mut rest = arms;
            let mut all_nodes: Vec<PipeNodeFlatten> = Vec::new();
            let mut branches: Vec<BranchInfo> = Vec::new();
            let mut index: usize = 0;
            assert(rest@ =~= orig.subrange(0, n as int));
            assert(prepend(flats_view(all_nodes@), branches_view(branches@), flat_arms(prefix@, arms_spec, 0))
                =~= flat_arms(prefix@, arms_spec, 0)) by {
                assert(flats_view(all_nodes@) =~= Seq::<FlatSpec>::empty());
                assert(branches_view(branches@) =~= Seq::<BranchSpec>::empty());
                match flat_arms(prefix@, arms_spec, 0) {
                    Ok((a, b)) => {
                        assert(Seq::<FlatSpec>::empty() + a =~= a);
                        assert(Seq::<BranchSpec>::empty() + b =~= b);
                    },
                    Err(_) => {},
                }
            }
            while index < n
                invariant
                    0 <= index <= n == orig.len() == arms_spec.len(),
                    rest@ == orig.subrange(index as int, n as int),
                    forall|i: int| 0 <= i < n ==> #[trigger] arms_spec[i] == (ArmSpec {
                        condition: orig[i].condition.tokens@,
                        body: orig[i].body.view(),
                    }),
                    forall|i: int| 0 <= i < n ==> decreases_to!(step => #[trigger] orig[i].body),
                    target == with_dispatcher(prefix@, input_ty@, flat_arms(prefix@, arms_spec, 0)),
                    target == flat_node(prefix@, step_view),
                    step_view == step.view(),
                    output_ty@ == input_ty@,
                    prepend(flats_view(all_nodes@), branches_view(branches@), flat_arms(prefix@, arms_spec, index as nat))
                        == flat_arms(prefix@, arms_spec, 0),
                decreases n - index,
            {
                let ghost before_nodes = flats_view(all_nodes@);
                let ghost before_branches = branches_view(branches@);
                let arm = rest.remove(0);
                assert(arm == orig[index as int]);
                let MatchNode { condition, body } = arm;
                let branch_prefix = arm_prefix_string(&prefix, index);
                assert(arms_spec[index as int].body == orig[index as int].body.view());
                let mut branch_nodes = match rewrite_name(branch_prefix, body) {
                    Ok(v) => v,
                    Err(e) => {
                        return Err(e);
                    },
                };
                let ghost bn = flats_view(branch_nodes@);
                proof {
                    lemma_flat_node_shape(arm_prefix(prefix@, index as nat), arms_spec[index as int].body);
                }
                let target_id = flat_node_id(&branch_nodes[0]);
                let ghost br = BranchSpec { condition: condition.tokens@, target_id: target_id@ };
                all_nodes.append(&mut branch_nodes);
                branches.push(BranchInfo { condition, target_id });
                assert(flats_view(all_nodes@) =~= before_nodes + bn);
                assert(branches_view(branches@) =~= before_branches.push(br));
                index = index + 1;
                assert(rest@ =~= orig.subrange(index as int, n as int));
                proof {
                    match flat_arms(prefix@, arms_spec, index as nat) {
                        Ok((a, b)) => {
                            assert(before_nodes + (bn + a) =~= (before_nodes + bn) + a);
                            assert(before_branches + (seq![br] + b) =~= before_branches.push(br) + b);
                        },
                        Err(_) => {},
                    }
                }
            }
            let dispatcher = DispatcherMacrosFlatten {
                id: {
                    let mut d = prefix.clone();
                    d.append("_match_dispatcher");
                    d
                },
                input_ty,
                output_ty,
                branches,
            };
            let ghost tail = flats_view(all_nodes@);
            all_nodes.insert(0, PipeNodeFlatten::Dispatcher(dispatcher));
            assert(flats_view(all_nodes@) =~= seq![all_nodes@[0]@] + tail);
            assert(tail + Seq::<FlatSpec>::empty() =~= tail);
            Ok(all_nodes)
        },
    }
}

/// The name prefix of top-level step `i`: its own name if it is a named
/// closure, else `_step_i`.
pub open spec fn step_prefix(n: NodeSpec, i: nat) -> Seq<char> {
    match n {
        NodeSpec::Closure(c) => match c.id {
            Some(id) => id,
            None => "_step_"@ + decimal(i),
        },
        NodeSpec::Match(_) => "_step_"@ + decimal(i),
    }
}

/// The flat forms of steps `i..`, in order.
pub open spec fn flat_steps(steps: Seq<NodeSpec>, i: nat) -> Result<Seq<FlatSpec>, RewriteError>
    decreases steps.len() - i,
{
    if i >= steps.len() {
        Ok(Seq::empty())
    } else {
        match flat_node(step_prefix(steps[i as int], i), steps[i as int]) {
            Err(e) => Err(e),
            Ok(nodes) => match flat_steps(steps, i + 1) {
                Ok(rest) => Ok(nodes + rest),
                Err(e) => Err(e),
            },
        }
    }
}

/// The step at position `m` is named `target`.
pub open spec fn names_at(v: Seq<FlatSpec>, m: int, target: Seq<char>) -> bool {
    0 <= m < v.len() && flat_id(v[m]) == target
}

/// Some step after position `k` is named `target`.
pub open spec fn named_after(v: Seq<FlatSpec>, k: int, target: Seq<char>) -> bool {
    exists|m: int| k < m && #[trigger] names_at(v, m, target)
}

/// The dispatcher at `k` passes its input on unchanged (its output type is its
/// input type), and each of its branches targets a step that comes after it.
pub open spec fn dispatcher_sound_at(v: Seq<FlatSpec>, k: int) -> bool {
    let d = v[k]->Dispatcher_0;
    &&& d.output_ty == d.input_ty
    &&& forall|j: int|
        0 <= j < d.branches.len() ==> named_after(v, k, #[trigger] d.branches[j].target_id)
}

/// Every dispatcher is sound (see `dispatcher_sound_at`).
pub open spec fn dispatchers_sound(v: Seq<FlatSpec>) -> bool {
    forall|k: int| 0 <= k < v.len() && #[trigger] v[k] is Dispatcher ==> dispatcher_sound_at(v, k)
}

proof fn lemma_named_after_shift(a: Seq<FlatSpec>, b: Seq<FlatSpec>, k: int, target: Seq<char>)
    requires
        named_after(b, k, target),
    ensures
        named_after(a + b, k + a.len(), target),
{
    let m = choose|m: int| k < m && #[trigger] names_at(b, m, target);
    assert((a + b)[m + a.len()] == b[m]);
    assert(names_at(a + b, m + a.len(), target));
}

proof fn lemma_named_after_prefix(a: Seq<FlatSpec>, b: Seq<FlatSpec>, k: int, target: Seq<char>)
    requires
        named_after(a, k, target),
    ensures
        named_after(a + b, k, target),
{
    let m = choose|m: int| k < m && #[trigger] names_at(a, m, target);
    assert((a + b)[m] == a[m]);
    assert(names_at(a + b, m, target));
}

proof fn lemma_dispatchers_sound_concat(a: Seq<FlatSpec>, b: Seq<FlatSpec>)
    requires
        dispatchers_sound(a),
        dispatchers_sound(b),
    ensures
        dispatchers_sound(a + b),
{
    let v = a + b;
    assert forall|k: int| 0 <= k < v.len() && #[trigger] v[k] is Dispatcher implies dispatcher_sound_at(v, k) by {
        let d = v[k]->Dispatcher_0;
        if k < a.len() {
            assert(v[k] == a[k]);
            assert(dispatcher_sound_at(a, k));
            assert forall|j: int| 0 <= j < d.branches.len() implies named_after(v, k, #[trigger] d.branches[j].target_id) by {
                lemma_named_after_prefix(a, b, k, d.branches[j].target_id);
            }
        } else {
            let kb = k - a.len();
            assert(v[k] == b[kb]);
            assert(dispatcher_sound_at(b, kb));
            assert forall|j: int| 0 <= j < d.branches.len() implies named_after(v, k, #[trigger] d.branches[j].target_id) by {
                lemma_named_after_shift(a, b, kb, d.branches[j].target_id);
            }
        }
    }
}

proof fn lemma_flat_node_sound(prefix: Seq<char>, n: NodeSpec)
    ensures
        flat_node(prefix, n) matches Ok(v) ==> dispatchers_sound(v),
    decreases n, 0nat,
{
    lemma_flat_node_shape(prefix, n);
    if let NodeSpec::Match(arms) = n {
        lemma_flat_arms_sound(prefix, arms, 0);
        if flat_node(prefix, n) is Ok {
            let v = flat_node(prefix, n)->Ok_0;
            let (nodes, brs) = flat_arms(prefix, arms, 0)->Ok_0;
            let head = seq![v[0]];
            assert(v == head + nodes);
            assert forall|k: int| 0 <= k < v.len() && #[trigger] v[k] is Dispatcher implies dispatcher_sound_at(v, k) by {
                let d = v[k]->Dispatcher_0;
                if k == 0 {
                    assert forall|j: int| 0 <= j < d.branches.len() implies named_after(v, 0, #[trigger] d.branches[j].target_id) by {
                        assert(d.branches[j] == brs[j]);
                        lemma_named_after_shift(head, nodes, -1, brs[j].target_id);
                    }
                } else {
                    assert(v[k] == nodes[k - 1]);
                    assert(dispatcher_sound_at(nodes, k - 1));
                    assert forall|j: int| 0 <= j < d.branches.len() implies named_after(v, k, #[trigger] d.branches[j].target_id) by {
                        lemma_named_after_shift(head, nodes, k - 1, d.branches[j].target_id);
                    }
                }
            }
        }
    }
}

proof fn lemma_flat_arms_sound(prefix: Seq<char>, arms: Seq<ArmSpec>, i: nat)
    ensures
        flat_arms(prefix, arms, i) matches Ok((nodes, brs)) ==> {
            &&& dispatchers_sound(nodes)
            &&& forall|j: int| 0 <= j < brs.len() ==> named_after(nodes, -1, #[trigger] brs[j].target_id)
        },
    decreases arms, arms.len() - i,
{
    if i < arms.len() {
        assert(decreases_to!(arms => arms[i as int]));
        let p = arm_prefix(prefix, i);
        lemma_flat_node_sound(p, arms[i as int].body);
        lemma_flat_node_shape(p, arms[i as int].body);
        lemma_flat_arms_sound(prefix, arms, i + 1);
        if flat_arms(prefix, arms, i) is Ok {
            let (nodes, brs) = flat_arms(prefix, arms, i)->Ok_0;
            let first = flat_node(p, arms[i as int].body)->Ok_0;
            let (rest, rbrs) = flat_arms(prefix, arms, i + 1)->Ok_0;
            lemma_dispatchers_sound_concat(first, rest);
            assert forall|j: int| 0 <= j < brs.len() implies named_after(nodes, -1, #[trigger] brs[j].target_id) by {
                if j == 0 {
                    assert(nodes[0] == first[0]);
                    assert(names_at(nodes, 0, brs[0].target_id));
                } else {
                    assert(brs[j] == rbrs[j - 1]);
                    lemma_named_after_shift(first, rest, -1, rbrs[j - 1].target_id);
                }
            }
        }
    }
}

proof fn lemma_flat_steps_sound(steps: Seq<NodeSpec>, i: nat)
    ensures
        flat_steps(steps, i) matches Ok(v) ==> dispatchers_sound(v),
    decreases steps.len() - i,
{
    if i < steps.len() {
        lemma_flat_node_sound(step_prefix(steps[i as int], i), steps[i as int]);
        lemma_flat_steps_sound(steps, i + 1);
        if flat_steps(steps, i) is Ok {
            let nodes = flat_node(step_prefix(steps[i as int], i), steps[i as int])->Ok_0;
            let rest = flat_steps(steps, i + 1)->Ok_0;
            lemma_dispatchers_sound_concat(nodes, rest);
        }
    } else {
        assert(dispatchers_sound(Seq::<FlatSpec>::empty()));
    }
}

/// In a flattened pipeline, every dispatcher routes without transforming (its
/// output type is its input type) and each of its branches targets a step of
/// the pipeline that comes after it: a closure, or the dispatcher of a nested
/// `match`.
pub proof fn lemma_flatten_pipe_dispatchers(p: PipeSpec)
    ensures
        flatten_pipe(p) matches Ok(v) ==> dispatchers_sound(v),
{
    lemma_flat_steps_sound(p.closures, 0);
}

/// The flat form of a whole pipeline.
pub open spec fn flatten_pipe(p: PipeSpec) -> Result<Seq<FlatSpec>, RewriteError> {
    flat_steps(p.closures, 0)
}

pub open spec fn prepend_nodes(
    nodes: Seq<FlatSpec>,
    rest: Result<Seq<FlatSpec>, RewriteError>,
) -> Result<Seq<FlatSpec>, RewriteError> {
    match rest {
        Ok(n) => Ok(nodes + n),
        Err(e) => Err(e),
    }
}

fn step_prefix_string(step: &PipeNode, i: usize) -> (r: String)
    ensures
        r@ == step_prefix(step.view(), i as nat),
{
    match step {
        PipeNode::Closure(c) => match &c.id {
            Some(id) => {
                return id.clone();
            },
            None => {},
        },
        PipeNode::Match(_) => {},
    }
    let mut s = String::new();
    s.append("_step_");
    append_decimal(&mut s, i);
    s
}

/// Names and flattens every step of a pipeline, in order.
pub fn rewrite_names(pipes: PipeMacros) -> (r: Result<Vec<PipeNodeFlatten>, RewriteError>)
    ensures
        match r {
            Ok(v) => flatten_pipe(pipes@) == Ok::<Seq<FlatSpec>, RewriteError>(flats_view(v@)),
            Err(e) => flatten_pipe(pipes@) == Err::<Seq<FlatSpec>, RewriteError>(e),
        },
{
    let ghost steps = pipes@.closures;
    let ghost target = flatten_pipe(pipes@);
    let ghost orig = pipes.closures@;
    let mut rest = pipes.closures;
    let n = rest.len();
    let mut all_nodes: Vec<PipeNodeFlatten> = Vec::new();
    let mut index: usize = 0;
    assert(rest@ =~= orig.subrange(0, n as int));
    assert(prepend_nodes(flats_view(all_nodes@), flat_steps(steps, 0)) =~= flat_steps(steps, 0)) by {
        assert(flats_view(all_nodes@) =~= Seq::<FlatSpec>::empty());
        match flat_steps(steps, 0) {
            Ok(a) => {
                assert(Seq::<FlatSpec>::empty() + a =~= a);
            },
            Err(_) => {},
        }
    }
    while index < n
        invariant
            0 <= index <= n == orig.len() == steps.len(),
            rest@ == orig.subrange(index as int, n as int),
            forall|i: int| 0 <= i < n ==> #[trigger] steps[i] == orig[i].view(),
            target == flat_steps(steps, 0),
            target == flatten_pipe(pipes@),
            prepend_nodes(flats_view(all_nodes@), flat_steps(steps, index as nat)) == flat_steps(
                steps,
                0,
            ),
        decreases n - index,
    {
        let ghost before = flats_view(all_nodes@);
        let step = rest.remove(0);
        assert(step == orig[index as int]);
        let prefix = step_prefix_string(&step, index);
        let mut nodes = match rewrite_name(prefix, step) {
            Ok(v) => v,
            Err(e) => {
                return Err(e);
            },
        };
        let ghost nv = flats_view(nodes@);
        all_nodes.append(&mut nodes);
        assert(flats_view(all_nodes@) =~= before + nv);
        index = index + 1;
        assert(rest@ =~= orig.subrange(index as int, n as int));
        proof {
            match flat_steps(steps, index as nat) {
                Ok(a) => {
                    assert(before + (nv + a) =~= (before + nv) + a);
                },
                Err(_) => {},
            }
        }
    }
    proof {
        match flat_steps(steps, index as nat) {
            Ok(a) => {
                assert(flats_view(all_nodes@) + a =~= flats_view(all_nodes@));
            },
            Err(_) => {},
        }
    }
    Ok(all_nodes)
}

} // verus!
