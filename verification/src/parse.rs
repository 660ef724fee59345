use vstd::prelude::*;

use crate::syntax::{
    accepts_expr, accepts_ident, syn_accepts_expr, syn_accepts_ident, syn_type_path, type_path,
};
use crate::tokens::{
    at_punct2, copy_range, is_open, is_punct, is_word, lemma_tree_end_bounds, open_at, punct2_at,
    punct_at, render, render_range, skip_tree, str_eq, tree_end, word_at, Delimiter, Tok,
};

verus! {

// ---------------------------------------------------------------------------
// The parsed forms of the pipeline grammar
// ---------------------------------------------------------------------------

/// What went wrong, and where, when the input is not a pipeline.
#[derive(Clone, Copy, Debug, PartialEq, Eq, Structural)]
pub enum ErrorKind {
    ExpectedIdent,
    ExpectedColon,
    ExpectedPipe,
    ExpectedArrow,
    ExpectedBraces,
    ExpectedExpr,
    ExpectedType,
    UnknownConstraint,
    UnclosedGroup,
}

/// A parse failure: the token position at which it was found and its kind.
#[derive(Clone, Copy, Debug, PartialEq, Eq, Structural)]
pub struct ParseError {
    pub pos: usize,
    pub kind: ErrorKind,
}

/// A Rust expression, kept as its tokens.
#[derive(Clone, Debug)]
pub struct Expr {
    pub tokens: Vec<Tok>,
}

/// A Rust type path: its tokens, the identifiers of its path segments, and
/// whether it starts with `::`.
#[derive(Debug)]
pub struct TypePath {
    pub tokens: Vec<Tok>,
    pub segments: Vec<String>,
    pub leading_colon: bool,
}

pub struct TypeSpec {
    pub tokens: Seq<Tok>,
    pub segments: Seq<Seq<char>>,
    pub leading_colon: bool,
}

impl View for TypePath {
    type V = TypeSpec;

    open spec fn view(&self) -> TypeSpec {
        TypeSpec {
            tokens: self.tokens@,
            segments: self.segments.deep_view(),
            leading_colon: self.leading_colon,
        }
    }
}

/// A copy of a list of strings.
pub fn clone_strings(v: &Vec<String>) -> (r: Vec<String>)
    ensures
        r.deep_view() == v.deep_view(),
{
    let mut r: Vec<String> = Vec::new();
    let mut i: usize = 0;
    while i < v.len()
        invariant
            i <= v@.len(),
            r@ == v@.subrange(0, i as int),
        decreases v@.len() - i,
    {
        r.push(v[i].clone());
        i = i + 1;
        assert(r@ =~= v@.subrange(0, i as int));
    }
    assert(r@ =~= v@);
    assert(r.deep_view() =~= v.deep_view());
    r
}

impl Clone for TypePath {
    fn clone(&self) -> (c: Self)
        ensures
            c@ == self@,
    {
        let tokens = copy_range(&self.tokens, 0, self.tokens.len());
        assert(tokens@ =~= self.tokens@);
        TypePath { tokens, segments: clone_strings(&self.segments), leading_colon: self.leading_colon }
    }
}

pub open spec fn types_view(v: Seq<TypePath>) -> Seq<TypeSpec> {
    Seq::new(v.len(), |i: int| v[i]@)
}

/// Thread limits of one stage or of the whole pipeline.
#[derive(Clone, Debug)]
pub struct ThreadConstraints {
    pub max_threads: Option<Expr>,
    pub min_threads: Option<Expr>,
}

pub struct ConstraintsSpec {
    pub max_threads: Option<Seq<Tok>>,
    pub min_threads: Option<Seq<Tok>>,
}

pub open spec fn expr_opt_view(e: Option<Expr>) -> Option<Seq<Tok>> {
    match e {
        Some(x) => Some(x.tokens@),
        None => None,
    }
}

impl View for ThreadConstraints {
    type V = ConstraintsSpec;

    open spec fn view(&self) -> ConstraintsSpec {
        ConstraintsSpec {
            max_threads: expr_opt_view(self.max_threads),
            min_threads: expr_opt_view(self.min_threads),
        }
    }
}

pub open spec fn constraints_opt_view(c: Option<ThreadConstraints>) -> Option<ConstraintsSpec> {
    match c {
        Some(x) => Some(x@),
        None => None,
    }
}

pub open spec fn string_opt_view(s: Option<String>) -> Option<Seq<char>> {
    match s {
        Some(x) => Some(x@),
        None => None,
    }
}

/// One stage closure of a pipeline.
#[derive(Clone, Debug)]
pub struct ClosureMacros {
    pub id: Option<String>,
    pub constraints: Option<ThreadConstraints>,
    pub is_async: bool,
    pub arg: Vec<String>,
    pub arg_ty: Vec<TypePath>,
    pub ret_ty: TypePath,
    pub body: Vec<Tok>,
}

pub struct ClosureSpec {
    pub id: Option<Seq<char>>,
    pub constraints: Option<ConstraintsSpec>,
    pub is_async: bool,
    pub arg: Seq<Seq<char>>,
    pub arg_ty: Seq<TypeSpec>,
    pub ret_ty: TypeSpec,
    pub body: Seq<Tok>,
}

impl View for ClosureMacros {
    type V = ClosureSpec;

    open spec fn view(&self) -> ClosureSpec {
        ClosureSpec {
            id: string_opt_view(self.id),
            constraints: constraints_opt_view(self.constraints),
            is_async: self.is_async,
            arg: self.arg.deep_view(),
            arg_ty: types_view(self.arg_ty@),
            ret_ty: self.ret_ty@,
            body: self.body@,
        }
    }
}

/// A pipeline step: a closure, or a `match` whose arms route to sub-steps.
#[derive(Debug)]
pub enum PipeNode {
    Closure(Box<ClosureMacros>),
    /// The `match { condition => step, .. }` form.
    Match(Vec<MatchNode>),
}

/// One arm of a `match` step.
#[derive(Debug)]
pub struct MatchNode {
    pub condition: Expr,
    pub body: PipeNode,
}

pub enum NodeSpec {
    Closure(ClosureSpec),
    Match(Seq<ArmSpec>),
}

pub struct ArmSpec {
    pub condition: Seq<Tok>,
    pub body: NodeSpec,
}

impl PipeNode {
    pub open spec fn view(&self) -> NodeSpec
        decreases self,
    {
        match self {
            PipeNode::Closure(c) => NodeSpec::Closure(c@),
            PipeNode::Match(arms) => NodeSpec::Match(
                Seq::new(
                    arms.len() as nat,
                    |i: int|
                        if 0 <= i < arms.len() {
                            ArmSpec { condition: arms[i].condition.tokens@, body: arms[i].body.view() }
                        } else {
                            ArmSpec { condition: Seq::empty(), body: NodeSpec::Match(Seq::empty()) }
                        },
                ),
            ),
        }
    }
}

pub open spec fn nodes_view(v: Seq<PipeNode>) -> Seq<NodeSpec> {
    Seq::new(v.len(), |i: int| v[i].view())
}

/// A whole pipeline: its optional global thread limits and its steps.
#[derive(Debug)]
pub struct PipeMacros {
    pub global_constraints: Option<ThreadConstraints>,
    pub closures: Vec<PipeNode>,
}

pub struct PipeSpec {
    pub global_constraints: Option<ConstraintsSpec>,
    pub closures: Seq<NodeSpec>,
}

impl View for PipeMacros {
    type V = PipeSpec;

    open spec fn view(&self) -> PipeSpec {
        PipeSpec {
            global_constraints: constraints_opt_view(self.global_constraints),
            closures: nodes_view(self.closures@),
        }
    }
}

// ---------------------------------------------------------------------------
// The grammar
// ---------------------------------------------------------------------------

/// What may follow an expression or a type: it ends before the first such
/// token (at the top level) at which the run of tokens so far parses.
#[derive(Clone, Copy, Debug, PartialEq, Eq, Structural)]
pub enum Stop {
    /// A `,`, or the end of the enclosing group.
    CommaOrEnd,
    /// A `=>`.
    FatArrow,
    /// A `|`.
    Pipe,
    /// A `{ .. }` group.
    Brace,
}

pub open spec fn stops(s: Seq<Tok>, c: int, hi: int, stop: Stop) -> bool {
    match stop {
        Stop::CommaOrEnd => c == hi || (0 <= c < hi && is_punct(s[c], ',')),
        Stop::FatArrow => at_punct2(s, c, hi, '=', '>'),
        Stop::Pipe => 0 <= c < hi && is_punct(s[c], '|'),
        Stop::Brace => 0 <= c < hi && is_open(s[c], Delimiter::Brace),
    }
}

/// The end of the shortest run of token trees from `start` that ends at a
/// stop token and parses as an expression, looking at candidates from `c` on.
pub open spec fn expr_end(s: Seq<Tok>, start: int, c: int, hi: int, stop: Stop) -> Option<int>
    decreases hi - c,
{
    if c < start || c > hi || start < 0 {
        None
    } else if stops(s, c, hi, stop) && syn_accepts_expr(render(s.subrange(start, c))) {
        Some(c)
    } else if c == hi {
        None
    } else {
        match tree_end(s, c, hi) {
            Some(e) => if c < e <= hi {
                expr_end(s, start, e, hi, stop)
            } else {
                None
            },
            None => None,
        }
    }
}

/// As `expr_end`, for a type path; also gives what `syn` reads of the path.
pub open spec fn type_end(s: Seq<Tok>, start: int, c: int, hi: int, stop: Stop) -> Option<
    (int, (Seq<Seq<char>>, bool)),
>
    decreases hi - c,
{
    if c < start || c > hi || start < 0 {
        None
    } else if stops(s, c, hi, stop) && syn_type_path(render(s.subrange(start, c))) is Some {
        Some((c, syn_type_path(render(s.subrange(start, c))).unwrap()))
    } else if c == hi {
        None
    } else {
        match tree_end(s, c, hi) {
            Some(e) => if c < e <= hi {
                type_end(s, start, e, hi, stop)
            } else {
                None
            },
            None => None,
        }
    }
}

pub proof fn lemma_expr_end_stops(s: Seq<Tok>, start: int, c: int, hi: int, stop: Stop)
    ensures
        expr_end(s, start, c, hi, stop) matches Some(e) ==> stops(s, e, hi, stop) && c <= e <= hi,
    decreases hi - c,
{
    if !(c < start || c > hi || start < 0) && !(stops(s, c, hi, stop) && syn_accepts_expr(
        render(s.subrange(start, c)),
    )) && c != hi {
        if let Some(e) = tree_end(s, c, hi) {
            if c < e <= hi {
                lemma_expr_end_stops(s, start, e, hi, stop);
            }
        }
    }
}

pub proof fn lemma_type_end_stops(s: Seq<Tok>, start: int, c: int, hi: int, stop: Stop)
    ensures
        type_end(s, start, c, hi, stop) matches Some((e, _)) ==> stops(s, e, hi, stop) && c <= e
            <= hi,
    decreases hi - c,
{
    if !(c < start || c > hi || start < 0) && !(stops(s, c, hi, stop) && syn_type_path(
        render(s.subrange(start, c)),
    ) is Some) && c != hi {
        if let Some(e) = tree_end(s, c, hi) {
            if c < e <= hi {
                lemma_type_end_stops(s, start, e, hi, stop);
            }
        }
    }
}

pub open spec fn err<A>(p: int, kind: ErrorKind) -> Result<A, ParseError> {
    Err(ParseError { pos: p as usize, kind })
}

/// The token at `p` is an identifier that `syn` accepts as one.
pub open spec fn ident_at(s: Seq<Tok>, p: int, hi: int) -> bool {
    &&& 0 <= p < hi
    &&& s[p] matches Tok::Ident(x) && syn_accepts_ident(x@)
}

pub open spec fn ident_text(s: Seq<Tok>, p: int) -> Seq<char> {
    match s[p] {
        Tok::Ident(x) => x@,
        _ => Seq::empty(),
    }
}

/// The `key: value, ..` items of a constraint group, whose content runs from
/// `p` to `hi`, added to `acc`.
pub open spec fn constraint_items(s: Seq<Tok>, p: int, hi: int, acc: ConstraintsSpec) -> Result<
    ConstraintsSpec,
    ParseError,
>
    decreases hi - p,
{
    if p >= hi || p < 0 {
        Ok(acc)
    } else if !ident_at(s, p, hi) {
        err(p, ErrorKind::ExpectedIdent)
    } else if !(p + 1 < hi && is_punct(s[p + 1], ':')) {
        err(p + 1, ErrorKind::ExpectedColon)
    } else {
        match expr_end(s, p + 2, p + 2, hi, Stop::CommaOrEnd) {
            None => err(p + 2, ErrorKind::ExpectedExpr),
            Some(e) => {
                let value = s.subrange(p + 2, e);
                let key = ident_text(s, p);
                if key != "max_threads"@ && key != "min_threads"@ {
                    err(p, ErrorKind::UnknownConstraint)
                } else {
                    let next = if key == "max_threads"@ {
                        ConstraintsSpec { max_threads: Some(value), min_threads: acc.min_threads }
                    } else {
                        ConstraintsSpec { max_threads: acc.max_threads, min_threads: Some(value) }
                    };
                    if e >= hi || e < p {
                        Ok(next)
                    } else {
                        constraint_items(s, e + 1, hi, next)
                    }
                }
            },
        }
    }
}

pub open spec fn no_constraints() -> ConstraintsSpec {
    ConstraintsSpec { max_threads: None, min_threads: None }
}

/// An optional `( key: value, .. )` group at `p`; gives the limits and the
/// position after them.
pub open spec fn constraints_at(s: Seq<Tok>, p: int, hi: int) -> Result<
    (Option<ConstraintsSpec>, int),
    ParseError,
> {
    if 0 <= p < hi && is_open(s[p], Delimiter::Parenthesis) {
        match tree_end(s, p, hi) {
            None => err(p, ErrorKind::UnclosedGroup),
            Some(e) => match constraint_items(s, p + 1, e - 1, no_constraints()) {
                Ok(c) => Ok((Some(c), e)),
                Err(x) => Err(x),
            },
        }
    } else {
        Ok((None, p))
    }
}

/// The `name: Type, ..` items of a parenthesized argument list, whose
/// content runs from `p` to `hi`, added to `names` and `tys`.
pub open spec fn arg_items(
    s: Seq<Tok>,
    p: int,
    hi: int,
    names: Seq<Seq<char>>,
    tys: Seq<TypeSpec>,
) -> Result<(Seq<Seq<char>>, Seq<TypeSpec>), ParseError>
    decreases hi - p,
{
    if p >= hi || p < 0 {
        Ok((names, tys))
    } else if !ident_at(s, p, hi) {
        err(p, ErrorKind::ExpectedIdent)
    } else if !(p + 1 < hi && is_punct(s[p + 1], ':')) {
        err(p + 1, ErrorKind::ExpectedColon)
    } else {
        match type_end(s, p + 2, p + 2, hi, Stop::CommaOrEnd) {
            None => err(p + 2, ErrorKind::ExpectedType),
            Some((e, info)) => {
                let names2 = names.push(ident_text(s, p));
                let tys2 = tys.push(
                    TypeSpec { tokens: s.subrange(p + 2, e), segments: info.0, leading_colon: info.1 },
                );
                if e >= hi || e < p {
                    Ok((names2, tys2))
                } else {
                    arg_items(s, e + 1, hi, names2, tys2)
                }
            },
        }
    }
}

/// The arguments of a closure, after its opening `|` at `p - 1`: either a
/// parenthesized list or a single `name: Type`; gives them and the position
/// of the closing `|`.
pub open spec fn args_at(s: Seq<Tok>, p: int, hi: int) -> Result<
    (Seq<Seq<char>>, Seq<TypeSpec>, int),
    ParseError,
> {
    if 0 <= p < hi && is_open(s[p], Delimiter::Parenthesis) {
        match tree_end(s, p, hi) {
            None => err(p, ErrorKind::UnclosedGroup),
            Some(e) => match arg_items(s, p + 1, e - 1, Seq::empty(), Seq::empty()) {
                Ok((names, tys)) => Ok((names, tys, e)),
                Err(x) => Err(x),
            },
        }
    } else if !ident_at(s, p, hi) {
        err(p, ErrorKind::ExpectedIdent)
    } else if !(p + 1 < hi && is_punct(s[p + 1], ':')) {
        err(p + 1, ErrorKind::ExpectedColon)
    } else {
        match type_end(s, p + 2, p + 2, hi, Stop::Pipe) {
            None => err(p + 2, ErrorKind::ExpectedType),
            Some((e, info)) => Ok(
                (
                    seq![ident_text(s, p)],
                    seq![
                        TypeSpec {
                            tokens: s.subrange(p + 2, e),
                            segments: info.0,
                            leading_colon: info.1,
                        },
                    ],
                    e,
                ),
            ),
        }
    }
}

/// A closure step at `p`:
/// `[name:] [( limits )] [async] |args| -> Type { body }`;
/// gives it and the position after its body.
#[verifier::opaque]
pub open spec fn closure_at(s: Seq<Tok>, p: int, hi: int) -> Result<(ClosureSpec, int), ParseError> {
    let has_id = ident_at(s, p, hi);
    if has_id && !(p + 1 < hi && is_punct(s[p + 1], ':')) {
        err(p + 1, ErrorKind::ExpectedColon)
    } else {
        let id = if has_id { Some(ident_text(s, p)) } else { None };
        let p1 = if has_id { p + 2 } else { p };
        match constraints_at(s, p1, hi) {
            Err(x) => Err(x),
            Ok((constraints, p2)) => {
                let is_async = 0 <= p2 < hi && is_word(s[p2], "async"@);
                let p3 = if is_async { p2 + 1 } else { p2 };
                if !(0 <= p3 < hi && is_punct(s[p3], '|')) {
                    err(p3, ErrorKind::ExpectedPipe)
                } else {
                    match args_at(s, p3 + 1, hi) {
                        Err(x) => Err(x),
                        Ok((arg, arg_ty, p5)) => if !(0 <= p5 < hi && is_punct(s[p5], '|')) {
                            err(p5, ErrorKind::ExpectedPipe)
                        } else if !at_punct2(s, p5 + 1, hi, '-', '>') {
                            err(p5 + 1, ErrorKind::ExpectedArrow)
                        } else {
                            match type_end(s, p5 + 3, p5 + 3, hi, Stop::Brace) {
                                None => err(p5 + 3, ErrorKind::ExpectedType),
                                Some((e, info)) => match tree_end(s, e, hi) {
                                    None => err(e, ErrorKind::UnclosedGroup),
                                    Some(b) => Ok(
                                        (
                                            ClosureSpec {
                                                id,
                                                constraints,
                                                is_async,
                                                arg,
                                                arg_ty,
                                                ret_ty: TypeSpec {
                                                    tokens: s.subrange(p5 + 3, e),
                                                    segments: info.0,
                                                    leading_colon: info.1,
                                                },
                                                body: s.subrange(e + 1, b - 1),
                                            },
                                            b,
                                        ),
                                    ),
                                },
                            }
                        },
                    }
                }
            },
        }
    }
}

/// The position after an optional `,` at `q`.
pub open spec fn skip_comma(s: Seq<Tok>, q: int, hi: int) -> int {
    if 0 <= q < hi && is_punct(s[q], ',') {
        q + 1
    } else {
        q
    }
}

/// A step at `p`: a closure, or `match { condition => step [,] .. }`; gives
/// it and the position after it.
pub open spec fn node_at(s: Seq<Tok>, p: int, hi: int) -> Result<(NodeSpec, int), ParseError>
    decreases hi - p, 1int,
{
    if 0 <= p < hi && is_word(s[p], "match"@) {
        if !(p + 1 < hi && is_open(s[p + 1], Delimiter::Brace)) {
            err(p + 1, ErrorKind::ExpectedBraces)
        } else {
            match tree_end(s, p + 1, hi) {
                None => err(p + 1, ErrorKind::UnclosedGroup),
                Some(e) => {
                    proof {
                        lemma_tree_end_bounds(s, p + 1, hi);
                    }
                    match arms_at(s, p + 2, e - 1, Seq::empty()) {
                        Ok(arms) => Ok((NodeSpec::Match(arms), e)),
                        Err(x) => Err(x),
                    }
                },
            }
        }
    } else {
        match closure_at(s, p, hi) {
            Ok((c, q)) => Ok((NodeSpec::Closure(c), q)),
            Err(x) => Err(x),
        }
    }
}

/// The arms of a `match` step, whose content runs from `p` to `hi`, added to
/// `acc`.
pub open spec fn arms_at(s: Seq<Tok>, p: int, hi: int, acc: Seq<ArmSpec>) -> Result<
    Seq<ArmSpec>,
    ParseError,
>
    decreases hi - p, 0int,
{
    if p >= hi || p < 0 {
        Ok(acc)
    } else {
        match expr_end(s, p, p, hi, Stop::FatArrow) {
            None => err(p, ErrorKind::ExpectedExpr),
            Some(c) => if c < p || c + 2 > hi {
                err(p, ErrorKind::ExpectedExpr)
            } else {
                match node_at(s, c + 2, hi) {
                    Err(x) => Err(x),
                    Ok((body, q)) => if q <= p || q > hi {
                        err(p, ErrorKind::ExpectedExpr)
                    } else {
                        arms_at(
                            s,
                            skip_comma(s, q, hi),
                            hi,
                            acc.push(ArmSpec { condition: s.subrange(p, c), body }),
                        )
                    },
                }
            },
        }
    }
}

/// The steps of a pipeline from `p` to `hi`, each optionally followed by a
/// `,`, added to `acc`.
pub open spec fn steps_at(s: Seq<Tok>, p: int, hi: int, acc: Seq<NodeSpec>) -> Result<
    Seq<NodeSpec>,
    ParseError,
>
    decreases hi - p,
{
    if p >= hi || p < 0 {
        Ok(acc)
    } else {
        match node_at(s, p, hi) {
            Err(x) => Err(x),
            Ok((n, q)) => if q <= p || q > hi {
                err(p, ErrorKind::ExpectedExpr)
            } else {
                steps_at(s, skip_comma(s, q, hi), hi, acc.push(n))
            },
        }
    }
}

/// The pipeline grammar: optional global limits `( key: value, .. )`, an
/// optional `,`, then the steps.
pub open spec fn parse_pipe(s: Seq<Tok>) -> Result<PipeSpec, ParseError> {
    let hi = s.len() as int;
    match constraints_at(s, 0, hi) {
        Err(x) => Err(x),
        Ok((global, p)) => {
            let start = if global is Some { skip_comma(s, p, hi) } else { p };
            match steps_at(s, start, hi, Seq::empty()) {
                Ok(closures) => Ok(PipeSpec { global_constraints: global, closures }),
                Err(x) => Err(x),
            }
        },
    }
}

// ---------------------------------------------------------------------------
// The parser
// ---------------------------------------------------------------------------

fn fail<A>(p: usize, kind: ErrorKind) -> (r: Result<A, ParseError>)
    ensures
        r == err::<A>(p as int, kind),
{
    Err(ParseError { pos: p, kind })
}

fn stops_at(toks: &Vec<Tok>, c: usize, hi: usize, stop: Stop) -> (r: bool)
    requires
        hi <= toks@.len(),
    ensures
        r == stops(toks@, c as int, hi as int, stop),
{
    match stop {
        Stop::CommaOrEnd => c == hi || punct_at(toks, c, hi, ','),
        Stop::FatArrow => punct2_at(toks, c, hi, '=', '>'),
        Stop::Pipe => punct_at(toks, c, hi, '|'),
        Stop::Brace => open_at(toks, c, hi, Delimiter::Brace),
    }
}

/// The end of the expression that starts at `start` (see `expr_end`).
fn scan_expr(toks: &Vec<Tok>, start: usize, hi: usize, stop: Stop) -> (r: Option<usize>)
    requires
        start <= hi <= toks@.len(),
    ensures
        r matches Some(e) ==> expr_end(toks@, start as int, start as int, hi as int, stop) == Some(
            e as int,
        ) && start <= e <= hi && stops(toks@, e as int, hi as int, stop),
        r is None ==> expr_end(toks@, start as int, start as int, hi as int, stop) is None,
{
    let mut c: usize = start;
    proof {
        lemma_expr_end_stops(toks@, start as int, start as int, hi as int, stop);
    }
    loop
        invariant
            start <= c <= hi <= toks@.len(),
            expr_end(toks@, start as int, c as int, hi as int, stop) == expr_end(
                toks@,
                start as int,
                start as int,
                hi as int,
                stop,
            ),
        decreases hi - c,
    {
        if stops_at(toks, c, hi, stop) {
            let text = render_range(toks, start, c);
            if accepts_expr(text.as_str()) {
                return Some(c);
            }
        }
        if c >= hi {
            return None;
        }
        match skip_tree(toks, c, hi) {
            None => {
                return None;
            },
            Some(e) => {
                c = e;
            },
        }
    }
}

/// The end of the type path that starts at `start` (see `type_end`).
fn scan_type(toks: &Vec<Tok>, start: usize, hi: usize, stop: Stop) -> (r: Option<
    (usize, Vec<String>, bool),
>)
    requires
        start <= hi <= toks@.len(),
    ensures
        r matches Some((e, segs, lead)) ==> type_end(
            toks@,
            start as int,
            start as int,
            hi as int,
            stop,
        ) == Some((e as int, (segs.deep_view(), lead))) && start <= e <= hi && stops(
            toks@,
            e as int,
            hi as int,
            stop,
        ),
        r is None ==> type_end(toks@, start as int, start as int, hi as int, stop) is None,
{
    let mut c: usize = start;
    proof {
        lemma_type_end_stops(toks@, start as int, start as int, hi as int, stop);
    }
    loop
        invariant
            start <= c <= hi <= toks@.len(),
            type_end(toks@, start as int, c as int, hi as int, stop) == type_end(
                toks@,
                start as int,
                start as int,
                hi as int,
                stop,
            ),
        decreases hi - c,
    {
        if stops_at(toks, c, hi, stop) {
            let text = render_range(toks, start, c);
            match type_path(text.as_str()) {
                Some((segs, lead)) => {
                    return Some((c, segs, lead));
                },
                None => {},
            }
        }
        if c >= hi {
            return None;
        }
        match skip_tree(toks, c, hi) {
            None => {
                return None;
            },
            Some(e) => {
                c = e;
            },
        }
    }
}

fn ident_ok_at(toks: &Vec<Tok>, p: usize, hi: usize) -> (r: bool)
    requires
        hi <= toks@.len(),
    ensures
        r == ident_at(toks@, p as int, hi as int),
{
    if p >= hi {
        return false;
    }
    match &toks[p] {
        Tok::Ident(x) => accepts_ident(x.as_str()),
        _ => false,
    }
}

fn ident_string(toks: &Vec<Tok>, p: usize) -> (r: String)
    requires
        p < toks@.len(),
    ensures
        r@ == ident_text(toks@, p as int),
{
    match &toks[p] {
        Tok::Ident(x) => x.clone(),
        _ => String::new(),
    }
}

impl ThreadConstraints {
    /// The `key: value, ..` content of a limits group, from `p` to `hi`.
    fn parse_items(toks: &Vec<Tok>, p0: usize, hi: usize) -> (r: Result<ThreadConstraints, ParseError>)
        requires
            p0 <= hi <= toks@.len(),
        ensures
            match r {
                Ok(c) => constraint_items(toks@, p0 as int, hi as int, no_constraints()) == Ok::<
                    ConstraintsSpec,
                    ParseError,
                >(c@),
                Err(e) => constraint_items(toks@, p0 as int, hi as int, no_constraints()) == Err::<
                    ConstraintsSpec,
                    ParseError,
                >(e),
            },
    {
        let ghost s = toks@;
        let mut acc = ThreadConstraints { max_threads: None, min_threads: None };
        let mut p = p0;
        assert(acc@ == no_constraints());
        while p < hi
            invariant
                p <= hi <= toks@.len(),
                s == toks@,
                constraint_items(s, p as int, hi as int, acc@) == constraint_items(
                    s,
                    p0 as int,
                    hi as int,
                    no_constraints(),
                ),
            decreases hi - p,
        {
            if !ident_ok_at(toks, p, hi) {
                return fail(p, ErrorKind::ExpectedIdent);
            }
            if !punct_at(toks, p + 1, hi, ':') {
                return fail(p + 1, ErrorKind::ExpectedColon);
            }
            let e = match scan_expr(toks, p + 2, hi, Stop::CommaOrEnd) {
                None => {
                    return fail(p + 2, ErrorKind::ExpectedExpr);
                },
                Some(e) => e,
            };
            let value = Expr { tokens: copy_range(toks, p + 2, e) };
            let key = ident_string(toks, p);
            let is_max = str_eq(key.as_str(), "max_threads");
            let is_min = str_eq(key.as_str(), "min_threads");
            if !is_max && !is_min {
                return fail(p, ErrorKind::UnknownConstraint);
            }
            if is_max {
                acc = ThreadConstraints { max_threads: Some(value), min_threads: acc.min_threads };
            } else {
                acc = ThreadConstraints { max_threads: acc.max_threads, min_threads: Some(value) };
            }
            if e >= hi {
                return Ok(acc);
            }
            p = e + 1;
        }
        Ok(acc)
    }

    /// An optional `( key: value, .. )` group at `p`.
    fn parse_group(toks: &Vec<Tok>, p: usize, hi: usize) -> (r: Result<
        (Option<ThreadConstraints>, usize),
        ParseError,
    >)
        requires
            p <= hi <= toks@.len(),
        ensures
            match r {
                Ok((c, q)) => constraints_at(toks@, p as int, hi as int) == Ok::<
                    (Option<ConstraintsSpec>, int),
                    ParseError,
                >((constraints_opt_view(c), q as int)) && p <= q <= hi,
                Err(e) => constraints_at(toks@, p as int, hi as int) == Err::<
                    (Option<ConstraintsSpec>, int),
                    ParseError,
                >(e),
            },
    {
        if !open_at(toks, p, hi, Delimiter::Parenthesis) {
            return Ok((None, p));
        }
        let e = match skip_tree(toks, p, hi) {
            None => {
                return fail(p, ErrorKind::UnclosedGroup);
            },
            Some(e) => e,
        };
        proof {
            lemma_tree_end_bounds(toks@, p as int, hi as int);
        }
        let c = ThreadConstraints::parse_items(toks, p + 1, e - 1)?;
        Ok((Some(c), e))
    }
}


/// The `name: Type, ..` content of a parenthesized argument list.
fn parse_arg_items(toks: &Vec<Tok>, p0: usize, hi: usize) -> (r: Result<
    (Vec<String>, Vec<TypePath>),
    ParseError,
>)
    requires
        p0 <= hi <= toks@.len(),
    ensures
        match r {
            Ok((names, tys)) => arg_items(toks@, p0 as int, hi as int, Seq::empty(), Seq::empty())
                == Ok::<(Seq<Seq<char>>, Seq<TypeSpec>), ParseError>(
                (names.deep_view(), types_view(tys@)),
            ),
            Err(e) => arg_items(toks@, p0 as int, hi as int, Seq::empty(), Seq::empty()) == Err::<
                (Seq<Seq<char>>, Seq<TypeSpec>),
                ParseError,
            >(e),
        },
{
    let ghost s = toks@;
    let mut names: Vec<String> = Vec::new();
    let mut tys: Vec<TypePath> = Vec::new();
    let mut p = p0;
    assert(names.deep_view() =~= Seq::<Seq<char>>::empty());
    assert(types_view(tys@) =~= Seq::<TypeSpec>::empty());
    while p < hi
        invariant
            p <= hi <= toks@.len(),
            s == toks@,
            arg_items(s, p as int, hi as int, names.deep_view(), types_view(tys@)) == arg_items(
                s,
                p0 as int,
                hi as int,
                Seq::empty(),
                Seq::empty(),
            ),
        decreases hi - p,
    {
        if !ident_ok_at(toks, p, hi) {
            return fail(p, ErrorKind::ExpectedIdent);
        }
        if !punct_at(toks, p + 1, hi, ':') {
            return fail(p + 1, ErrorKind::ExpectedColon);
        }
        let (e, segs, lead) = match scan_type(toks, p + 2, hi, Stop::CommaOrEnd) {
            None => {
                return fail(p + 2, ErrorKind::ExpectedType);
            },
            Some(x) => x,
        };
        let ghost old_names = names.deep_view();
        let ghost old_tys = types_view(tys@);
        let name = ident_string(toks, p);
        let ty = TypePath { tokens: copy_range(toks, p + 2, e), segments: segs, leading_colon: lead };
        names.push(name);
        tys.push(ty);
        assert(names.deep_view() =~= old_names.push(ident_text(s, p as int)));
        assert(types_view(tys@) =~= old_tys.push(
            TypeSpec { tokens: s.subrange(p + 2, e as int), segments: segs.deep_view(), leading_colon: lead },
        ));
        if e >= hi {
            return Ok((names, tys));
        }
        p = e + 1;
    }
    Ok((names, tys))
}

/// The arguments of a closure, starting just after its opening `|`.
fn parse_args(toks: &Vec<Tok>, p: usize, hi: usize) -> (r: Result<
    (Vec<String>, Vec<TypePath>, usize),
    ParseError,
>)
    requires
        p <= hi <= toks@.len(),
    ensures
        match r {
            Ok((names, tys, q)) => args_at(toks@, p as int, hi as int) == Ok::<
                (Seq<Seq<char>>, Seq<TypeSpec>, int),
                ParseError,
            >((names.deep_view(), types_view(tys@), q as int)) && p < q <= hi,
            Err(e) => args_at(toks@, p as int, hi as int) == Err::<
                (Seq<Seq<char>>, Seq<TypeSpec>, int),
                ParseError,
            >(e),
        },
{
    if open_at(toks, p, hi, Delimiter::Parenthesis) {
        let e = match skip_tree(toks, p, hi) {
            None => {
                return fail(p, ErrorKind::UnclosedGroup);
            },
            Some(e) => e,
        };
        proof {
            lemma_tree_end_bounds(toks@, p as int, hi as int);
        }
        let (names, tys) = parse_arg_items(toks, p + 1, e - 1)?;
        return Ok((names, tys, e));
    }
    if !ident_ok_at(toks, p, hi) {
        return fail(p, ErrorKind::ExpectedIdent);
    }
    if !punct_at(toks, p + 1, hi, ':') {
        return fail(p + 1, ErrorKind::ExpectedColon);
    }
    let (e, segs, lead) = match scan_type(toks, p + 2, hi, Stop::Pipe) {
        None => {
            return fail(p + 2, ErrorKind::ExpectedType);
        },
        Some(x) => x,
    };
    let name = ident_string(toks, p);
    let ty = TypePath { tokens: copy_range(toks, p + 2, e), segments: segs, leading_colon: lead };
    let names = vec![name];
    let tys = vec![ty];
    assert(names.deep_view() =~= seq![ident_text(toks@, p as int)]);
    assert(types_view(tys@) =~= seq![
        TypeSpec { tokens: toks@.subrange(p + 2, e as int), segments: segs.deep_view(), leading_colon: lead },
    ]);
    Ok((names, tys, e))
}

impl ClosureMacros {
    /// Parses a closure step that starts at `p`, within `[.., hi)`; gives it
    /// and the position after its body.
    pub fn parse(toks: &Vec<Tok>, p: usize, hi: usize) -> (r: Result<(ClosureMacros, usize), ParseError>)
        requires
            p <= hi <= toks@.len(),
        ensures
            match r {
                Ok((c, q)) => closure_at(toks@, p as int, hi as int) == Ok::<
                    (ClosureSpec, int),
                    ParseError,
                >((c@, q as int)) && p < q <= hi,
                Err(e) => closure_at(toks@, p as int, hi as int) == Err::<
                    (ClosureSpec, int),
                    ParseError,
                >(e),
            },
    {
        reveal(closure_at);
        let has_id = ident_ok_at(toks, p, hi);
        if has_id && !punct_at(toks, p + 1, hi, ':') {
            return fail(p + 1, ErrorKind::ExpectedColon);
        }
        let id = if has_id {
            Some(ident_string(toks, p))
        } else {
            None
        };
        let p1 = if has_id {
            p + 2
        } else {
            p
        };
        let (constraints, p2) = ThreadConstraints::parse_group(toks, p1, hi)?;
        let is_async = word_at(toks, p2, hi, "async");
        let p3 = if is_async {
            p2 + 1
        } else {
            p2
        };
        if !punct_at(toks, p3, hi, '|') {
            return fail(p3, ErrorKind::ExpectedPipe);
        }
        let (arg, arg_ty, p5) = parse_args(toks, p3 + 1, hi)?;
        if !punct_at(toks, p5, hi, '|') {
            return fail(p5, ErrorKind::ExpectedPipe);
        }
        if !punct2_at(toks, p5 + 1, hi, '-', '>') {
            return fail(p5 + 1, ErrorKind::ExpectedArrow);
        }
        let (e, segs, lead) = match scan_type(toks, p5 + 3, hi, Stop::Brace) {
            None => {
                return fail(p5 + 3, ErrorKind::ExpectedType);
            },
            Some(x) => x,
        };
        let b = match skip_tree(toks, e, hi) {
            None => {
                return fail(e, ErrorKind::UnclosedGroup);
            },
            Some(b) => b,
        };
        proof {
            lemma_tree_end_bounds(toks@, e as int, hi as int);
        }
        let ret_ty = TypePath { tokens: copy_range(toks, p5 + 3, e), segments: segs, leading_colon: lead };
        let body = copy_range(toks, e + 1, b - 1);
        let c = ClosureMacros { id, constraints, is_async, arg, arg_ty, ret_ty, body };
        Ok((c, b))
    }
}


pub open spec fn arms_view(v: Seq<MatchNode>) -> Seq<ArmSpec> {
    Seq::new(v.len(), |i: int| ArmSpec { condition: v[i].condition.tokens@, body: v[i].body.view() })
}

fn skip_comma_at(toks: &Vec<Tok>, q: usize, hi: usize) -> (r: usize)
    requires
        q <= hi <= toks@.len(),
    ensures
        r == skip_comma(toks@, q as int, hi as int),
        q <= r <= hi,
{
    if punct_at(toks, q, hi, ',') {
        q + 1
    } else {
        q
    }
}

impl PipeNode {
    /// Parses a step that starts at `p`, within `[.., hi)`; gives it and the
    /// position after it.
    pub fn parse(toks: &Vec<Tok>, p: usize, hi: usize) -> (r: Result<(PipeNode, usize), ParseError>)
        requires
            p <= hi <= toks@.len(),
        ensures
            match r {
                Ok((n, q)) => node_at(toks@, p as int, hi as int) == Ok::<(NodeSpec, int), ParseError>(
                    (n.view(), q as int),
                ) && p < q <= hi,
                Err(e) => node_at(toks@, p as int, hi as int) == Err::<(NodeSpec, int), ParseError>(e),
            },
        decreases hi - p, 1int,
    {
        if word_at(toks, p, hi, "match") {
            if !open_at(toks, p + 1, hi, Delimiter::Brace) {
                return fail(p + 1, ErrorKind::ExpectedBraces);
            }
            let e = match skip_tree(toks, p + 1, hi) {
                None => {
                    return fail(p + 1, ErrorKind::UnclosedGroup);
                },
                Some(e) => e,
            };
            proof {
                lemma_tree_end_bounds(toks@, p + 1, hi as int);
            }
            let arms = MatchNode::parse_arms(toks, p + 2, e - 1)?;
            let n = PipeNode::Match(arms);
            assert(n.view() == NodeSpec::Match(arms_view(arms@))) by {
                assert(arms_view(arms@) =~= match n.view() {
                    NodeSpec::Match(a) => a,
                    _ => Seq::empty(),
                });
            }
            Ok((n, e))
        } else {
            let (c, q) = ClosureMacros::parse(toks, p, hi)?;
            Ok((PipeNode::Closure(Box::new(c)), q))
        }
    }
}

impl MatchNode {
    /// The arms of a `match` step, whose content runs from `p0` to `hi`.
    fn parse_arms(toks: &Vec<Tok>, p0: usize, hi: usize) -> (r: Result<Vec<MatchNode>, ParseError>)
        requires
            p0 <= hi <= toks@.len(),
        ensures
            match r {
                Ok(v) => arms_at(toks@, p0 as int, hi as int, Seq::empty()) == Ok::<
                    Seq<ArmSpec>,
                    ParseError,
                >(arms_view(v@)),
                Err(e) => arms_at(toks@, p0 as int, hi as int, Seq::empty()) == Err::<
                    Seq<ArmSpec>,
                    ParseError,
                >(e),
            },
        decreases hi - p0, 0int,
    {
        let ghost s = toks@;
        let mut arms: Vec<MatchNode> = Vec::new();
        let mut p = p0;
        assert(arms_view(arms@) =~= Seq::<ArmSpec>::empty());
        while p < hi
            invariant
                p0 <= p <= hi <= toks@.len(),
                s == toks@,
                arms_at(s, p as int, hi as int, arms_view(arms@)) == arms_at(
                    s,
                    p0 as int,
                    hi as int,
                    Seq::empty(),
                ),
            decreases hi - p,
        {
            let c = match scan_expr(toks, p, hi, Stop::FatArrow) {
                None => {
                    return fail(p, ErrorKind::ExpectedExpr);
                },
                Some(c) => c,
            };
            assert(stops(s, c as int, hi as int, Stop::FatArrow));
            assert(c + 2 <= hi);
            let (body, q) = PipeNode::parse(toks, c + 2, hi)?;
            let ghost old_view = arms_view(arms@);
            let condition = Expr { tokens: copy_range(toks, p, c) };
            arms.push(MatchNode { condition, body });
            assert(arms_view(arms@) =~= old_view.push(
                ArmSpec { condition: s.subrange(p as int, c as int), body: arms@.last().body.view() },
            ));
            p = skip_comma_at(toks, q, hi);
        }
        Ok(arms)
    }
}

/// The steps of a pipeline from `start` to `hi`.
fn parse_steps(toks: &Vec<Tok>, start: usize, hi: usize) -> (r: Result<Vec<PipeNode>, ParseError>)
    requires
        start <= hi <= toks@.len(),
    ensures
        match r {
            Ok(v) => steps_at(toks@, start as int, hi as int, Seq::empty()) == Ok::<
                Seq<NodeSpec>,
                ParseError,
            >(nodes_view(v@)),
            Err(e) => steps_at(toks@, start as int, hi as int, Seq::empty()) == Err::<
                Seq<NodeSpec>,
                ParseError,
            >(e),
        },
{
    let ghost s = toks@;
    let mut closures: Vec<PipeNode> = Vec::new();
    let mut p = start;
    assert(nodes_view(closures@) =~= Seq::<NodeSpec>::empty());
    while p < hi
        invariant
            start <= p <= hi <= toks@.len(),
            s == toks@,
            steps_at(s, p as int, hi as int, nodes_view(closures@)) == steps_at(
                s,
                start as int,
                hi as int,
                Seq::empty(),
            ),
        decreases hi - p,
    {
        let (n, q) = PipeNode::parse(toks, p, hi)?;
        let ghost old_view = nodes_view(closures@);
        closures.push(n);
        assert(nodes_view(closures@) =~= old_view.push(closures@.last().view()));
        p = skip_comma_at(toks, q, hi);
    }
    Ok(closures)
}

impl PipeMacros {
    /// Parses a whole pipeline (see `parse_pipe`).
    pub fn parse(toks: &Vec<Tok>) -> (r: Result<PipeMacros, ParseError>)
        ensures
            match r {
                Ok(m) => parse_pipe(toks@) == Ok::<PipeSpec, ParseError>(m@),
                Err(e) => parse_pipe(toks@) == Err::<PipeSpec, ParseError>(e),
            },
    {
        let hi = toks.len();
        let (global_constraints, p1) = ThreadConstraints::parse_group(toks, 0, hi)?;
        let start = if global_constraints.is_some() {
            skip_comma_at(toks, p1, hi)
        } else {
            p1
        };
        assert(constraints_opt_view(global_constraints) is Some <==> global_constraints is Some);
        let closures = parse_steps(toks, start, hi)?;
        Ok(PipeMacros { global_constraints, closures })
    }
}

} // verus!
