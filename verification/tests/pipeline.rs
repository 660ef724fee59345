use ichika::flatten::{rewrite_names, PipeNodeFlatten, RewriteError};
use ichika::parse::{ClosureMacros, ErrorKind, PipeMacros, PipeNode};
use ichika::pipe;
use ichika::pool::spawn_allowed;
use ichika::pod::ThreadPod;
use ichika::status::{RetryPolicy, Status};
use ichika::worker::{worker_step, WorkerAction};
use ichika::template::closure::{generate_closure, AsyncRuntime};
use ichika::template::closures::{generate_closures, generate_dispatcher};
use ichika::template::pool::generate_pool;
use ichika::template::text::GenError;
use ichika::template::thread_creator::{generate_routing_table, generate_thread_creator, type_matches};
use ichika::tokens::{render_range, Delimiter, Tok};
use proc_macro2::{Spacing, TokenStream, TokenTree};

fn push_tokens(stream: TokenStream, out: &mut Vec<Tok>) {
    for tree in stream {
        match tree {
            TokenTree::Ident(i) => out.push(Tok::Ident(i.to_string())),
            TokenTree::Punct(p) => out.push(Tok::Punct(p.as_char(), p.spacing() == Spacing::Joint)),
            TokenTree::Literal(l) => out.push(Tok::Literal(l.to_string())),
            TokenTree::Group(g) => {
                let d = match g.delimiter() {
                    proc_macro2::Delimiter::Parenthesis => Some(Delimiter::Parenthesis),
                    proc_macro2::Delimiter::Brace => Some(Delimiter::Brace),
                    proc_macro2::Delimiter::Bracket => Some(Delimiter::Bracket),
                    proc_macro2::Delimiter::None => None,
                };
                if let Some(d) = d {
                    out.push(Tok::Open(d));
                }
                push_tokens(g.stream(), out);
                if let Some(d) = d {
                    out.push(Tok::Close(d));
                }
            }
        }
    }
}

fn toks(src: &str) -> Vec<Tok> {
    let stream: TokenStream = src.parse().unwrap();
    let mut out = Vec::new();
    push_tokens(stream, &mut out);
    out
}


fn text(t: &[Tok]) -> String {
    let v: Vec<Tok> = t.to_vec();
    render_range(&v, 0, v.len())
}

fn parse_ok(src: &str) -> PipeMacros {
    PipeMacros::parse(&toks(src)).unwrap()
}

fn closure(n: &PipeNode) -> &ClosureMacros {
    match n {
        PipeNode::Closure(c) => c,
        PipeNode::Match(_) => panic!("not a closure"),
    }
}

fn flat(src: &str) -> Vec<PipeNodeFlatten> {
    rewrite_names(parse_ok(src)).unwrap()
}

fn ids(v: &[PipeNodeFlatten]) -> Vec<String> {
    v.iter()
        .map(|n| match n {
            PipeNodeFlatten::Closure(c) => c.id.clone(),
            PipeNodeFlatten::Dispatcher(d) => d.id.clone(),
        })
        .collect()
}

#[test]
fn parses_named_async_closure_with_limits() {
    let p = parse_ok("fetch: (max_threads: 2, min_threads: 1) async |url: String| -> usize { Ok(url.len()) }");
    assert!(p.global_constraints.is_none());
    assert_eq!(p.closures.len(), 1);
    let c = closure(&p.closures[0]);
    assert_eq!(c.id.as_deref(), Some("fetch"));
    let limits = c.constraints.as_ref().unwrap();
    assert_eq!(text(&limits.max_threads.as_ref().unwrap().tokens), "2 ");
    assert_eq!(text(&limits.min_threads.as_ref().unwrap().tokens), "1 ");
    assert!(c.is_async);
    assert_eq!(c.arg, vec!["url".to_string()]);
    assert_eq!(c.arg_ty[0].segments, vec!["String".to_string()]);
    assert_eq!(c.ret_ty.segments, vec!["usize".to_string()]);
    assert_eq!(text(&c.body), "Ok ( url . len ( ) ) ");
}

#[test]
fn parses_tuple_arguments_with_generic_types() {
    let p = parse_ok("|(a: u8, b: HashMap<String, u8>)| -> std::vec::Vec<u8> { Ok(vec![a]) }");
    let c = closure(&p.closures[0]);
    assert_eq!(c.id, None);
    assert_eq!(c.arg, vec!["a".to_string(), "b".to_string()]);
    assert_eq!(c.arg_ty.len(), 2);
    assert_eq!(text(&c.arg_ty[1].tokens), "HashMap < String , u8 > ");
    assert_eq!(c.arg_ty[1].segments, vec!["HashMap".to_string()]);
    assert_eq!(
        c.ret_ty.segments,
        vec!["std".to_string(), "vec".to_string(), "Vec".to_string()]
    );
    assert!(!c.ret_ty.leading_colon);
}

#[test]
fn parses_global_limits_and_steps_without_separators() {
    let p = parse_ok("(max_threads: 4), |x: u8| -> u8 { Ok(x) } |y: u8| -> u8 { Ok(y) }");
    let g = p.global_constraints.as_ref().unwrap();
    assert_eq!(text(&g.max_threads.as_ref().unwrap().tokens), "4 ");
    assert!(g.min_threads.is_none());
    assert_eq!(p.closures.len(), 2);
}

#[test]
fn parses_limit_values_that_hold_commas() {
    let p = parse_ok("(max_threads: f::<u8, u16>(1), min_threads: 2) |x: u8| -> u8 { Ok(x) }");
    let g = p.global_constraints.as_ref().unwrap();
    assert_eq!(text(&g.max_threads.as_ref().unwrap().tokens), "f ::< u8 , u16 > ( 1 ) ");
    assert_eq!(text(&g.min_threads.as_ref().unwrap().tokens), "2 ");
}

#[test]
fn parses_match_steps() {
    let p = parse_ok(
        "|x: String| -> u8 { Ok(1) },
         match { 1 => |x: u8| -> u8 { Ok(x) }, _ => |y: u8| -> u16 { Ok(y as u16) } }",
    );
    assert_eq!(p.closures.len(), 2);
    match &p.closures[1] {
        PipeNode::Match(arms) => {
            assert_eq!(arms.len(), 2);
            assert_eq!(text(&arms[0].condition.tokens), "1 ");
            assert_eq!(text(&arms[1].condition.tokens), "_ ");
            assert_eq!(closure(&arms[1].body).ret_ty.segments, vec!["u16".to_string()]);
        }
        PipeNode::Closure(_) => panic!("expected a match"),
    }
}

#[test]
fn rejects_unknown_limit() {
    let input = toks("(foo: 1) |x: u8| -> u8 { Ok(x) }");
    let e = PipeMacros::parse(&input).unwrap_err();
    assert_eq!(e.kind, ErrorKind::UnknownConstraint);
    assert_eq!(e.pos, 1);
    assert_eq!(e.message(&input), "Unknown constraint: foo");
}

#[test]
fn rejects_keyword_as_step_name() {
    let e = PipeMacros::parse(&toks("fn: |x: u8| -> u8 { Ok(x) }")).unwrap_err();
    assert_eq!(e.kind, ErrorKind::ExpectedPipe);
    assert_eq!(e.pos, 0);
}

#[test]
fn rejects_limit_that_is_no_expression() {
    let e = PipeMacros::parse(&toks("(max_threads: 2 3) |x: u8| -> u8 { Ok(x) }")).unwrap_err();
    assert_eq!(e.kind, ErrorKind::ExpectedExpr);
    assert_eq!(e.pos, 3);
}

#[test]
fn rejects_argument_type_that_is_no_type_path() {
    let e = PipeMacros::parse(&toks("|x: 1| -> u8 { Ok(1) }")).unwrap_err();
    assert_eq!(e.kind, ErrorKind::ExpectedType);
    assert_eq!(e.pos, 3);
}

#[test]
fn rejects_missing_arrow_and_missing_body() {
    let e = PipeMacros::parse(&toks("|x: u8| u8 { Ok(x) }")).unwrap_err();
    assert_eq!(e.kind, ErrorKind::ExpectedArrow);
    let e = PipeMacros::parse(&toks("|x: u8| -> u8")).unwrap_err();
    assert_eq!(e.kind, ErrorKind::ExpectedType);
    let e = PipeMacros::parse(&toks("name |x: u8| -> u8 { x }")).unwrap_err();
    assert_eq!(e.kind, ErrorKind::ExpectedColon);
    let e = PipeMacros::parse(&toks("match (1)")).unwrap_err();
    assert_eq!(e.kind, ErrorKind::ExpectedBraces);
    let e = PipeMacros::parse(&toks("|u8| -> u8 { 1 }")).unwrap_err();
    assert_eq!(e.kind, ErrorKind::ExpectedColon);
    let e = PipeMacros::parse(&toks("|(1: u8)| -> u8 { 1 }")).unwrap_err();
    assert_eq!(e.kind, ErrorKind::ExpectedIdent);
    let e = PipeMacros::parse(&toks("match { => |x: u8| -> u8 { x } }")).unwrap_err();
    assert_eq!(e.kind, ErrorKind::ExpectedExpr);
}

#[test]
fn rejects_unbalanced_groups() {
    let v = vec![
        Tok::Punct('|', false),
        Tok::Ident("x".to_string()),
        Tok::Punct(':', false),
        Tok::Ident("u8".to_string()),
        Tok::Punct('|', false),
        Tok::Punct('-', true),
        Tok::Punct('>', false),
        Tok::Ident("u8".to_string()),
        Tok::Open(Delimiter::Brace),
        Tok::Ident("x".to_string()),
    ];
    assert_eq!(PipeMacros::parse(&v).unwrap_err().kind, ErrorKind::UnclosedGroup);
    let mut v2 = v.clone();
    v2.push(Tok::Close(Delimiter::Brace));
    assert!(PipeMacros::parse(&v2).is_ok());
    let w = vec![Tok::Open(Delimiter::Parenthesis)];
    assert_eq!(PipeMacros::parse(&w).unwrap_err().kind, ErrorKind::UnclosedGroup);
}

#[test]
fn closure_step_parses_from_a_position() {
    let input = toks("x, |a: u8| -> u8 { a } rest");
    let (c, next) = ClosureMacros::parse(&input, 2, input.len()).unwrap();
    assert_eq!(c.arg, vec!["a".to_string()]);
    assert_eq!(next, input.len() - 1);
    let (n, next2) = PipeNode::parse(&input, 2, input.len()).unwrap();
    assert!(matches!(n, PipeNode::Closure(_)));
    assert_eq!(next2, next);
}

#[test]
fn names_unnamed_steps_by_position() {
    let v = flat("|a: u8| -> u8 { Ok(a) }, named: |b: u8| -> u8 { Ok(b) }, |c: u8| -> u8 { Ok(c) }");
    assert_eq!(ids(&v), vec!["_step_0", "named", "_step_2"]);
}

#[test]
fn names_steps_past_nine_in_decimal() {
    let mut src = String::new();
    for _ in 0..11 {
        src.push_str("|a: u8| -> u8 { Ok(a) },");
    }
    let v = flat(&src);
    assert_eq!(ids(&v)[10], "_step_10");
}

#[test]
fn flattens_match_into_dispatcher_and_branches() {
    let v = flat(
        "|x: String| -> u8 { Ok(1) },
         match { 1 => |x: u8| -> u8 { Ok(x) }, _ => other: |y: u8| -> u16 { Ok(y as u16) } }",
    );
    assert_eq!(ids(&v), vec!["_step_0", "_step_1_match_dispatcher", "_step_1_0", "other"]);
    match &v[1] {
        PipeNodeFlatten::Dispatcher(d) => {
            assert_eq!(d.input_ty.segments, vec!["u8".to_string()]);
            assert_eq!(d.output_ty.segments, vec!["u8".to_string()]);
            assert_eq!(d.branches.len(), 2);
            assert_eq!(d.branches[0].target_id, "_step_1_0");
            assert_eq!(d.branches[1].target_id, "other");
            assert_eq!(text(&d.branches[1].condition.tokens), "_ ");
        }
        PipeNodeFlatten::Closure(_) => panic!("expected the dispatcher"),
    }
}

#[test]
fn rejects_malformed_matches() {
    let e = rewrite_names(parse_ok("match { }")).unwrap_err();
    assert_eq!(e, RewriteError::EmptyMatch);
    assert_eq!(e.message(), "Empty match");
    let e = rewrite_names(parse_ok("match { 1 => |()| -> u8 { Ok(1) } }")).unwrap_err();
    assert_eq!(e, RewriteError::MissingInputType);
    assert_eq!(e.message(), "Missing input type");
    let e = rewrite_names(parse_ok("match { 1 => match { }, 2 => |x: u8| -> u8 { Ok(x) } }")).unwrap_err();
    assert_eq!(e, RewriteError::EmptyMatch);
    let e = rewrite_names(parse_ok(
        "match { 1 => |x: u8| -> u8 { Ok(x) }, 2 => match { 3 => |()| -> u8 { Ok(3) } } }",
    ))
    .unwrap_err();
    assert_eq!(e, RewriteError::MissingInputType);
}

#[test]
fn flattens_nested_matches_at_any_depth() {
    let v = flat(
        "match { 0 => match { 1 => |x: u8| -> u8 { Ok(x) } }, 2 => |y: u8| -> u8 { Ok(y) } }",
    );
    assert_eq!(
        ids(&v),
        vec![
            "_step_0_match_dispatcher",
            "_step_0_0_match_dispatcher",
            "_step_0_0_0",
            "_step_0_1",
        ]
    );
    match (&v[0], &v[1]) {
        (PipeNodeFlatten::Dispatcher(outer), PipeNodeFlatten::Dispatcher(inner)) => {
            assert_eq!(outer.input_ty.segments, vec!["u8".to_string()]);
            assert_eq!(outer.branches.len(), 2);
            assert_eq!(outer.branches[0].target_id, "_step_0_0_match_dispatcher");
            assert_eq!(outer.branches[1].target_id, "_step_0_1");
            assert_eq!(inner.branches.len(), 1);
            assert_eq!(inner.branches[0].target_id, "_step_0_0_0");
            assert_eq!(text(&inner.branches[0].condition.tokens), "1 ");
        }
        _ => panic!("expected two dispatchers"),
    }
    let out = pipe(
        &toks("|s: String| -> u8 { Ok(0) }, match { 0 => match { 1 => |x: u8| -> u8 { Ok(x) } }, 2 => |y: u8| -> u8 { Ok(y) } }"),
        AsyncRuntime::Tokio,
    );
    assert!(out.contains("struct _step_1_0_match_dispatcher;"));
    assert!(out.contains("0  => ::ichika::Status::Switch((\"_step_1_0_match_dispatcher\", req)),"));
    syn::parse_str::<syn::Block>(&out).expect("a block");
    let deep = flat("match { 0 => match { 1 => match { 2 => |z: u16| -> u16 { Ok(z) } } } }");
    assert_eq!(deep.len(), 4);
    match &deep[0] {
        PipeNodeFlatten::Dispatcher(d) => {
            assert_eq!(d.input_ty.segments, vec!["u16".to_string()]);
            assert_eq!(d.branches[0].target_id, "_step_0_0_match_dispatcher");
        }
        _ => panic!("expected the dispatcher"),
    }
}

#[test]
fn matches_types_by_segments_and_generic_arguments() {
    let v = flat(
        "|a: Vec<u8>| -> Vec<u8> { Ok(a) }, |b: Vec<u8>| -> Vec<String> { Ok(vec![]) }, |c: String| -> usize { Ok(1) }, \
         |d: ::std::string::String| -> std::string::String { Ok(d) }, |e: std::vec::Vec<u8>| -> Vec<u8> { Ok(e) }",
    );
    let cs: Vec<_> = v
        .iter()
        .map(|n| match n {
            PipeNodeFlatten::Closure(c) => c,
            _ => panic!("closures expected"),
        })
        .collect();
    let (a, b, c, d, e) = (cs[0], cs[1], cs[2], cs[3], cs[4]);
    assert!(type_matches(&a.arg_ty[0], &a.ret_ty));
    assert!(type_matches(&a.arg_ty[0], &b.arg_ty[0]));
    assert!(!type_matches(&b.arg_ty[0], &b.ret_ty));
    assert!(!type_matches(&c.arg_ty[0], &c.ret_ty));
    assert!(type_matches(&c.arg_ty[0], &c.arg_ty[0]));
    // A leading `::` does not count; the segment names do.
    assert!(type_matches(&d.arg_ty[0], &d.ret_ty));
    assert!(type_matches(&d.ret_ty, &d.arg_ty[0]));
    assert!(!type_matches(&d.arg_ty[0], &c.arg_ty[0]));
    assert!(!type_matches(&e.arg_ty[0], &e.ret_ty));
}

#[test]
fn emits_a_sync_stage() {
    let v = flat("|req: String| -> usize { Ok(req.len()) }");
    let c = match &v[0] {
        PipeNodeFlatten::Closure(c) => c,
        _ => panic!(),
    };
    let out = generate_closure(c, AsyncRuntime::Tokio).unwrap();
    assert_eq!(
        out,
        "struct _step_0;\nimpl ::ichika::node::ThreadNode for _step_0 {\n    type Request = String ;\n    type Response = usize ;\n    fn run(req: Self::Request) -> ::ichika::Status<Self::Response, ::ichika::anyhow::Error> {\n        { Ok ( req . len ( ) ) }.into_status()\n    }\n}\nimpl ::ichika::node::ThreadNodeEnum for _step_0 {\n    fn id() -> &'static str {\n        stringify!(_step_0)\n    }\n}\n"
    );
}

#[test]
fn emits_async_stages_on_the_chosen_runtime() {
    let v = flat("step: async |(a: u8, b: u16)| -> u8 { Ok(a) }");
    let c = match &v[0] {
        PipeNodeFlatten::Closure(c) => c,
        _ => panic!(),
    };
    let tokio = generate_closure(c, AsyncRuntime::Tokio).unwrap();
    assert!(tokio.contains("::ichika::tokio::runtime::Runtime::new().unwrap()"));
    assert!(tokio.contains("type Request = (u8 , u16 );"));
    assert!(tokio.contains("fn run((a, b): Self::Request)"));
    let async_std = generate_closure(c, AsyncRuntime::AsyncStd).unwrap();
    assert!(async_std.contains("::ichika::async_std::task::block_on(async move { Ok ( a ) }).into_status()"));
    assert_eq!(generate_closure(c, AsyncRuntime::Unavailable).unwrap_err(), GenError::NoAsyncRuntime);
    assert_eq!(GenError::NoAsyncRuntime.message(), "No async runtime");
}

#[test]
fn emits_a_dispatcher() {
    let v = flat("match { 1 => |x: u8| -> u8 { Ok(x) }, _ => |y: u8| -> u8 { Ok(y) } }");
    let d = match &v[0] {
        PipeNodeFlatten::Dispatcher(d) => d,
        _ => panic!(),
    };
    let out = generate_dispatcher(d);
    assert!(out.starts_with("#[allow(non_camel_case_types)]\nstruct _step_0_match_dispatcher;"));
    assert!(out.contains("1  => ::ichika::Status::Switch((\"_step_0_0\", req)),"));
    assert!(out.contains("_  => ::ichika::Status::Switch((\"_step_0_1\", req)),"));
    let all = generate_closures(&v, AsyncRuntime::Tokio);
    assert!(all.starts_with(&out));
    assert!(all.contains("struct _step_0_1;"));
}

#[test]
fn routing_table_lists_only_matching_stages() {
    let v = flat("|a: String| -> usize { Ok(1) }, b: |x: usize| -> String { Ok(x.to_string()) }, c: |y: String| -> u8 { Ok(1) }");
    let cs: Vec<_> = v
        .iter()
        .map(|n| match n {
            PipeNodeFlatten::Closure(c) => c,
            _ => panic!(),
        })
        .collect();
    let names: Vec<String> = cs.iter().map(|c| c.id.clone()).collect();
    let tys = vec![cs[0].arg_ty[0].clone(), cs[1].arg_ty[0].clone(), cs[2].arg_ty[0].clone()];
    let table = generate_routing_table(&cs[1].ret_ty, &names, &tys);
    assert_eq!(
        table,
        "let mut routing_table: ::std::collections::HashMap<&'static str, ::ichika::flume::Sender<String >> = ::std::collections::HashMap::new();\nrouting_table.insert(\"_step_0\", tx__step_0.clone());\nrouting_table.insert(\"c\", tx_c.clone());\n"
    );
}

#[test]
fn thread_creator_follows_the_stage_limits() {
    let p = parse_ok("s: (max_threads: 2) |x: u8| -> u8 { Ok(x) }, t: (min_threads: 3) |y: u8| -> u8 { Ok(y) }");
    let v = rewrite_names(p).unwrap();
    let (s, t) = match (&v[0], &v[1]) {
        (PipeNodeFlatten::Closure(s), PipeNodeFlatten::Closure(t)) => (s, t),
        _ => panic!(),
    };
    let rx = "rx_s".to_string();
    let tx = "tx_t".to_string();
    let pods = "pods_s".to_string();
    let out = generate_thread_creator(&rx, &tx, &s.id, &pods, &s.ret_ty, None, s.constraints.as_ref(), true);
    assert!(out.starts_with(
        "let later_pods_size = pods_size - pods_s.len();\nif ::ichika::pool::spawn_allowed(\n        !rx_s.is_empty(),\n        later_pods_size,\n        pods_s.len(),\n        max_thread_count,\n        Some(2 ),\n        None,\n        rx_s.len(),\n    ) {"
    ));
    assert!(out.contains("let routing_table: ::std::collections::HashMap<&str, ::ichika::flume::Sender<u8 >> = ::std::collections::HashMap::new();"));
    assert!(out.contains("while let Ok(req) = rx_request.try_recv() {"));
    assert!(out.contains("let res = s::run(req.clone());\n                    match ::ichika::worker::worker_step(res, attempt) {"));
    assert!(out.contains(
        "::ichika::worker::WorkerAction::Rerun(delay_ms, value) => {\n                            std::thread::sleep(std::time::Duration::from_millis(delay_ms));\n                            attempt = attempt + 1;\n                            if let Some(value) = value {\n                                req = value;\n                            }\n                            continue;\n                        }"
    ));
    assert!(out.ends_with(
        "pods_s.push(::ichika::pod::ThreadPod::new(s::id(), thread));\n}\nlet pods_size = later_pods_size;\n"
    ));
    let out = generate_thread_creator(&rx, &tx, &t.id, &pods, &t.ret_ty, None, t.constraints.as_ref(), false);
    assert!(out.contains("max_thread_count,\n        None,\n        Some(3 ),\n        rx_s.len(),"));
    assert!(out.contains("attempt = attempt + 1;\n                            let _ = value;\n                            continue;"));
    assert!(!out.contains("req = value;"));
    let out = generate_thread_creator(&rx, &tx, &t.id, &pods, &t.ret_ty, Some("ROUTES".to_string()), None, false);
    assert!(out.contains("max_thread_count,\n        None,\n        None,\n        rx_s.len(),"));
    assert!(out.contains("ROUTES"));
}

#[test]
fn stage_limits_decide_when_workers_start() {
    // A stage with `max_threads: 2` starts a worker only below two workers.
    assert!(spawn_allowed(true, 0, 1, 8, Some(2), None, 5));
    assert!(!spawn_allowed(true, 0, 2, 8, Some(2), None, 5));
    // The pool limit caps the workers of a stage and of those after it.
    assert!(!spawn_allowed(true, 6, 2, 8, None, None, 5));
    assert!(spawn_allowed(true, 5, 2, 8, None, None, 0));
    assert!(!spawn_allowed(true, 1, 0, 8, Some(1), None, 5));
    // Nothing waits: no worker starts.
    assert!(!spawn_allowed(false, 0, 0, 8, None, None, 0));
    // A stage minimum: under it, or with a backlog over twice the workers.
    assert!(spawn_allowed(true, 0, 2, 8, None, Some(3), 0));
    assert!(!spawn_allowed(true, 0, 3, 8, None, Some(3), 6));
    assert!(spawn_allowed(true, 0, 3, 8, None, Some(3), 7));
    assert!(!spawn_allowed(true, usize::MAX, 1, usize::MAX, None, None, 0));
}

#[test]
fn worker_reruns_on_the_returned_value_as_the_policy_allows() {
    let p = RetryPolicy { max_attempts: 2, delay_ms: 7 };
    // The stage reports attempt 0 every time; the worker's own count decides.
    let mut runs = 1;
    let mut attempt = 0;
    loop {
        match worker_step(Status::<u8, ()>::RetryWith(p, 0, 40 + attempt as u8), attempt) {
            WorkerAction::Rerun(delay, Some(v)) => {
                assert_eq!(delay, 7);
                assert_eq!(v, 40 + attempt as u8);
                attempt += 1;
                runs += 1;
            }
            WorkerAction::Send(v) => {
                assert_eq!(v, 42);
                break;
            }
            _ => panic!("unexpected action"),
        }
    }
    assert_eq!(runs, 3);
    assert!(matches!(worker_step(Status::<u8, ()>::Retry, 2), WorkerAction::Rerun(100, None)));
    assert!(matches!(worker_step(Status::<u8, ()>::Retry, 3), WorkerAction::Stop));
    assert!(matches!(worker_step(Status::<u8, ()>::Next(5), 0), WorkerAction::Send(5)));
    assert!(matches!(worker_step(Status::<u8, ()>::Switch(("b", 5)), 0), WorkerAction::Switch("b", 5)));
    assert!(matches!(worker_step(Status::<u8, ()>::Back(("a", 6)), 1), WorkerAction::Back("a", 6)));
    assert!(matches!(worker_step(Status::<u8, ()>::Panic(()), 0), WorkerAction::Fail(())));
    assert!(matches!(worker_step(Status::<u8, ()>::PanicSwitch(("c", ())), 0), WorkerAction::FailSwitch("c", ())));
    assert!(matches!(worker_step(Status::<u8, ()>::Exit, 0), WorkerAction::Stop));
}

#[test]
fn pods_keep_their_stage_name() {
    let pod = ThreadPod::new("stage1", 17u32);
    assert_eq!(pod.stage(), "stage1");
    assert_eq!(*pod.handle(), 17);
}

#[test]
fn same_typed_stage_reruns_on_the_returned_value() {
    let v = flat("|x: u8| -> u8 { Ok(x) }, |y: u8| -> String { Ok(y.to_string()) }");
    let out = generate_pool(&v, None).unwrap();
    let first = out.find("let rx_request = rx__step_0.clone();").unwrap();
    let second = out.find("let rx_request = rx__step_1.clone();").unwrap();
    assert!(out[first..second].contains("req = value;"));
    assert!(!out[second..].contains("req = value;"));
}

#[test]
fn default_policy_allows_three_retries() {
    let p = RetryPolicy::default();
    assert!(p.allows_retry(0));
    assert!(p.allows_retry(2));
    assert!(!p.allows_retry(3));
    let none = RetryPolicy { max_attempts: 0, delay_ms: 0 };
    assert!(!none.allows_retry(0));
}

#[test]
fn pool_chains_stages_by_type() {
    let v = flat("|req: String| -> usize { Ok(req.len()) }, |req: usize| -> String { Ok(req.to_string()) }");
    let out = generate_pool(&v, None).unwrap();
    assert!(out.contains("tx_send_request: ::ichika::flume::Sender<String >,"));
    assert!(out.contains("rx_recv_response: ::ichika::flume::Receiver<String >,"));
    assert!(out.contains("let (tx__step_0, rx__step_0) = ::ichika::flume::unbounded::<String >();"));
    assert!(out.contains("let max_thread_count = num_cpus::get();"));
    assert!(out.contains("let rx_request = rx__step_0.clone();\n        let tx_response = tx__step_1.clone();"));
    assert!(out.contains("let rx_request = rx__step_1.clone();\n        let tx_response = tx_pods_response.clone();"));
    assert!(out.contains(".send(pods__step_0.len() + pods__step_1.len())"));
    assert!(out.contains(
        "if let Ok(stage) = rx_task_count_request.try_recv() {\n                        tx_task_count_response\n                            .send(match stage.as_str() {\n                                \"_step_0\" => pods__step_0.len() + rx__step_0.len(),\n                                \"_step_1\" => pods__step_1.len() + rx__step_1.len(),\n                                _ => pods__step_0.len() + pods__step_1.len() + tx__step_0.len(),\n                            })"
    ));
    assert!(out.contains("rx_task_count_response: ::ichika::flume::Receiver<usize>,"));
    assert!(out.contains("let pods_size = pods__step_0.len() + pods__step_1.len();\n"));
    assert!(out.contains(
        "let mut pods__step_0: Vec<::ichika::pod::ThreadPod<::std::thread::JoinHandle<::ichika::anyhow::Result<()>>>> = Vec::new();"
    ));
    assert!(out.contains("pods__step_1.retain(|pod| !pod.handle().is_finished());"));
    assert!(out.contains("pods__step_1.push(::ichika::pod::ThreadPod::new(_step_1::id(), thread));"));
    // Neither stage's request type is its response type.
    assert!(!out.contains("req = value;"));
    assert!(out.contains("if pods__step_0.is_empty() && pods__step_1.is_empty() {"));
    assert!(out.contains("tx_send_request: tx__step_0.clone(),"));
}

#[test]
fn pool_uses_global_limit_and_strips_leading_colons() {
    let p = parse_ok("(max_threads: 4), |req: u8| -> ::std::string::String { Ok(String::new()) }, |x: String| -> ::Foo { Ok(Foo) }");
    let g = p.global_constraints.clone();
    let v = rewrite_names(p).unwrap();
    let out = generate_pool(&v, g.as_ref()).unwrap();
    assert!(out.contains("let max_thread_count = 4 ;"));
    assert!(out.contains("rx_recv_response: ::ichika::flume::Receiver<Foo >,"));
    // `::std::string::String` and `String` have different path segments.
    assert!(out.contains("let rx_request = rx__step_0.clone();\n        let tx_response = tx_pods_response.clone();"));
}

#[test]
fn pool_without_closures_is_refused() {
    let v: Vec<PipeNodeFlatten> = Vec::new();
    assert_eq!(generate_pool(&v, None).unwrap_err(), GenError::NoClosure);
}

#[test]
fn expansion_reports_errors() {
    let out = pipe(&toks("(bar: 1) |x: u8| -> u8 { Ok(x) }"), AsyncRuntime::Tokio);
    assert_eq!(out, "compile_error!(\"Unknown constraint: bar\")");
    let out = pipe(&toks("match { }"), AsyncRuntime::Tokio);
    assert_eq!(out, "compile_error!(\"Empty match\")");
    let out = pipe(&toks("async |x: u8| -> u8 { Ok(x) }"), AsyncRuntime::Unavailable);
    assert!(out.starts_with("compile_error!(\"Failed to generate closure implementation list."));
    let out = pipe(&toks("|()| -> u8 { Ok(1) }"), AsyncRuntime::Tokio);
    assert_eq!(out, "compile_error!(\"Every closure step must take an argument\")");
    let out = pipe(&toks(""), AsyncRuntime::Tokio);
    assert_eq!(out, "compile_error!(\"No closure\")");
}

#[test]
fn expansion_of_a_match_pipeline_is_a_block() {
    let out = pipe(
        &toks("|x: String| -> u8 { Ok(1) }, match { 1 => |x: u8| -> u8 { Ok(x) }, _ => |y: u8| -> u8 { Ok(y) } }"),
        AsyncRuntime::Tokio,
    );
    assert!(out.starts_with("{\n"));
    assert!(out.ends_with("_Pool::new()\n}\n"));
    syn::parse_str::<syn::Block>(&out).expect("a block");
}

#[test]
fn stage_after_a_match_sends_to_the_next_matching_stage() {
    // The next stage is searched from the stage's own position in the
    // flattened list, past the dispatcher.
    let v = flat(
        "|x: String| -> u8 { Ok(1) }, match { 1 => |x: u8| -> u8 { Ok(x) } }, |y: u8| -> u8 { Ok(y) }",
    );
    assert_eq!(ids(&v), vec!["_step_0", "_step_1_match_dispatcher", "_step_1_0", "_step_2"]);
    let out = generate_pool(&v, None).unwrap();
    assert!(out.contains("let rx_request = rx__step_0.clone();\n        let tx_response = tx__step_1_0.clone();"));
    assert!(out.contains("let rx_request = rx__step_1_0.clone();\n        let tx_response = tx__step_2.clone();"));
    assert!(out.contains("let rx_request = rx__step_2.clone();\n        let tx_response = tx_pods_response.clone();"));
}

#[test]
fn expansion_with_stage_limits_is_a_block() {
    let out = pipe(
        &toks("stage1: (max_threads: 1) |req: String| -> usize { Ok(req.len()) }, stage2: (min_threads: 2) |req: usize| -> String { Ok(req.to_string()) }"),
        AsyncRuntime::Tokio,
    );
    assert!(out.contains("\"stage1\" => pods_stage1.len() + rx_stage1.len(),"));
    assert!(out.contains("Some(1 ),"));
    syn::parse_str::<syn::Block>(&out).expect("a block");
}

#[test]
fn renders_joined_punctuation_without_spaces() {
    let v = toks("-> 'a x::y 'c'");
    assert_eq!(render_range(&v, 0, v.len()), "-> 'a x :: y 'c' ");
}
