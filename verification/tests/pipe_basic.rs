use ichika::pipe;
use ichika::template::closure::AsyncRuntime;
use ichika::tokens::{Delimiter, Tok};
use proc_macro2::{Spacing, TokenStream, TokenTree};

fn push_tokens(stream: TokenStream, out: &mut Vec<Tok>) {
    for tree in stream {
        match tree {
            TokenTree::Ident(i) => out.push(Tok::Ident(i.to_string())),
            TokenTree::Punct(p) => out.push(Tok::Punct(p.as_char(), p.spacing() == Spacing::Joint)),
            TokenTree::Literal(l) => out.push(Tok::Literal(l.to_string())),
            TokenTree::Group(g) => {
                let d = match g.delimiter() {
                    proc_macro2::Delimiter::Parenthesis => Some(Delimiter::Parenthesis),
                    proc_macro2::Delimiter::Brace => Some(Delimiter::Brace),
                    proc_macro2::Delimiter::Bracket => Some(Delimiter::Bracket),
                    proc_macro2::Delimiter::None => None,
                };
                if let Some(d) = d {
                    out.push(Tok::Open(d));
                }
                push_tokens(g.stream(), out);
                if let Some(d) = d {
                    out.push(Tok::Close(d));
                }
            }
        }
    }
}

fn toks(src: &str) -> Vec<Tok> {
    let stream: TokenStream = src.parse().unwrap();
    let mut out = Vec::new();
    push_tokens(stream, &mut out);
    out
}

#[test]
fn test_two_closures_different_types() {
    let input = toks(
        "|req: String| -> usize { Ok(req.len()) },
         |req: usize| -> String { Ok(req.to_string()) }",
    );
    let out = pipe(&input, AsyncRuntime::Tokio);
    assert!(!out.starts_with("compile_error"), "{}", out);
    syn::parse_str::<syn::Block>(&out).expect("the expansion is a block");
}

#[test]
fn test_binding_type() -> anyhow::Result<()> {
    let input = toks(
        "|req: String| -> usize { Ok(req.len()) },
         |req: usize| -> String { Ok(req.to_string()) }",
    );
    let out = pipe(&input, AsyncRuntime::Tokio);
    let block: syn::Block = syn::parse_str(&out)?;
    assert!(!block.stmts.is_empty());
    Ok(())
}
