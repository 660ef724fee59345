use vstd::prelude::*;
use vstd::string::*;

verus! {

/// The bracket kind of a delimited group.
#[derive(Clone, Copy, Debug, PartialEq, Eq, Structural)]
pub enum Delimiter {
    Parenthesis,
    Brace,
    Bracket,
}

/// One token of a macro input or output, with groups written out flat: a
/// group is its `Open` marker, its content and its `Close` marker.
#[derive(Debug)]
pub enum Tok {
    Ident(String),
    /// A punctuation character; the flag is set when it is joined to the
    /// punctuation character that follows it (as the `-` of `->`).
    Punct(char, bool),
    /// A literal, as its source text.
    Literal(String),
    Open(Delimiter),
    Close(Delimiter),
}

impl Clone for Tok {
    fn clone(&self) -> (c: Self)
        ensures
            c == *self,
    {
        match self {
            Tok::Ident(s) => Tok::Ident(s.clone()),
            Tok::Punct(ch, joint) => Tok::Punct(*ch, *joint),
            Tok::Literal(s) => Tok::Literal(s.clone()),
            Tok::Open(d) => Tok::Open(*d),
            Tok::Close(d) => Tok::Close(*d),
        }
    }
}

/// The token is the punctuation character `c`, joined or not.
pub open spec fn is_punct(t: Tok, c: char) -> bool {
    t matches Tok::Punct(x, _) && x == c
}

/// The token is the identifier (or keyword) written `word`.
pub open spec fn is_word(t: Tok, word: Seq<char>) -> bool {
    t matches Tok::Ident(x) && x@ == word
}

/// The token opens a group with delimiter `d`.
pub open spec fn is_open(t: Tok, d: Delimiter) -> bool {
    t matches Tok::Open(x) && x == d
}

/// Within `[.., hi)`, the two-character punctuation `c1 c2` starts at `p`:
/// `c1` must be joined to `c2`.
pub open spec fn at_punct2(s: Seq<Tok>, p: int, hi: int, c1: char, c2: char) -> bool {
    &&& 0 <= p
    &&& p + 1 < hi
    &&& s[p] matches Tok::Punct(x, joint) && x == c1 && joint
    &&& is_punct(s[p + 1], c2)
}

/// Scanning from `i` at nesting depth `depth`, the position just after the
/// `Close` that brings the depth to zero, if it comes before `hi`.
pub open spec fn close_after(s: Seq<Tok>, i: int, hi: int, depth: nat) -> Option<int>
    decreases hi - i,
{
    if i >= hi || i < 0 {
        None
    } else {
        match s[i] {
            Tok::Open(_) => close_after(s, i + 1, hi, depth + 1),
            Tok::Close(_) => if depth <= 1 {
                Some(i + 1)
            } else {
                close_after(s, i + 1, hi, (depth - 1) as nat)
            },
            _ => close_after(s, i + 1, hi, depth),
        }
    }
}

/// The position just after the token tree that starts at `p` (a single token,
/// or a whole group), if it ends before `hi`.
pub open spec fn tree_end(s: Seq<Tok>, p: int, hi: int) -> Option<int> {
    if p < 0 || p >= hi {
        None
    } else {
        match s[p] {
            Tok::Open(_) => close_after(s, p + 1, hi, 1),
            Tok::Close(_) => None,
            _ => Some(p + 1),
        }
    }
}

pub proof fn lemma_close_after_bounds(s: Seq<Tok>, i: int, hi: int, depth: nat)
    ensures
        close_after(s, i, hi, depth) matches Some(e) ==> i < e <= hi,
    decreases hi - i,
{
    if 0 <= i < hi {
        match s[i] {
            Tok::Open(_) => lemma_close_after_bounds(s, i + 1, hi, depth + 1),
            Tok::Close(_) => if depth > 1 {
                lemma_close_after_bounds(s, i + 1, hi, (depth - 1) as nat);
            },
            _ => lemma_close_after_bounds(s, i + 1, hi, depth),
        }
    }
}

pub proof fn lemma_tree_end_bounds(s: Seq<Tok>, p: int, hi: int)
    ensures
        tree_end(s, p, hi) matches Some(e) ==> p < e <= hi,
        tree_end(s, p, hi) matches Some(e) ==> (s[p] is Open ==> p + 2 <= e),
{
    if 0 <= p < hi {
        if s[p] is Open {
            lemma_close_after_bounds(s, p + 1, hi, 1);
        }
    }
}

/// The position just after the token tree that starts at `p`, or `None` when
/// no tree starts there or its group is not closed before `hi`.
pub fn skip_tree(toks: &Vec<Tok>, p: usize, hi: usize) -> (r: Option<usize>)
    requires
        hi <= toks@.len(),
    ensures
        r matches Some(e) ==> tree_end(toks@, p as int, hi as int) == Some(e as int),
        r is None ==> tree_end(toks@, p as int, hi as int) is None,
        r matches Some(e) ==> p < e <= hi,
{
    proof {
        lemma_tree_end_bounds(toks@, p as int, hi as int);
    }
    if p >= hi {
        return None;
    }
    match &toks[p] {
        Tok::Close(_) => None,
        Tok::Open(_) => {
            let mut i: usize = p + 1;
            let mut depth: usize = 1;
            while i < hi
                invariant
                    p < i <= hi,
                    hi <= toks@.len(),
                    1 <= depth <= i,
                    close_after(toks@, i as int, hi as int, depth as nat) == tree_end(
                        toks@,
                        p as int,
                        hi as int,
                    ),
                decreases hi - i,
            {
                match &toks[i] {
                    Tok::Open(_) => {
                        depth = depth + 1;
                    },
                    Tok::Close(_) => {
                        if depth <= 1 {
                            return Some(i + 1);
                        }
                        depth = depth - 1;
                    },
                    _ => {},
                }
                i = i + 1;
            }
            None
        },
        _ => Some(p + 1),
    }
}

/// A copy of the tokens in `[lo, hi)`.
pub fn copy_range(toks: &Vec<Tok>, lo: usize, hi: usize) -> (r: Vec<Tok>)
    requires
        lo <= hi <= toks@.len(),
    ensures
        r@ == toks@.subrange(lo as int, hi as int),
{
    let mut r: Vec<Tok> = Vec::new();
    let mut i: usize = lo;
    while i < hi
        invariant
            lo <= i <= hi <= toks@.len(),
            r@ == toks@.subrange(lo as int, i as int),
        decreases hi - i,
    {
        r.push(toks[i].clone());
        i = i + 1;
        assert(r@ =~= toks@.subrange(lo as int, i as int));
    }
    r
}

/// The source text of a delimiter's opening or closing character.
pub open spec fn delim_text(d: Delimiter, open: bool) -> Seq<char> {
    match d {
        Delimiter::Parenthesis => if open { "("@ } else { ")"@ },
        Delimiter::Brace => if open { "{"@ } else { "}"@ },
        Delimiter::Bracket => if open { "["@ } else { "]"@ },
    }
}

/// The opening character of a bracket kind.
pub open spec fn opening_char(d: Delimiter) -> char {
    match d {
        Delimiter::Parenthesis => '(',
        Delimiter::Brace => '{',
        Delimiter::Bracket => '[',
    }
}

/// The closing character of a bracket kind.
pub open spec fn closing_char(d: Delimiter) -> char {
    match d {
        Delimiter::Parenthesis => ')',
        Delimiter::Brace => '}',
        Delimiter::Bracket => ']',
    }
}

/// Rendering keeps every delimiter: an opening marker is written as the
/// opening character of its bracket kind and a closing one as its closing
/// character, each followed by a space; so different bracket kinds are
/// written differently and a group's kind can be read back from the text.
pub proof fn lemma_delimiters_kept(d: Delimiter, e: Delimiter)
    ensures
        tok_text(Tok::Open(d)) == seq![opening_char(d), ' '],
        tok_text(Tok::Close(d)) == seq![closing_char(d), ' '],
        d != e ==> tok_text(Tok::Open(d)) != tok_text(Tok::Open(e)),
        d != e ==> tok_text(Tok::Close(d)) != tok_text(Tok::Close(e)),
        tok_text(Tok::Open(d)) != tok_text(Tok::Close(e)),
{
    reveal_strlit("(");
    reveal_strlit(")");
    reveal_strlit("{");
    reveal_strlit("}");
    reveal_strlit("[");
    reveal_strlit("]");
    reveal_strlit(" ");
    assert(tok_text(Tok::Open(d)) =~= seq![opening_char(d), ' ']);
    assert(tok_text(Tok::Close(d)) =~= seq![closing_char(d), ' ']);
    assert(tok_text(Tok::Open(e)) =~= seq![opening_char(e), ' ']);
    assert(tok_text(Tok::Close(e)) =~= seq![closing_char(e), ' ']);
    if d != e {
        assert(tok_text(Tok::Open(d))[0] != tok_text(Tok::Open(e))[0]);
        assert(tok_text(Tok::Close(d))[0] != tok_text(Tok::Close(e))[0]);
    }
    assert(tok_text(Tok::Open(d))[0] != tok_text(Tok::Close(e))[0]);
}

/// The source text of one token followed by its separator: nothing after a
/// joined punctuation character, a space after anything else.
pub open spec fn tok_text(t: Tok) -> Seq<char> {
    match t {
        Tok::Ident(x) => x@ + " "@,
        Tok::Punct(c, joint) => if joint { seq![c] } else { seq![c] + " "@ },
        Tok::Literal(x) => x@ + " "@,
        Tok::Open(d) => delim_text(d, true) + " "@,
        Tok::Close(d) => delim_text(d, false) + " "@,
    }
}

/// The source text of a token sequence.
pub open spec fn render(s: Seq<Tok>) -> Seq<char>
    decreases s.len(),
{
    if s.len() == 0 {
        Seq::empty()
    } else {
        render(s.drop_last()) + tok_text(s.last())
    }
}

#[verifier::external_body]
/// Appends one character: `String::push`.
pub(crate) fn push_char(s: &mut String, c: char)
    ensures
        final(s)@ == old(s)@.push(c),
{
    s.push(c);
}

fn append_delim(out: &mut String, d: Delimiter, open: bool)
    ensures
        final(out)@ == old(out)@ + delim_text(d, open),
{
    match d {
        Delimiter::Parenthesis => if open {
            out.append("(");
        } else {
            out.append(")");
        },
        Delimiter::Brace => if open {
            out.append("{");
        } else {
            out.append("}");
        },
        Delimiter::Bracket => if open {
            out.append("[");
        } else {
            out.append("]");
        },
    }
}

/// Appends the source text of one token and its separator.
pub fn append_tok(out: &mut String, t: &Tok)
    ensures
        final(out)@ == old(out)@ + tok_text(*t),
{
    match t {
        Tok::Ident(x) => {
            out.append(x.as_str());
            out.append(" ");
        },
        Tok::Punct(c, joint) => {
            push_char(out, *c);
            if !*joint {
                out.append(" ");
            }
            assert(seq![*c] =~= Seq::<char>::empty().push(*c));
        },
        Tok::Literal(x) => {
            out.append(x.as_str());
            out.append(" ");
        },
        Tok::Open(d) => {
            append_delim(out, *d, true);
            out.append(" ");
        },
        Tok::Close(d) => {
            append_delim(out, *d, false);
            out.append(" ");
        },
    }
    assert(final(out)@ =~= old(out)@ + tok_text(*t));
}

/// Appends the source text of the tokens in `[lo, hi)`.
pub fn append_range(out: &mut String, toks: &Vec<Tok>, lo: usize, hi: usize)
    requires
        lo <= hi <= toks@.len(),
    ensures
        final(out)@ == old(out)@ + render(toks@.subrange(lo as int, hi as int)),
{
    let mut i: usize = lo;
    assert(render(toks@.subrange(lo as int, lo as int)) =~= Seq::<char>::empty());
    while i < hi
        invariant
            lo <= i <= hi <= toks@.len(),
            out@ == old(out)@ + render(toks@.subrange(lo as int, i as int)),
        decreases hi - i,
    {
        append_tok(out, &toks[i]);
        assert(toks@.subrange(lo as int, i + 1).drop_last() =~= toks@.subrange(lo as int, i as int));
        i = i + 1;
        assert(out@ =~= old(out)@ + render(toks@.subrange(lo as int, i as int)));
    }
}

/// The source text of the tokens in `[lo, hi)`.
pub fn render_range(toks: &Vec<Tok>, lo: usize, hi: usize) -> (r: String)
    requires
        lo <= hi <= toks@.len(),
    ensures
        r@ == render(toks@.subrange(lo as int, hi as int)),
{
    let mut out = String::new();
    append_range(&mut out, toks, lo, hi);
    assert(out@ =~= render(toks@.subrange(lo as int, hi as int)));
    out
}

/// Whether two strings hold the same characters.
pub fn str_eq(a: &str, b: &str) -> (r: bool)
    ensures
        r == (a@ == b@),
{
    let n: usize = a.unicode_len();
    let m: usize = b.unicode_len();
    if n != m {
        return false;
    }
    let mut i: usize = 0;
    while i < n
        invariant
            n == a@.len(),
            m == b@.len(),
            n == m,
            i <= n,
            forall|j: int| 0 <= j < i ==> a@[j] == b@[j],
        decreases n - i,
    {
        if a.get_char(i) != b.get_char(i) {
            return false;
        }
        i = i + 1;
    }
    assert(a@ =~= b@);
    true
}

/// Whether the token at `p` is the identifier (or keyword) `word`.
pub fn word_at(toks: &Vec<Tok>, p: usize, hi: usize, word: &str) -> (r: bool)
    requires
        hi <= toks@.len(),
    ensures
        r == (p < hi && is_word(toks@[p as int], word@)),
{
    if p >= hi {
        return false;
    }
    match &toks[p] {
        Tok::Ident(x) => str_eq(x.as_str(), word),
        _ => false,
    }
}

/// Whether the token at `p` is the punctuation character `c`.
pub fn punct_at(toks: &Vec<Tok>, p: usize, hi: usize, c: char) -> (r: bool)
    requires
        hi <= toks@.len(),
    ensures
        r == (p < hi && is_punct(toks@[p as int], c)),
{
    if p >= hi {
        return false;
    }
    match &toks[p] {
        Tok::Punct(x, _) => *x == c,
        _ => false,
    }
}

/// Whether the two-character punctuation `c1 c2` starts at `p`.
pub fn punct2_at(toks: &Vec<Tok>, p: usize, hi: usize, c1: char, c2: char) -> (r: bool)
    requires
        hi <= toks@.len(),
    ensures
        r == at_punct2(toks@, p as int, hi as int, c1, c2),
{
    if p >= hi || hi - p < 2 {
        return false;
    }
    match &toks[p] {
        Tok::Punct(x, joint) => *x == c1 && *joint && punct_at(toks, p + 1, hi, c2),
        _ => false,
    }
}

/// Whether a group with delimiter `d` opens at `p`.
pub fn open_at(toks: &Vec<Tok>, p: usize, hi: usize, d: Delimiter) -> (r: bool)
    requires
        hi <= toks@.len(),
    ensures
        r == (p < hi && is_open(toks@[p as int], d)),
{
    if p >= hi {
        return false;
    }
    match &toks[p] {
        Tok::Open(x) => *x == d,
        _ => false,
    }
}

/// The decimal digit character for `d`.
pub open spec fn digit(d: nat) -> char {
    if d == 0 { '0' } else if d == 1 { '1' } else if d == 2 { '2' } else if d == 3 { '3' }
    else if d == 4 { '4' } else if d == 5 { '5' } else if d == 6 { '6' } else if d == 7 { '7' }
    else if d == 8 { '8' } else { '9' }
}

/// The decimal notation of `n`, as `usize`'s `Display` writes it.
pub open spec fn decimal(n: nat) -> Seq<char>
    decreases n,
{
    if n < 10 {
        seq![digit(n)]
    } else {
        decimal(n / 10).push(digit(n % 10))
    }
}

proof fn lemma_digit_injective(a: nat, b: nat)
    requires
        a < 10,
        b < 10,
        digit(a) == digit(b),
    ensures
        a == b,
{
}

/// Distinct numbers have distinct decimal notations (so the default step
/// names `_step_0`, `_step_1`, .. are all different).
pub proof fn lemma_decimal_injective(a: nat, b: nat)
    requires
        decimal(a) == decimal(b),
    ensures
        a == b,
    decreases a + b,
{
    if a < 10 && b < 10 {
        assert(decimal(a)[0] == digit(a));
        assert(decimal(b)[0] == digit(b));
        lemma_digit_injective(a, b);
    } else if a < 10 {
        lemma_decimal_len(b / 10);
        assert(decimal(b).len() >= 2);
        assert(decimal(a).len() == 1);
    } else if b < 10 {
        lemma_decimal_len(a / 10);
        assert(decimal(a).len() >= 2);
        assert(decimal(b).len() == 1);
    } else {
        assert(decimal(a).drop_last() =~= decimal(a / 10));
        assert(decimal(b).drop_last() =~= decimal(b / 10));
        lemma_decimal_injective(a / 10, b / 10);
        assert(decimal(a).last() == digit(a % 10));
        assert(decimal(b).last() == digit(b % 10));
        lemma_digit_injective(a % 10, b % 10);
    }
}

proof fn lemma_decimal_len(n: nat)
    ensures
        decimal(n).len() >= 1,
    decreases n,
{
    if n >= 10 {
        lemma_decimal_len(n / 10);
    }
}

fn digit_char(d: usize) -> (c: char)
    requires
        d < 10,
    ensures
        c == digit(d as nat),
{
    if d == 0 { '0' } else if d == 1 { '1' } else if d == 2 { '2' } else if d == 3 { '3' }
    else if d == 4 { '4' } else if d == 5 { '5' } else if d == 6 { '6' } else if d == 7 { '7' }
    else if d == 8 { '8' } else { '9' }
}

/// Appends the decimal notation of `n`.
pub fn append_decimal(out: &mut String, n: usize)
    ensures
        final(out)@ == old(out)@ + decimal(n as nat),
    decreases n,
{
    if n < 10 {
        push_char(out, digit_char(n));
        assert(old(out)@.push(digit(n as nat)) =~= old(out)@ + decimal(n as nat));
    } else {
        append_decimal(out, n / 10);
        push_char(out, digit_char(n % 10));
        assert(old(out)@ + decimal((n / 10) as nat) + seq![digit((n % 10) as nat)] =~= old(out)@
            + decimal(n as nat));
    }
}

} // verus!
