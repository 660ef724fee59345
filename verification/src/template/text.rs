use vstd::prelude::*;
use vstd::string::*;

use crate::parse::{types_view, TypePath, TypeSpec};
use crate::tokens::{append_range, render};

verus! {

/// Why code cannot be emitted for a flattened pipeline.
#[derive(Clone, Copy, Debug, PartialEq, Eq, Structural)]
pub enum GenError {
    /// An `async` closure, with no async runtime to run it.
    NoAsyncRuntime,
    /// A pipeline without any closure step.
    NoClosure,
}

impl GenError {
    /// The message reported for the error.
    pub fn message(&self) -> (m: &'static str)
        ensures
            m@ == self.spec_message(),
    {
        match self {
            GenError::NoAsyncRuntime => "No async runtime",
            GenError::NoClosure => "No closure",
        }
    }

    pub open spec fn spec_message(&self) -> Seq<char> {
        match self {
            GenError::NoAsyncRuntime => "No async runtime"@,
            GenError::NoClosure => "No closure"@,
        }
    }
}

/// `items` separated by `sep`.
pub open spec fn join(items: Seq<Seq<char>>, sep: Seq<char>) -> Seq<char>
    decreases items.len(),
{
    if items.len() == 0 {
        Seq::empty()
    } else if items.len() == 1 {
        items[0]
    } else {
        join(items.drop_last(), sep) + sep + items.last()
    }
}

/// `( a, b, .. )`.
pub open spec fn tuple_text(items: Seq<Seq<char>>) -> Seq<char> {
    "("@ + join(items, ", "@) + ")"@
}

/// The only item, or else the tuple of all of them.
pub open spec fn one_or_tuple(items: Seq<Seq<char>>) -> Seq<char> {
    if items.len() == 1 {
        items[0]
    } else {
        tuple_text(items)
    }
}

/// The source text of each type.
pub open spec fn type_texts(tys: Seq<TypeSpec>) -> Seq<Seq<char>> {
    Seq::new(tys.len(), |i: int| render(tys[i].tokens))
}

/// The source text of a type.
pub open spec fn type_text(ty: TypeSpec) -> Seq<char> {
    render(ty.tokens)
}

/// Appends the source text of a type.
pub fn append_type(out: &mut String, ty: &TypePath)
    ensures
        final(out)@ == old(out)@ + type_text(ty@),
{
    append_range(out, &ty.tokens, 0, ty.tokens.len());
    assert(ty.tokens@.subrange(0, ty.tokens@.len() as int) =~= ty.tokens@);
}

proof fn lemma_join_step(items: Seq<Seq<char>>, sep: Seq<char>, i: int)
    requires
        0 <= i < items.len(),
    ensures
        join(items.take(i + 1), sep) == if i == 0 {
            items[0]
        } else {
            join(items.take(i), sep) + sep + items[i]
        },
{
    assert(items.take(i + 1).drop_last() =~= items.take(i));
    if i == 0 {
        assert(items.take(1).len() == 1);
    }
}

/// Appends the strings separated by `sep`.
pub fn append_strings_joined(out: &mut String, items: &Vec<String>, sep: &str)
    ensures
        final(out)@ == old(out)@ + join(items.deep_view(), sep@),
{
    let ghost dv = items.deep_view();
    let mut i: usize = 0;
    assert(dv.take(0) =~= Seq::<Seq<char>>::empty());
    assert(old(out)@ + join(dv.take(0), sep@) =~= old(out)@);
    while i < items.len()
        invariant
            i <= items@.len(),
            dv == items.deep_view(),
            out@ == old(out)@ + join(dv.take(i as int), sep@),
        decreases items@.len() - i,
    {
        proof {
            lemma_join_step(dv, sep@, i as int);
        }
        let ghost before = out@;
        if i > 0 {
            out.append(sep);
        }
        out.append(items[i].as_str());
        assert(out@ =~= old(out)@ + join(dv.take(i + 1), sep@));
        i = i + 1;
    }
    assert(dv.take(i as int) =~= dv);
}

/// Appends the source text of the types separated by `sep`.
pub fn append_types_joined(out: &mut String, tys: &Vec<TypePath>, sep: &str)
    ensures
        final(out)@ == old(out)@ + join(type_texts(types_view(tys@)), sep@),
{
    let ghost dv = type_texts(types_view(tys@));
    let mut i: usize = 0;
    assert(dv.take(0) =~= Seq::<Seq<char>>::empty());
    assert(old(out)@ + join(dv.take(0), sep@) =~= old(out)@);
    while i < tys.len()
        invariant
            i <= tys@.len(),
            dv == type_texts(types_view(tys@)),
            out@ == old(out)@ + join(dv.take(i as int), sep@),
        decreases tys@.len() - i,
    {
        proof {
            lemma_join_step(dv, sep@, i as int);
        }
        if i > 0 {
            out.append(sep);
        }
        append_type(out, &tys[i]);
        assert(dv[i as int] == type_text(tys@[i as int]@));
        assert(out@ =~= old(out)@ + join(dv.take(i + 1), sep@));
        i = i + 1;
    }
    assert(dv.take(i as int) =~= dv);
}

/// Appends the only name, or else the tuple of all of them.
pub fn append_names_one_or_tuple(out: &mut String, items: &Vec<String>)
    ensures
        final(out)@ == old(out)@ + one_or_tuple(items.deep_view()),
{
    if items.len() == 1 {
        out.append(items[0].as_str());
    } else {
        out.append("(");
        append_strings_joined(out, items, ", ");
        out.append(")");
    }
    assert(final(out)@ =~= old(out)@ + one_or_tuple(items.deep_view()));
}

/// Appends the only type, or else the tuple of all of them.
pub fn append_types_one_or_tuple(out: &mut String, tys: &Vec<TypePath>)
    ensures
        final(out)@ == old(out)@ + one_or_tuple(type_texts(types_view(tys@))),
{
    if tys.len() == 1 {
        append_type(out, &tys[0]);
    } else {
        out.append("(");
        append_types_joined(out, tys, ", ");
        out.append(")");
    }
    assert(final(out)@ =~= old(out)@ + one_or_tuple(type_texts(types_view(tys@))));
}

} // verus!
