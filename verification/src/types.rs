//! Type nodes of the source language and their canonical text.

use vstd::prelude::*;
use crate::text::join;

verus! {

/// The first segment of a qualified name.
#[derive(Debug, Clone, PartialEq, Eq)]
pub enum LeadingName {
    /// A named address or a module or member name.
    Name(String),
    /// A name looked up among the global addresses.
    GlobalAddress(String),
    /// A numeric address, given by its bytes.
    AnonymousAddress(Vec<u8>),
}

/// One segment of a name, with the type arguments written behind it.
#[derive(Debug, PartialEq, Eq)]
pub struct PathEntry {
    pub name: String,
    pub type_args: Option<Vec<TypeNode>>,
}

/// A possibly qualified name.
#[derive(Debug, PartialEq, Eq)]
pub enum NameAccessChain {
    Single(PathEntry),
    Path(LeadingName, Vec<PathEntry>),
}

/// A type as written in a declaration.
#[derive(Debug, PartialEq, Eq)]
pub enum TypeNode {
    Unit,
    Apply(Box<NameAccessChain>),
    Ref(bool, Box<TypeNode>),
    Fun(Vec<TypeNode>, Box<TypeNode>),
    Multiple(Vec<TypeNode>),
    UnresolvedError,
}

/// The lowercase hexadecimal digit for a value below sixteen.
pub open spec fn hex_digit(n: int) -> char {
    if n < 10 {
        (('0' as u8) + n) as u8 as char
    } else {
        (('a' as u8) + n - 10) as u8 as char
    }
}

/// Two lowercase hexadecimal digits per byte, high digit first.
pub open spec fn hex_text(bytes: Seq<u8>) -> Seq<char> {
    Seq::new(2 * bytes.len(), |i: int| if i % 2 == 0 {
        hex_digit(bytes[i / 2] as int / 16)
    } else {
        hex_digit(bytes[i / 2] as int % 16)
    })
}

pub open spec fn render_leading(l: LeadingName) -> Seq<char> {
    match l {
        LeadingName::Name(n) => n@,
        LeadingName::GlobalAddress(n) => "@"@ + n@,
        LeadingName::AnonymousAddress(bytes) => "0x"@ + hex_text(bytes@),
    }
}

/// The canonical text of a type.
pub open spec fn render_type(t: TypeNode) -> Seq<char>
    decreases t,
{
    match t {
        TypeNode::Unit => "()"@,
        TypeNode::Apply(chain) => render_chain(*chain),
        TypeNode::Ref(is_mut, inner) => (if is_mut { "&mut "@ } else { "&"@ }) + render_type(*inner),
        TypeNode::Fun(params, ret) => "|"@ + render_type_list(params@) + "| -> "@ + render_type(*ret),
        TypeNode::Multiple(types) => "("@ + render_type_list(types@) + ")"@,
        TypeNode::UnresolvedError => "UnresolvedError"@,
    }
}

/// The texts of the types, separated by a comma and a space.
pub open spec fn render_type_list(ts: Seq<TypeNode>) -> Seq<char>
    decreases ts, 1nat,
{
    join(rendered_types(ts), ", "@)
}

/// The text of each type, in order.
pub open spec fn rendered_types(ts: Seq<TypeNode>) -> Seq<Seq<char>>
    decreases ts, 0nat,
{
    Seq::new(
        ts.len(),
        |i: int|
            if 0 <= i < ts.len() {
                render_type(ts[i])
            } else {
                Seq::<char>::empty()
            },
    )
}

pub open spec fn render_entry(e: PathEntry) -> Seq<char>
    decreases e,
{
    match e.type_args {
        Some(args) => e.name@ + "<"@ + render_type_list(args@) + ">"@,
        None => e.name@,
    }
}

pub open spec fn render_chain(c: NameAccessChain) -> Seq<char>
    decreases c,
{
    match c {
        NameAccessChain::Single(entry) => render_entry(entry),
        NameAccessChain::Path(root, entries) => render_leading(root) + render_entries(entries@, entries@.len()),
    }
}

/// The first `n` further segments of a qualified name, each behind `::`.
pub open spec fn render_entries(es: Seq<PathEntry>, n: nat) -> Seq<char>
    decreases es, n,
{
    if n == 0 || n > es.len() {
        Seq::<char>::empty()
    } else {
        render_entries(es, (n - 1) as nat) + "::"@ + render_entry(es[n - 1])
    }
}

/// Rendering a type twice gives the same text: the text depends on the
/// type alone.
pub proof fn law_rendering_is_repeatable(t: TypeNode, first: String, second: String)
    requires
        first@ == render_type(t),
        second@ == render_type(t),
    ensures
        first@ == second@,
{
}

/// The number of nodes of a type, names and their segments included.
pub open spec fn type_size(t: TypeNode) -> nat
    decreases t,
{
    match t {
        TypeNode::Unit => 1,
        TypeNode::Apply(chain) => 1 + chain_size(*chain),
        TypeNode::Ref(_, inner) => 1 + type_size(*inner),
        TypeNode::Fun(params, ret) => 1 + types_size(params@, params@.len()) + type_size(*ret),
        TypeNode::Multiple(types) => 1 + types_size(types@, types@.len()),
        TypeNode::UnresolvedError => 1,
    }
}

/// The nodes of the first `n` types together.
pub open spec fn types_size(ts: Seq<TypeNode>, n: nat) -> nat
    decreases ts, n,
{
    if n == 0 || n > ts.len() {
        0
    } else {
        types_size(ts, (n - 1) as nat) + type_size(ts[n - 1])
    }
}

pub open spec fn entry_size(e: PathEntry) -> nat
    decreases e,
{
    match e.type_args {
        Some(args) => 2 + types_size(args@, args@.len()),
        None => 1,
    }
}

pub open spec fn chain_size(c: NameAccessChain) -> nat
    decreases c,
{
    match c {
        NameAccessChain::Single(entry) => 1 + entry_size(entry),
        NameAccessChain::Path(_, entries) => 1 + entries_size(entries@, entries@.len()),
    }
}

/// The nodes of the first `n` segments together.
pub open spec fn entries_size(es: Seq<PathEntry>, n: nat) -> nat
    decreases es, n,
{
    if n == 0 || n > es.len() {
        0
    } else {
        entries_size(es, (n - 1) as nat) + entry_size(es[n - 1])
    }
}

/// Each of the first `n` types is smaller than all of them together.
pub proof fn lemma_types_size_member(ts: Seq<TypeNode>, n: nat, i: int)
    requires
        0 <= i < n <= ts.len(),
    ensures
        type_size(ts[i]) <= types_size(ts, n),
    decreases n,
{
    if i < n - 1 {
        lemma_types_size_member(ts, (n - 1) as nat, i);
    }
}

/// Each of the first `n` segments is smaller than all of them together.
pub proof fn lemma_entries_size_member(es: Seq<PathEntry>, n: nat, i: int)
    requires
        0 <= i < n <= es.len(),
    ensures
        entry_size(es[i]) <= entries_size(es, n),
    decreases n,
{
    if i < n - 1 {
        lemma_entries_size_member(es, (n - 1) as nat, i);
    }
}

} // verus!
