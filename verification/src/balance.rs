//! Brackets in rendered types and signatures: round brackets always
//! balance; angle brackets balance up to the arrows of function types.

use vstd::prelude::*;
use crate::ast::{Ability, Function, FunctionParameter, TypeParameter, Visibility};
use crate::signature::{
    ability_name, ability_names, modifiers_text, render_parameter, render_parameters,
    render_type_parameter, render_type_parameters, signature_text, visibility_token,
};
use crate::text::join;
use crate::types::{
    hex_digit, hex_text, render_chain, render_entries, render_entry, render_leading, render_type,
    render_type_list, rendered_types, LeadingName, NameAccessChain, PathEntry, TypeNode,
};

verus! {

/// How often `c` occurs in `s`.
pub open spec fn count(s: Seq<char>, c: char) -> nat
    decreases s.len(),
{
    if s.len() == 0 {
        0
    } else {
        count(s.drop_last(), c) + if s.last() == c {
            1nat
        } else {
            0nat
        }
    }
}

/// Opening minus closing round brackets.
pub open spec fn round_excess(s: Seq<char>) -> int {
    count(s, '(') - count(s, ')')
}

/// Opening minus closing angle brackets.
pub open spec fn angle_excess(s: Seq<char>) -> int {
    count(s, '<') - count(s, '>')
}

pub open spec fn is_bracket(c: char) -> bool {
    c == '(' || c == ')' || c == '<' || c == '>'
}

/// Whether a name holds no bracket.
pub open spec fn is_plain(name: Seq<char>) -> bool {
    forall|i: int| 0 <= i < name.len() ==> !is_bracket(#[trigger] name[i])
}

/// Occurrences in a concatenation add up.
pub proof fn lemma_count_concat(a: Seq<char>, b: Seq<char>, c: char)
    ensures
        count(a + b, c) == count(a, c) + count(b, c),
    decreases b.len(),
{
    if b.len() == 0 {
        assert(a + b == a);
    } else {
        assert((a + b).drop_last() == a + b.drop_last());
        lemma_count_concat(a, b.drop_last(), c);
    }
}

/// Bracket excess in a concatenation adds up.
pub proof fn lemma_excess_concat(a: Seq<char>, b: Seq<char>)
    ensures
        round_excess(a + b) == round_excess(a) + round_excess(b),
        angle_excess(a + b) == angle_excess(a) + angle_excess(b),
{
    lemma_count_concat(a, b, '(');
    lemma_count_concat(a, b, ')');
    lemma_count_concat(a, b, '<');
    lemma_count_concat(a, b, '>');
}

/// A plain name holds no bracket.
pub proof fn lemma_plain_counts(name: Seq<char>, c: char)
    requires
        is_plain(name),
        is_bracket(c),
    ensures
        count(name, c) == 0,
    decreases name.len(),
{
    if name.len() > 0 {
        assert(!is_bracket(name[name.len() - 1]));
        assert(is_plain(name.drop_last())) by {
            assert forall|i: int| 0 <= i < name.drop_last().len() implies !is_bracket(
                #[trigger] name.drop_last()[i],
            ) by {
                assert(name.drop_last()[i] == name[i]);
            }
        }
        lemma_plain_counts(name.drop_last(), c);
    }
}

/// A plain name has no bracket excess.
pub proof fn lemma_plain_excess(name: Seq<char>)
    requires
        is_plain(name),
    ensures
        round_excess(name) == 0,
        angle_excess(name) == 0,
{
    lemma_plain_counts(name, '(');
    lemma_plain_counts(name, ')');
    lemma_plain_counts(name, '<');
    lemma_plain_counts(name, '>');
}

/// Hexadecimal digits are no brackets.
pub proof fn lemma_hex_plain(bytes: Seq<u8>)
    ensures
        is_plain(hex_text(bytes)),
{
    assert forall|i: int| 0 <= i < hex_text(bytes).len() implies !is_bracket(
        #[trigger] hex_text(bytes)[i],
    ) by {
        let b = bytes[i / 2] as int;
        assert(0 <= b / 16 < 16);
        assert(0 <= b % 16 < 16);
        lemma_hex_digit(b / 16);
        lemma_hex_digit(b % 16);
    }
}

/// A hexadecimal digit is no bracket.
pub proof fn lemma_hex_digit(n: int)
    requires
        0 <= n < 16,
    ensures
        !is_bracket(hex_digit(n)),
{
}

/// The parts of a joined text, one after another, without separators.
pub open spec fn total(parts: Seq<Seq<char>>, c: char) -> nat
    decreases parts.len(),
{
    if parts.len() == 0 {
        0
    } else {
        total(parts.drop_last(), c) + count(parts.last(), c)
    }
}

/// A separator without `c` adds no `c` to a joined text.
pub proof fn lemma_count_join(parts: Seq<Seq<char>>, sep: Seq<char>, c: char)
    requires
        count(sep, c) == 0,
    ensures
        count(join(parts, sep), c) == total(parts, c),
    decreases parts.len(),
{
    if parts.len() == 0 {
    } else if parts.len() == 1 {
        assert(parts.drop_last().len() == 0);
        assert(total(parts.drop_last(), c) == 0);
    } else {
        lemma_count_join(parts.drop_last(), sep, c);
        lemma_count_concat(join(parts.drop_last(), sep), sep, c);
        lemma_count_concat(join(parts.drop_last(), sep) + sep, parts.last(), c);
    }
}

/// Whether no name in the type holds a bracket.
pub open spec fn plain_type(t: TypeNode) -> bool
    decreases t,
{
    match t {
        TypeNode::Unit => true,
        TypeNode::Apply(chain) => plain_chain(*chain),
        TypeNode::Ref(_, inner) => plain_type(*inner),
        TypeNode::Fun(params, ret) => plain_types(params@, params@.len()) && plain_type(*ret),
        TypeNode::Multiple(types) => plain_types(types@, types@.len()),
        TypeNode::UnresolvedError => true,
    }
}

/// Whether no name in the first `n` types holds a bracket.
pub open spec fn plain_types(ts: Seq<TypeNode>, n: nat) -> bool
    decreases ts, n,
{
    if n == 0 || n > ts.len() {
        true
    } else {
        plain_types(ts, (n - 1) as nat) && plain_type(ts[n - 1])
    }
}

pub open spec fn plain_entry(e: PathEntry) -> bool
    decreases e,
{
    is_plain(e.name@) && match e.type_args {
        Some(args) => plain_types(args@, args@.len()),
        None => true,
    }
}

/// Whether no name in the first `n` segments holds a bracket.
pub open spec fn plain_entries(es: Seq<PathEntry>, n: nat) -> bool
    decreases es, n,
{
    if n == 0 || n > es.len() {
        true
    } else {
        plain_entries(es, (n - 1) as nat) && plain_entry(es[n - 1])
    }
}

pub open spec fn plain_leading(l: LeadingName) -> bool {
    match l {
        LeadingName::Name(n) => is_plain(n@),
        LeadingName::GlobalAddress(n) => is_plain(n@),
        LeadingName::AnonymousAddress(_) => true,
    }
}

pub open spec fn plain_chain(c: NameAccessChain) -> bool
    decreases c,
{
    match c {
        NameAccessChain::Single(entry) => plain_entry(entry),
        NameAccessChain::Path(root, entries) => plain_leading(root) && plain_entries(
            entries@,
            entries@.len(),
        ),
    }
}

/// The number of function types in a type.
pub open spec fn arrows(t: TypeNode) -> nat
    decreases t,
{
    match t {
        TypeNode::Unit => 0,
        TypeNode::Apply(chain) => arrows_chain(*chain),
        TypeNode::Ref(_, inner) => arrows(*inner),
        TypeNode::Fun(params, ret) => 1 + arrows_list(params@, params@.len()) + arrows(*ret),
        TypeNode::Multiple(types) => arrows_list(types@, types@.len()),
        TypeNode::UnresolvedError => 0,
    }
}

/// The number of function types in the first `n` types.
pub open spec fn arrows_list(ts: Seq<TypeNode>, n: nat) -> nat
    decreases ts, n,
{
    if n == 0 || n > ts.len() {
        0
    } else {
        arrows_list(ts, (n - 1) as nat) + arrows(ts[n - 1])
    }
}

pub open spec fn arrows_entry(e: PathEntry) -> nat
    decreases e,
{
    match e.type_args {
        Some(args) => arrows_list(args@, args@.len()),
        None => 0,
    }
}

/// The number of function types in the first `n` segments.
pub open spec fn arrows_entries(es: Seq<PathEntry>, n: nat) -> nat
    decreases es, n,
{
    if n == 0 || n > es.len() {
        0
    } else {
        arrows_entries(es, (n - 1) as nat) + arrows_entry(es[n - 1])
    }
}

pub open spec fn arrows_chain(c: NameAccessChain) -> nat
    decreases c,
{
    match c {
        NameAccessChain::Single(entry) => arrows_entry(entry),
        NameAccessChain::Path(_, entries) => arrows_entries(entries@, entries@.len()),
    }
}

/// The brackets in `()`.
proof fn lemma_literal_unit()
    ensures
        count("()"@, '(') == 1 && count("()"@, ')') == 1,
        count("()"@, '<') == 0 && count("()"@, '>') == 0,
{
    reveal_with_fuel(count, 3);
    reveal_strlit("()");
}

/// The brackets in `&mut `.
proof fn lemma_literal_ref_mut()
    ensures
        count("&mut "@, '(') == 0 && count("&mut "@, ')') == 0,
        count("&mut "@, '<') == 0 && count("&mut "@, '>') == 0,
{
    reveal_with_fuel(count, 6);
    reveal_strlit("&mut ");
}

/// The brackets in `&`.
proof fn lemma_literal_ref()
    ensures
        count("&"@, '(') == 0 && count("&"@, ')') == 0,
        count("&"@, '<') == 0 && count("&"@, '>') == 0,
{
    reveal_with_fuel(count, 2);
    reveal_strlit("&");
}

/// The brackets in `|`.
proof fn lemma_literal_bar()
    ensures
        count("|"@, '(') == 0 && count("|"@, ')') == 0,
        count("|"@, '<') == 0 && count("|"@, '>') == 0,
{
    reveal_with_fuel(count, 2);
    reveal_strlit("|");
}

/// The brackets in `| -> `.
proof fn lemma_literal_arrow()
    ensures
        count("| -> "@, '(') == 0 && count("| -> "@, ')') == 0,
        count("| -> "@, '<') == 0 && count("| -> "@, '>') == 1,
{
    reveal_with_fuel(count, 6);
    reveal_strlit("| -> ");
}

/// The brackets in `(`.
proof fn lemma_literal_open_round()
    ensures
        count("("@, '(') == 1 && count("("@, ')') == 0,
        count("("@, '<') == 0 && count("("@, '>') == 0,
{
    reveal_with_fuel(count, 2);
    reveal_strlit("(");
}

/// The brackets in `)`.
proof fn lemma_literal_close_round()
    ensures
        count(")"@, '(') == 0 && count(")"@, ')') == 1,
        count(")"@, '<') == 0 && count(")"@, '>') == 0,
{
    reveal_with_fuel(count, 2);
    reveal_strlit(")");
}

/// The brackets in `<`.
proof fn lemma_literal_open_angle()
    ensures
        count("<"@, '(') == 0 && count("<"@, ')') == 0,
        count("<"@, '<') == 1 && count("<"@, '>') == 0,
{
    reveal_with_fuel(count, 2);
    reveal_strlit("<");
}

/// The brackets in `>`.
proof fn lemma_literal_close_angle()
    ensures
        count(">"@, '(') == 0 && count(">"@, ')') == 0,
        count(">"@, '<') == 0 && count(">"@, '>') == 1,
{
    reveal_with_fuel(count, 2);
    reveal_strlit(">");
}

/// The brackets in `::`.
proof fn lemma_literal_colons()
    ensures
        count("::"@, '(') == 0 && count("::"@, ')') == 0,
        count("::"@, '<') == 0 && count("::"@, '>') == 0,
{
    reveal_with_fuel(count, 3);
    reveal_strlit("::");
}

/// The brackets in `@`.
proof fn lemma_literal_at()
    ensures
        count("@"@, '(') == 0 && count("@"@, ')') == 0,
        count("@"@, '<') == 0 && count("@"@, '>') == 0,
{
    reveal_with_fuel(count, 2);
    reveal_strlit("@");
}

/// The brackets in `0x`.
proof fn lemma_literal_hex_prefix()
    ensures
        count("0x"@, '(') == 0 && count("0x"@, ')') == 0,
        count("0x"@, '<') == 0 && count("0x"@, '>') == 0,
{
    reveal_with_fuel(count, 3);
    reveal_strlit("0x");
}

/// The brackets in `UnresolvedError`.
proof fn lemma_literal_unresolved()
    ensures
        count("UnresolvedError"@, '(') == 0 && count("UnresolvedError"@, ')') == 0,
        count("UnresolvedError"@, '<') == 0 && count("UnresolvedError"@, '>') == 0,
{
    reveal_with_fuel(count, 16);
    reveal_strlit("UnresolvedError");
}

/// The brackets in `, `.
proof fn lemma_literal_comma()
    ensures
        count(", "@, '(') == 0 && count(", "@, ')') == 0,
        count(", "@, '<') == 0 && count(", "@, '>') == 0,
{
    reveal_with_fuel(count, 3);
    reveal_strlit(", ");
}

/// The brackets in `public `.
proof fn lemma_literal_public()
    ensures
        count("public "@, '(') == 0 && count("public "@, ')') == 0,
        count("public "@, '<') == 0 && count("public "@, '>') == 0,
{
    reveal_with_fuel(count, 8);
    reveal_strlit("public ");
}

/// The brackets in `public(friend) `.
proof fn lemma_literal_friend()
    ensures
        count("public(friend) "@, '(') == 1 && count("public(friend) "@, ')') == 1,
        count("public(friend) "@, '<') == 0 && count("public(friend) "@, '>') == 0,
{
    reveal_with_fuel(count, 16);
    reveal_strlit("public(friend) ");
}

/// The brackets in `public(package) `.
proof fn lemma_literal_package()
    ensures
        count("public(package) "@, '(') == 1 && count("public(package) "@, ')') == 1,
        count("public(package) "@, '<') == 0 && count("public(package) "@, '>') == 0,
{
    reveal_with_fuel(count, 17);
    reveal_strlit("public(package) ");
}

/// The brackets in the empty text.
proof fn lemma_literal_nothing()
    ensures
        count(""@, '(') == 0 && count(""@, ')') == 0,
        count(""@, '<') == 0 && count(""@, '>') == 0,
{
    reveal_with_fuel(count, 1);
    reveal_strlit("");
}

/// The brackets in `entry `.
proof fn lemma_literal_entry()
    ensures
        count("entry "@, '(') == 0 && count("entry "@, ')') == 0,
        count("entry "@, '<') == 0 && count("entry "@, '>') == 0,
{
    reveal_with_fuel(count, 7);
    reveal_strlit("entry ");
}

/// The brackets in `native `.
proof fn lemma_literal_native()
    ensures
        count("native "@, '(') == 0 && count("native "@, ')') == 0,
        count("native "@, '<') == 0 && count("native "@, '>') == 0,
{
    reveal_with_fuel(count, 8);
    reveal_strlit("native ");
}

/// The brackets in `fun `.
proof fn lemma_literal_fun()
    ensures
        count("fun "@, '(') == 0 && count("fun "@, ')') == 0,
        count("fun "@, '<') == 0 && count("fun "@, '>') == 0,
{
    reveal_with_fuel(count, 5);
    reveal_strlit("fun ");
}

/// The brackets in `: `.
proof fn lemma_literal_colon()
    ensures
        count(": "@, '(') == 0 && count(": "@, ')') == 0,
        count(": "@, '<') == 0 && count(": "@, '>') == 0,
{
    reveal_with_fuel(count, 3);
    reveal_strlit(": ");
}

/// The brackets in ` + `.
proof fn lemma_literal_plus()
    ensures
        count(" + "@, '(') == 0 && count(" + "@, ')') == 0,
        count(" + "@, '<') == 0 && count(" + "@, '>') == 0,
{
    reveal_with_fuel(count, 4);
    reveal_strlit(" + ");
}

/// The brackets in `copy`.
proof fn lemma_literal_copy()
    ensures
        count("copy"@, '(') == 0 && count("copy"@, ')') == 0,
        count("copy"@, '<') == 0 && count("copy"@, '>') == 0,
{
    reveal_with_fuel(count, 5);
    reveal_strlit("copy");
}

/// The brackets in `drop`.
proof fn lemma_literal_drop()
    ensures
        count("drop"@, '(') == 0 && count("drop"@, ')') == 0,
        count("drop"@, '<') == 0 && count("drop"@, '>') == 0,
{
    reveal_with_fuel(count, 5);
    reveal_strlit("drop");
}

/// The brackets in `store`.
proof fn lemma_literal_store()
    ensures
        count("store"@, '(') == 0 && count("store"@, ')') == 0,
        count("store"@, '<') == 0 && count("store"@, '>') == 0,
{
    reveal_with_fuel(count, 6);
    reveal_strlit("store");
}

/// The brackets in `key`.
proof fn lemma_literal_key()
    ensures
        count("key"@, '(') == 0 && count("key"@, ')') == 0,
        count("key"@, '<') == 0 && count("key"@, '>') == 0,
{
    reveal_with_fuel(count, 4);
    reveal_strlit("key");
}

/// The brackets in the fixed pieces of a rendered type.
pub proof fn lemma_type_literals()
    ensures
        round_excess("()"@) == 0 && angle_excess("()"@) == 0,
        round_excess("&mut "@) == 0 && angle_excess("&mut "@) == 0,
        round_excess("&"@) == 0 && angle_excess("&"@) == 0,
        round_excess("|"@) == 0 && angle_excess("|"@) == 0,
        round_excess("| -> "@) == 0 && angle_excess("| -> "@) == -1,
        round_excess("("@) == 1 && angle_excess("("@) == 0,
        round_excess(")"@) == -1 && angle_excess(")"@) == 0,
        round_excess("<"@) == 0 && angle_excess("<"@) == 1,
        round_excess(">"@) == 0 && angle_excess(">"@) == -1,
        round_excess("::"@) == 0 && angle_excess("::"@) == 0,
        round_excess("@"@) == 0 && angle_excess("@"@) == 0,
        round_excess("0x"@) == 0 && angle_excess("0x"@) == 0,
        round_excess("UnresolvedError"@) == 0 && angle_excess("UnresolvedError"@) == 0,
        count(", "@, '(') == 0 && count(", "@, ')') == 0,
        count(", "@, '<') == 0 && count(", "@, '>') == 0,
{
    lemma_literal_unit();
    lemma_literal_ref_mut();
    lemma_literal_ref();
    lemma_literal_bar();
    lemma_literal_arrow();
    lemma_literal_open_round();
    lemma_literal_close_round();
    lemma_literal_open_angle();
    lemma_literal_close_angle();
    lemma_literal_colons();
    lemma_literal_at();
    lemma_literal_hex_prefix();
    lemma_literal_unresolved();
    lemma_literal_comma();
}

/// Round brackets balance in the text of a type, and there is one more
/// closing than opening angle bracket for each function type in it.
pub proof fn lemma_type_excess(t: TypeNode)
    requires
        plain_type(t),
    ensures
        round_excess(render_type(t)) == 0,
        angle_excess(render_type(t)) == -arrows(t),
    decreases t,
{
    lemma_type_literals();
    match t {
        TypeNode::Unit => {},
        TypeNode::Apply(chain) => {
            lemma_chain_excess(*chain);
        },
        TypeNode::Ref(is_mut, inner) => {
            lemma_type_excess(*inner);
            lemma_excess_concat(if is_mut { "&mut "@ } else { "&"@ }, render_type(*inner));
        },
        TypeNode::Fun(params, ret) => {
            lemma_list_excess(params@);
            lemma_type_excess(*ret);
            lemma_excess_concat("|"@, render_type_list(params@));
            lemma_excess_concat("|"@ + render_type_list(params@), "| -> "@);
            lemma_excess_concat(
                "|"@ + render_type_list(params@) + "| -> "@,
                render_type(*ret),
            );
        },
        TypeNode::Multiple(types) => {
            lemma_list_excess(types@);
            lemma_excess_concat("("@, render_type_list(types@));
            lemma_excess_concat("("@ + render_type_list(types@), ")"@);
        },
        TypeNode::UnresolvedError => {},
    }
}

/// The brackets in the first `n` of the rendered types.
pub proof fn lemma_types_excess(ts: Seq<TypeNode>, n: nat)
    requires
        plain_types(ts, n),
        n <= ts.len(),
    ensures
        total(rendered_types(ts).take(n as int), '(') == total(rendered_types(ts).take(n as int), ')'),
        total(rendered_types(ts).take(n as int), '<') + arrows_list(ts, n) == total(
            rendered_types(ts).take(n as int),
            '>',
        ),
    decreases ts, n,
{
    let parts = rendered_types(ts).take(n as int);
    if n > 0 {
        lemma_types_excess(ts, (n - 1) as nat);
        lemma_type_excess(ts[n - 1]);
        assert(parts.drop_last() == rendered_types(ts).take(n - 1));
        assert(parts.last() == render_type(ts[n - 1]));
    }
}

/// The brackets in a rendered list of types.
pub proof fn lemma_list_excess(ts: Seq<TypeNode>)
    requires
        plain_types(ts, ts.len()),
    ensures
        round_excess(render_type_list(ts)) == 0,
        angle_excess(render_type_list(ts)) == -arrows_list(ts, ts.len()),
    decreases ts, ts.len() + 1,
{
    lemma_type_literals();
    lemma_types_excess(ts, ts.len());
    assert(rendered_types(ts).take(ts.len() as int) == rendered_types(ts));
    lemma_count_join(rendered_types(ts), ", "@, '(');
    lemma_count_join(rendered_types(ts), ", "@, ')');
    lemma_count_join(rendered_types(ts), ", "@, '<');
    lemma_count_join(rendered_types(ts), ", "@, '>');
}

/// The brackets in a rendered segment.
pub proof fn lemma_entry_excess(e: PathEntry)
    requires
        plain_entry(e),
    ensures
        round_excess(render_entry(e)) == 0,
        angle_excess(render_entry(e)) == -arrows_entry(e),
    decreases e,
{
    lemma_type_literals();
    lemma_plain_excess(e.name@);
    match e.type_args {
        Some(args) => {
            lemma_list_excess(args@);
            lemma_excess_concat(e.name@, "<"@);
            lemma_excess_concat(e.name@ + "<"@, render_type_list(args@));
            lemma_excess_concat(e.name@ + "<"@ + render_type_list(args@), ">"@);
        },
        None => {},
    }
}

/// The brackets in the first `n` rendered segments.
pub proof fn lemma_entries_excess(es: Seq<PathEntry>, n: nat)
    requires
        plain_entries(es, n),
        n <= es.len(),
    ensures
        round_excess(render_entries(es, n)) == 0,
        angle_excess(render_entries(es, n)) == -arrows_entries(es, n),
    decreases es, n,
{
    lemma_type_literals();
    if n > 0 {
        lemma_entries_excess(es, (n - 1) as nat);
        lemma_entry_excess(es[n - 1]);
        lemma_excess_concat(render_entries(es, (n - 1) as nat), "::"@);
        lemma_excess_concat(render_entries(es, (n - 1) as nat) + "::"@, render_entry(es[n - 1]));
    } else {
        assert(render_entries(es, n) == Seq::<char>::empty());
    }
}

/// The brackets in a rendered name.
pub proof fn lemma_chain_excess(c: NameAccessChain)
    requires
        plain_chain(c),
    ensures
        round_excess(render_chain(c)) == 0,
        angle_excess(render_chain(c)) == -arrows_chain(c),
    decreases c,
{
    lemma_type_literals();
    match c {
        NameAccessChain::Single(entry) => {
            lemma_entry_excess(entry);
        },
        NameAccessChain::Path(root, entries) => {
            lemma_leading_excess(root);
            lemma_entries_excess(entries@, entries@.len());
            lemma_excess_concat(render_leading(root), render_entries(entries@, entries@.len()));
        },
    }
}

/// The first segment of a plain name has no bracket excess.
pub proof fn lemma_leading_excess(root: LeadingName)
    requires
        plain_leading(root),
    ensures
        round_excess(render_leading(root)) == 0,
        angle_excess(render_leading(root)) == 0,
{
    lemma_type_literals();
    match root {
        LeadingName::Name(n) => {
            lemma_plain_excess(n@);
        },
        LeadingName::GlobalAddress(n) => {
            lemma_plain_excess(n@);
            lemma_excess_concat("@"@, n@);
        },
        LeadingName::AnonymousAddress(bytes) => {
            lemma_hex_plain(bytes@);
            lemma_plain_excess(hex_text(bytes@));
            lemma_excess_concat("0x"@, hex_text(bytes@));
        },
    }
}

/// In the text of a type whose names hold no bracket, round brackets
/// balance.
pub proof fn law_type_round_brackets_balance(t: TypeNode)
    requires
        plain_type(t),
    ensures
        count(render_type(t), '(') == count(render_type(t), ')'),
{
    lemma_type_excess(t);
}

/// In the text of a type without function types whose names hold no
/// bracket, angle brackets balance. A function type adds the `>` of its
/// arrow.
pub proof fn law_type_angle_brackets_balance(t: TypeNode)
    requires
        plain_type(t),
        arrows(t) == 0,
    ensures
        count(render_type(t), '<') == count(render_type(t), '>'),
{
    lemma_type_excess(t);
}

/// Whether no name of the function, of its parameters or in its types
/// holds a bracket.
pub open spec fn plain_function(f: Function) -> bool {
    &&& is_plain(f.name@)
    &&& forall|i: int|
        0 <= i < f.type_parameters@.len() ==> is_plain((#[trigger] f.type_parameters@[i]).name@)
    &&& forall|i: int|
        0 <= i < f.parameters@.len() ==> is_plain((#[trigger] f.parameters@[i]).name@)
            && plain_type(f.parameters@[i].type_)
    &&& plain_type(f.return_type)
}

/// The number of function types in the types of the first `n` parameters.
pub open spec fn arrows_parameters(ps: Seq<FunctionParameter>, n: nat) -> nat
    decreases n,
{
    if n == 0 || n > ps.len() {
        0
    } else {
        arrows_parameters(ps, (n - 1) as nat) + arrows(ps[n - 1].type_)
    }
}

/// The number of function types in the signature of a function.
pub open spec fn arrows_function(f: Function) -> nat {
    arrows_parameters(f.parameters@, f.parameters@.len()) + arrows(f.return_type)
}

/// The brackets in the fixed pieces of a signature.
pub proof fn lemma_signature_literals()
    ensures
        round_excess("public "@) == 0 && angle_excess("public "@) == 0,
        round_excess("public(friend) "@) == 0 && angle_excess("public(friend) "@) == 0,
        round_excess("public(package) "@) == 0 && angle_excess("public(package) "@) == 0,
        round_excess(""@) == 0 && angle_excess(""@) == 0,
        round_excess("entry "@) == 0 && angle_excess("entry "@) == 0,
        round_excess("native "@) == 0 && angle_excess("native "@) == 0,
        round_excess("fun "@) == 0 && angle_excess("fun "@) == 0,
        round_excess(": "@) == 0 && angle_excess(": "@) == 0,
        count(": "@, '(') == 0 && count(": "@, ')') == 0,
        count(": "@, '<') == 0 && count(": "@, '>') == 0,
        count(" + "@, '(') == 0 && count(" + "@, ')') == 0,
        count(" + "@, '<') == 0 && count(" + "@, '>') == 0,
        forall|a: Ability|
            count(#[trigger] ability_name(a), '(') == 0 && count(ability_name(a), ')') == 0 && count(
                ability_name(a),
                '<',
            ) == 0 && count(ability_name(a), '>') == 0,
{
    lemma_literal_public();
    lemma_literal_friend();
    lemma_literal_package();
    lemma_literal_nothing();
    lemma_literal_entry();
    lemma_literal_native();
    lemma_literal_fun();
    lemma_literal_colon();
    lemma_literal_plus();
    lemma_literal_copy();
    lemma_literal_drop();
    lemma_literal_store();
    lemma_literal_key();
    assert forall|a: Ability|
        count(#[trigger] ability_name(a), '(') == 0 && count(ability_name(a), ')') == 0 && count(
            ability_name(a),
            '<',
        ) == 0 && count(ability_name(a), '>') == 0 by {
        match a {
            Ability::Copy => {},
            Ability::Drop => {},
            Ability::Store => {},
            Ability::Key => {},
        }
    }
}

/// No brackets in the names of the first `n` abilities.
pub proof fn lemma_abilities_total(abilities: Seq<Ability>, n: nat, c: char)
    requires
        n <= abilities.len(),
        is_bracket(c),
    ensures
        total(ability_names(abilities).take(n as int), c) == 0,
    decreases n,
{
    lemma_signature_literals();
    let parts = ability_names(abilities).take(n as int);
    if n > 0 {
        lemma_abilities_total(abilities, (n - 1) as nat, c);
        assert(parts.drop_last() == ability_names(abilities).take(n - 1));
        assert(parts.last() == ability_name(abilities[n - 1]));
    }
}

/// No brackets in the text of a type parameter with a plain name.
pub proof fn lemma_type_parameter_counts(tp: TypeParameter, c: char)
    requires
        is_plain(tp.name@),
        is_bracket(c),
    ensures
        count(render_type_parameter(tp), c) == 0,
{
    lemma_signature_literals();
    lemma_plain_counts(tp.name@, c);
    if tp.abilities@.len() > 0 {
        let names = ability_names(tp.abilities@);
        lemma_abilities_total(tp.abilities@, tp.abilities@.len(), c);
        assert(names.take(tp.abilities@.len() as int) == names);
        lemma_count_join(names, " + "@, c);
        lemma_count_concat(tp.name@, ": "@, c);
        lemma_count_concat(tp.name@ + ": "@, join(names, " + "@), c);
    }
}

/// The texts of the type parameters, in order.
pub open spec fn type_parameter_texts(tps: Seq<TypeParameter>) -> Seq<Seq<char>> {
    Seq::new(tps.len(), |i: int| render_type_parameter(tps[i]))
}

/// No brackets in the texts of the first `n` type parameters.
pub proof fn lemma_type_parameters_total(tps: Seq<TypeParameter>, n: nat, c: char)
    requires
        n <= tps.len(),
        is_bracket(c),
        forall|i: int| 0 <= i < tps.len() ==> is_plain((#[trigger] tps[i]).name@),
    ensures
        total(type_parameter_texts(tps).take(n as int), c) == 0,
    decreases n,
{
    let parts = type_parameter_texts(tps).take(n as int);
    if n > 0 {
        lemma_type_parameters_total(tps, (n - 1) as nat, c);
        lemma_type_parameter_counts(tps[n - 1], c);
        assert(parts.drop_last() == type_parameter_texts(tps).take(n - 1));
        assert(parts.last() == render_type_parameter(tps[n - 1]));
    }
}

/// The generic clause opens and closes its one pair of angle brackets.
pub proof fn lemma_generics_excess(tps: Seq<TypeParameter>)
    requires
        forall|i: int| 0 <= i < tps.len() ==> is_plain((#[trigger] tps[i]).name@),
    ensures
        round_excess(render_type_parameters(tps)) == 0,
        angle_excess(render_type_parameters(tps)) == 0,
{
    lemma_type_literals();
    lemma_signature_literals();
    if tps.len() > 0 {
        let parts = type_parameter_texts(tps);
        assert(parts.take(tps.len() as int) == parts);
        lemma_type_parameters_total(tps, tps.len(), '(');
        lemma_type_parameters_total(tps, tps.len(), ')');
        lemma_type_parameters_total(tps, tps.len(), '<');
        lemma_type_parameters_total(tps, tps.len(), '>');
        lemma_count_join(parts, ", "@, '(');
        lemma_count_join(parts, ", "@, ')');
        lemma_count_join(parts, ", "@, '<');
        lemma_count_join(parts, ", "@, '>');
        lemma_excess_concat("<"@, join(parts, ", "@));
        lemma_excess_concat("<"@ + join(parts, ", "@), ">"@);
    }
}

/// The texts of the parameters, in order.
pub open spec fn parameter_list_texts(ps: Seq<FunctionParameter>) -> Seq<Seq<char>> {
    Seq::new(ps.len(), |i: int| render_parameter(ps[i]))
}

/// The brackets in the texts of the first `n` parameters.
pub proof fn lemma_parameters_total(ps: Seq<FunctionParameter>, n: nat)
    requires
        n <= ps.len(),
        forall|i: int|
            0 <= i < ps.len() ==> is_plain((#[trigger] ps[i]).name@) && plain_type(ps[i].type_),
    ensures
        total(parameter_list_texts(ps).take(n as int), '(') == total(
            parameter_list_texts(ps).take(n as int),
            ')',
        ),
        total(parameter_list_texts(ps).take(n as int), '<') + arrows_parameters(ps, n) == total(
            parameter_list_texts(ps).take(n as int),
            '>',
        ),
    decreases n,
{
    lemma_signature_literals();
    let parts = parameter_list_texts(ps).take(n as int);
    if n > 0 {
        lemma_parameters_total(ps, (n - 1) as nat);
        let q = ps[n - 1];
        lemma_type_excess(q.type_);
        lemma_plain_excess(q.name@);
        lemma_excess_concat(q.name@, ": "@);
        lemma_excess_concat(q.name@ + ": "@, render_type(q.type_));
        assert(parts.drop_last() == parameter_list_texts(ps).take(n - 1));
        assert(parts.last() == render_parameter(q));
    }
}

/// The brackets in the parameter list.
pub proof fn lemma_parameters_excess(ps: Seq<FunctionParameter>)
    requires
        forall|i: int|
            0 <= i < ps.len() ==> is_plain((#[trigger] ps[i]).name@) && plain_type(ps[i].type_),
    ensures
        round_excess(render_parameters(ps)) == 0,
        angle_excess(render_parameters(ps)) == -arrows_parameters(ps, ps.len()),
{
    lemma_type_literals();
    let parts = parameter_list_texts(ps);
    assert(parts.take(ps.len() as int) == parts);
    lemma_parameters_total(ps, ps.len());
    lemma_count_join(parts, ", "@, '(');
    lemma_count_join(parts, ", "@, ')');
    lemma_count_join(parts, ", "@, '<');
    lemma_count_join(parts, ", "@, '>');
    lemma_excess_concat("("@, join(parts, ", "@));
    lemma_excess_concat("("@ + join(parts, ", "@), ")"@);
}

/// The modifiers in front of `fun` have no bracket excess.
pub proof fn lemma_modifiers_excess(f: Function)
    ensures
        round_excess(modifiers_text(f)) == 0,
        angle_excess(modifiers_text(f)) == 0,
{
    lemma_signature_literals();
    let a = visibility_token(f.visibility);
    let b = if f.entry {
        "entry "@
    } else {
        ""@
    };
    let c = if f.body is Native {
        "native "@
    } else {
        ""@
    };
    lemma_excess_concat(a, b);
    lemma_excess_concat(a + b, c);
}

/// Round brackets balance in a signature, and there is one more closing
/// than opening angle bracket for each function type in it.
pub proof fn lemma_signature_excess(f: Function)
    requires
        plain_function(f),
    ensures
        round_excess(signature_text(f)) == 0,
        angle_excess(signature_text(f)) == -arrows_function(f),
{
    lemma_signature_literals();
    lemma_modifiers_excess(f);
    lemma_plain_excess(f.name@);
    lemma_generics_excess(f.type_parameters@);
    lemma_parameters_excess(f.parameters@);
    lemma_type_excess(f.return_type);
    let s1 = modifiers_text(f) + "fun "@;
    let s2 = s1 + f.name@;
    let s3 = s2 + render_type_parameters(f.type_parameters@);
    let s4 = s3 + render_parameters(f.parameters@);
    let s5 = s4 + ": "@;
    lemma_excess_concat(modifiers_text(f), "fun "@);
    lemma_excess_concat(s1, f.name@);
    lemma_excess_concat(s2, render_type_parameters(f.type_parameters@));
    lemma_excess_concat(s3, render_parameters(f.parameters@));
    lemma_excess_concat(s4, ": "@);
    lemma_excess_concat(s5, render_type(f.return_type));
}

/// In the signature of a function whose names hold no bracket, round
/// brackets balance.
pub proof fn law_signature_round_brackets_balance(f: Function)
    requires
        plain_function(f),
    ensures
        count(signature_text(f), '(') == count(signature_text(f), ')'),
{
    lemma_signature_excess(f);
}

/// In the signature of a function without function types whose names hold
/// no bracket, angle brackets balance.
pub proof fn law_signature_angle_brackets_balance(f: Function)
    requires
        plain_function(f),
        arrows_function(f) == 0,
    ensures
        count(signature_text(f), '<') == count(signature_text(f), '>'),
{
    lemma_signature_excess(f);
}

} // verus!
