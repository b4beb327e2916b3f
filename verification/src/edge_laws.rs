//! What holds of every list of call edges: no callee twice, no call site
//! lost, no callee made up.

use vstd::prelude::*;
use crate::ast::{Exp, FieldInit, FunctionBody, MatchArm, Project, Sequence, SequenceItem};
use crate::calls::{
    absorb, add_edge, dedup, edges, edges_arm, edges_arms, edges_body, edges_fields, edges_guard,
    edges_item, edges_items, edges_list, edges_opt, edges_sequence, found, has_edge, same_edge,
};
use crate::index::{
    file_at, function_at, in_project, lemma_function_index_from, lemma_module_place_from,
    member_at, module_at, module_place_by_name, owning_module_place, ModuleInfoText, ModuleQuery,
    Position,
};
use crate::resolve::{
    edge_to, external_edge, method_in_file_from, method_in_files_from, method_in_module,
    method_index_from, receiver_type, resolve_direct, resolve_in_module, resolve_qualified,
};
use crate::ast::{ModuleDefinition, SourceFile};
use crate::types::{LeadingName, NameAccessChain};
use crate::resolve::{is_builtin_name, resolve_call, resolve_method};
use crate::types::PathEntry;
use crate::records::CallText;

verus! {

/// Whether no two entries of the list are the same edge.
pub open spec fn distinct_edges(s: Seq<CallText>) -> bool {
    forall|i: int, j: int| 0 <= i < j < s.len() ==> !same_edge(#[trigger] s[i], #[trigger] s[j])
}

/// Adding edges to a list without repetitions gives one without
/// repetitions.
pub proof fn lemma_absorb_distinct(acc: Seq<CallText>, new: Seq<CallText>)
    requires
        distinct_edges(acc),
    ensures
        distinct_edges(absorb(acc, new)),
    decreases new.len(),
{
    if new.len() > 0 {
        lemma_absorb_distinct(acc, new.drop_last());
        let before = absorb(acc, new.drop_last());
        let c = new.last();
        if !has_edge(before, c) {
            let after = before.push(c);
            assert forall|i: int, j: int| 0 <= i < j < after.len() implies !same_edge(
                #[trigger] after[i],
                #[trigger] after[j],
            ) by {
                if j == before.len() {
                    assert(after[i] == before[i]);
                    if same_edge(after[i], after[j]) {
                        assert(same_edge(before[i], c));
                    }
                }
            }
        }
    }
}

/// After edges were added, the list holds each of them.
pub proof fn lemma_absorb_covers(acc: Seq<CallText>, new: Seq<CallText>, k: int)
    requires
        0 <= k < new.len(),
    ensures
        has_edge(absorb(acc, new), new[k]),
    decreases new.len(),
{
    let before = absorb(acc, new.drop_last());
    let after = absorb(acc, new);
    if k == new.len() - 1 {
        if !has_edge(before, new.last()) {
            assert(same_edge(after[before.len() as int], new[k]));
        }
    } else {
        lemma_absorb_covers(acc, new.drop_last(), k);
        let i = choose|i: int| 0 <= i < before.len() && same_edge(#[trigger] before[i], new[k]);
        assert(new.drop_last()[k] == new[k]);
        assert(after[i] == before[i]);
        assert(same_edge(after[i], new[k]));
    }
}

/// Every entry of the list after edges were added was in the list before
/// or is one of the added edges.
pub proof fn lemma_absorb_sound(acc: Seq<CallText>, new: Seq<CallText>, i: int)
    requires
        0 <= i < absorb(acc, new).len(),
    ensures
        (i < acc.len() && absorb(acc, new)[i] == acc[i]) || new.contains(absorb(acc, new)[i]),
    decreases new.len(),
{
    if new.len() > 0 {
        let before = absorb(acc, new.drop_last());
        if i < before.len() {
            lemma_absorb_sound(acc, new.drop_last(), i);
            if new.drop_last().contains(before[i]) {
                let k = choose|k: int| 0 <= k < new.drop_last().len() && new.drop_last()[k] == before[i];
                assert(new[k] == before[i]);
            }
        } else {
            assert(absorb(acc, new)[i] == new[new.len() - 1]);
        }
    }
}

/// A list of edges holds no callee twice.
pub proof fn law_dedup_distinct(s: Seq<CallText>)
    ensures
        distinct_edges(dedup(s)),
{
    lemma_absorb_distinct(Seq::<CallText>::empty(), s);
}

/// A list of edges holds the callee of every call, however often it is
/// called.
pub proof fn law_dedup_covers(s: Seq<CallText>, k: int)
    requires
        0 <= k < s.len(),
    ensures
        has_edge(dedup(s), s[k]),
{
    lemma_absorb_covers(Seq::<CallText>::empty(), s, k);
}

/// Every entry of a list of edges is the edge of one of the calls.
pub proof fn law_dedup_sound(s: Seq<CallText>, i: int)
    requires
        0 <= i < dedup(s).len(),
    ensures
        s.contains(dedup(s)[i]),
{
    lemma_absorb_sound(Seq::<CallText>::empty(), s, i);
}

/// Calls of one callee, however many, leave one entry.
pub proof fn law_repeated_call_one_edge(s: Seq<CallText>, c: CallText)
    requires
        s.len() > 0,
        forall|k: int| 0 <= k < s.len() ==> s[k] == c,
    ensures
        dedup(s) == seq![c],
    decreases s.len(),
{
    let none = Seq::<CallText>::empty();
    if s.len() == 1 {
        assert(s.drop_last() == none);
        assert(absorb(none, s.drop_last()) == none);
        assert(!has_edge(none, c));
        assert(s.last() == c);
        assert(none.push(c) == seq![c]);
        assert(absorb(none, s) == add_edge(none, c));
    } else {
        law_repeated_call_one_edge(s.drop_last(), c);
        assert(absorb(none, s.drop_last()) == seq![c]);
        assert(s.last() == c);
        assert(same_edge(seq![c][0], c));
        assert(has_edge(seq![c], c));
        assert(absorb(none, s) == add_edge(seq![c], c));
    }
}

/// The expression of a statement, if it has one.
pub open spec fn item_exp(item: SequenceItem) -> Option<Exp> {
    match item {
        SequenceItem::Statement(e) => Some(e),
        SequenceItem::Declare(_, _) => None,
        SequenceItem::Bind(_, _, e) => Some(e),
    }
}

/// Whether `c` is the expression of a statement of the block, or its
/// final expression.
pub open spec fn in_sequence(s: Sequence, c: Exp) -> bool {
    (exists|i: int| 0 <= i < s.items@.len() && item_exp(#[trigger] s.items@[i]) == Some(c)) || (
    s.tail matches Some(t) && *t == c)
}

/// Whether `c` is the expression that may be absent.
pub open spec fn is_some_exp(o: Option<Box<Exp>>, c: Exp) -> bool {
    o matches Some(b) && *b == c
}

/// Whether `c` is the guard or the body of one of the arms.
pub open spec fn in_arms(arms: Seq<MatchArm>, c: Exp) -> bool {
    exists|i: int|
        0 <= i < arms.len() && ((#[trigger] arms[i]).guard == Some(c) || arms[i].body == c)
}

/// Whether `c` is the value of one of the field initialisers.
pub open spec fn in_fields(fields: Seq<FieldInit>, c: Exp) -> bool {
    exists|i: int| 0 <= i < fields.len() && (#[trigger] fields[i]).value == c
}

/// Whether `c` stands directly inside `e`: as a condition, a branch, a
/// body, an operand, an argument, a receiver, an element, the value of a
/// field or a statement of a block.
pub open spec fn is_child(e: Exp, c: Exp) -> bool {
    match e {
        Exp::Value => false,
        Exp::Move(_) => false,
        Exp::Copy(_) => false,
        Exp::Name(_) => false,
        Exp::Call(_, args) => args@.contains(c),
        Exp::Pack(_, fields) => in_fields(fields@, c),
        Exp::Vector(items) => items@.contains(c),
        Exp::IfElse(cond, then_, else_) => *cond == c || *then_ == c || is_some_exp(else_, c),
        Exp::Match(subject, arms) => *subject == c || in_arms(arms@, c),
        Exp::While(cond, body) => *cond == c || *body == c,
        Exp::Loop(body) => *body == c,
        Exp::Labeled(_, body) => *body == c,
        Exp::Block(sequence) => in_sequence(sequence, c),
        Exp::Lambda(_, body) => *body == c,
        Exp::Quant(ranges, cond, body) => ranges@.contains(c) || is_some_exp(cond, c) || *body == c,
        Exp::ExpList(items) => items@.contains(c),
        Exp::Unit => false,
        Exp::Parens(inner) => *inner == c,
        Exp::Assign(target, value) => *target == c || *value == c,
        Exp::Abort(code) => is_some_exp(code, c),
        Exp::Return(value) => is_some_exp(value, c),
        Exp::Break(value) => is_some_exp(value, c),
        Exp::Continue => false,
        Exp::Dereference(inner) => *inner == c,
        Exp::UnaryExp(inner) => *inner == c,
        Exp::BinopExp(left, right) => *left == c || *right == c,
        Exp::Borrow(_, inner) => *inner == c,
        Exp::Dot(inner, _) => *inner == c,
        Exp::DotCall(receiver, _, args) => *receiver == c || args@.contains(c),
        Exp::Index(inner, args) => *inner == c || args@.contains(c),
        Exp::Cast(inner, _) => *inner == c,
        Exp::Annotate(inner, _) => *inner == c,
        Exp::Spec => false,
        Exp::UnresolvedError => false,
    }
}

/// Whether `d` stands inside `e`, `depth` steps down.
pub open spec fn is_nested(e: Exp, d: Exp, depth: nat) -> bool
    decreases depth,
{
    if depth == 0 {
        e == d
    } else {
        exists|c: Exp| #[trigger] is_child(e, c) && is_nested(c, d, (depth - 1) as nat)
    }
}

/// What the first part of a concatenation holds, the whole holds.
pub proof fn lemma_in_left(a: Seq<CallText>, b: Seq<CallText>, x: CallText)
    requires
        a.contains(x),
    ensures
        (a + b).contains(x),
{
    let i = choose|i: int| 0 <= i < a.len() && a[i] == x;
    assert((a + b)[i] == x);
}

/// What the second part of a concatenation holds, the whole holds.
pub proof fn lemma_in_right(a: Seq<CallText>, b: Seq<CallText>, x: CallText)
    requires
        b.contains(x),
    ensures
        (a + b).contains(x),
{
    let i = choose|i: int| 0 <= i < b.len() && b[i] == x;
    assert((a + b)[a.len() + i] == x);
}

/// The edges of a list hold the edges of each of its expressions.
pub proof fn lemma_list_surfaces(
    p: Project,
    owner: ModuleInfoText,
    es: Seq<Exp>,
    n: nat,
    i: int,
    x: CallText,
)
    requires
        0 <= i < n <= es.len(),
        edges(p, owner, es[i]).contains(x),
    ensures
        edges_list(p, owner, es, n).contains(x),
    decreases n,
{
    let before = edges_list(p, owner, es, (n - 1) as nat);
    let here = edges(p, owner, es[n - 1]);
    if i == n - 1 {
        lemma_in_right(before, here, x);
    } else {
        lemma_list_surfaces(p, owner, es, (n - 1) as nat, i, x);
        lemma_in_left(before, here, x);
    }
}

/// The edges of field initialisers hold the edges of each value.
pub proof fn lemma_fields_surface(
    p: Project,
    owner: ModuleInfoText,
    fs: Seq<FieldInit>,
    n: nat,
    i: int,
    x: CallText,
)
    requires
        0 <= i < n <= fs.len(),
        edges(p, owner, fs[i].value).contains(x),
    ensures
        edges_fields(p, owner, fs, n).contains(x),
    decreases n,
{
    let before = edges_fields(p, owner, fs, (n - 1) as nat);
    let here = edges(p, owner, fs[n - 1].value);
    if i == n - 1 {
        lemma_in_right(before, here, x);
    } else {
        lemma_fields_surface(p, owner, fs, (n - 1) as nat, i, x);
        lemma_in_left(before, here, x);
    }
}

/// The edges of match arms hold the edges of each arm.
pub proof fn lemma_arms_surface(
    p: Project,
    owner: ModuleInfoText,
    arms: Seq<MatchArm>,
    n: nat,
    i: int,
    x: CallText,
)
    requires
        0 <= i < n <= arms.len(),
        edges_arm(p, owner, arms[i]).contains(x),
    ensures
        edges_arms(p, owner, arms, n).contains(x),
    decreases n,
{
    let before = edges_arms(p, owner, arms, (n - 1) as nat);
    let here = edges_arm(p, owner, arms[n - 1]);
    if i == n - 1 {
        lemma_in_right(before, here, x);
    } else {
        lemma_arms_surface(p, owner, arms, (n - 1) as nat, i, x);
        lemma_in_left(before, here, x);
    }
}

/// The edges of statements hold the edges of each statement.
pub proof fn lemma_items_surface(
    p: Project,
    owner: ModuleInfoText,
    items: Seq<SequenceItem>,
    n: nat,
    i: int,
    x: CallText,
)
    requires
        0 <= i < n <= items.len(),
        edges_item(p, owner, items[i]).contains(x),
    ensures
        edges_items(p, owner, items, n).contains(x),
    decreases n,
{
    let before = edges_items(p, owner, items, (n - 1) as nat);
    let here = edges_item(p, owner, items[n - 1]);
    if i == n - 1 {
        lemma_in_right(before, here, x);
    } else {
        lemma_items_surface(p, owner, items, (n - 1) as nat, i, x);
        lemma_in_left(before, here, x);
    }
}

/// The edges of a block hold the edges of each of its statements and of
/// its final expression.
pub proof fn lemma_sequence_surfaces(
    p: Project,
    owner: ModuleInfoText,
    s: Sequence,
    c: Exp,
    x: CallText,
)
    requires
        in_sequence(s, c),
        edges(p, owner, c).contains(x),
    ensures
        edges_sequence(p, owner, s).contains(x),
{
    let in_items = edges_items(p, owner, s.items@, s.items@.len());
    let in_tail = edges_opt(p, owner, s.tail);
    if exists|i: int| 0 <= i < s.items@.len() && item_exp(#[trigger] s.items@[i]) == Some(c) {
        let i = choose|i: int| 0 <= i < s.items@.len() && item_exp(#[trigger] s.items@[i]) == Some(c);
        lemma_items_surface(p, owner, s.items@, s.items@.len(), i, x);
        lemma_in_left(in_items, in_tail, x);
    } else {
        lemma_in_right(in_items, in_tail, x);
    }
}

/// Where an argument list holds `c`, its edges hold the edges of `c`.
pub proof fn lemma_contained_surfaces(
    p: Project,
    owner: ModuleInfoText,
    es: Seq<Exp>,
    c: Exp,
    x: CallText,
)
    requires
        es.contains(c),
        edges(p, owner, c).contains(x),
    ensures
        edges_list(p, owner, es, es.len()).contains(x),
{
    let i = choose|i: int| 0 <= i < es.len() && es[i] == c;
    lemma_list_surfaces(p, owner, es, es.len(), i, x);
}

/// No construct hides a call: the edges of an expression hold the edges
/// of every expression that stands directly inside it.
pub proof fn law_child_edges_surface(p: Project, owner: ModuleInfoText, e: Exp, c: Exp, x: CallText)
    requires
        is_child(e, c),
        edges(p, owner, c).contains(x),
    ensures
        edges(p, owner, e).contains(x),
{
    match e {
        Exp::Call(chain, args) => {
            lemma_contained_surfaces(p, owner, args@, c, x);
            lemma_in_right(
                found(resolve_call(p, owner, chain)),
                edges_list(p, owner, args@, args@.len()),
                x,
            );
        },
        Exp::Pack(_, fields) => {
            let i = choose|i: int| 0 <= i < fields@.len() && (#[trigger] fields@[i]).value == c;
            lemma_fields_surface(p, owner, fields@, fields@.len(), i, x);
        },
        Exp::Vector(items) => {
            lemma_contained_surfaces(p, owner, items@, c, x);
        },
        Exp::IfElse(cond, then_, else_) => {
            let a = edges(p, owner, *cond);
            let b = edges(p, owner, *then_);
            let d = edges_opt(p, owner, else_);
            if *cond == c {
                lemma_in_left(a, b, x);
                lemma_in_left(a + b, d, x);
            } else if *then_ == c {
                lemma_in_right(a, b, x);
                lemma_in_left(a + b, d, x);
            } else {
                lemma_in_right(a + b, d, x);
            }
        },
        Exp::Match(subject, arms) => {
            let a = edges(p, owner, *subject);
            let b = edges_arms(p, owner, arms@, arms@.len());
            if *subject == c {
                lemma_in_left(a, b, x);
            } else {
                let i = choose|i: int|
                    0 <= i < arms@.len() && ((#[trigger] arms@[i]).guard == Some(c) || arms@[i].body
                        == c);
                let g = edges_guard(p, owner, arms@[i].guard);
                let h = edges(p, owner, arms@[i].body);
                if arms@[i].guard == Some(c) {
                    lemma_in_left(g, h, x);
                } else {
                    lemma_in_right(g, h, x);
                }
                lemma_arms_surface(p, owner, arms@, arms@.len(), i, x);
                lemma_in_right(a, b, x);
            }
        },
        Exp::While(cond, body) => {
            if *cond == c {
                lemma_in_left(edges(p, owner, *cond), edges(p, owner, *body), x);
            } else {
                lemma_in_right(edges(p, owner, *cond), edges(p, owner, *body), x);
            }
        },
        Exp::Block(sequence) => {
            lemma_sequence_surfaces(p, owner, sequence, c, x);
        },
        Exp::Quant(ranges, cond, body) => {
            let a = edges_list(p, owner, ranges@, ranges@.len());
            let b = edges_opt(p, owner, cond);
            let d = edges(p, owner, *body);
            if ranges@.contains(c) {
                lemma_contained_surfaces(p, owner, ranges@, c, x);
                lemma_in_left(a, b, x);
                lemma_in_left(a + b, d, x);
            } else if is_some_exp(cond, c) {
                lemma_in_right(a, b, x);
                lemma_in_left(a + b, d, x);
            } else {
                lemma_in_right(a + b, d, x);
            }
        },
        Exp::ExpList(items) => {
            lemma_contained_surfaces(p, owner, items@, c, x);
        },
        Exp::Assign(target, value) => {
            if *target == c {
                lemma_in_left(edges(p, owner, *target), edges(p, owner, *value), x);
            } else {
                lemma_in_right(edges(p, owner, *target), edges(p, owner, *value), x);
            }
        },
        Exp::BinopExp(left, right) => {
            if *left == c {
                lemma_in_left(edges(p, owner, *left), edges(p, owner, *right), x);
            } else {
                lemma_in_right(edges(p, owner, *left), edges(p, owner, *right), x);
            }
        },
        Exp::DotCall(receiver, method, args) => {
            let a = edges(p, owner, *receiver);
            let b = found(resolve_method(p, *receiver, method@));
            let d = edges_list(p, owner, args@, args@.len());
            if *receiver == c {
                lemma_in_left(a, b, x);
                lemma_in_left(a + b, d, x);
            } else {
                lemma_contained_surfaces(p, owner, args@, c, x);
                lemma_in_right(a + b, d, x);
            }
        },
        Exp::Index(inner, args) => {
            let a = edges(p, owner, *inner);
            let d = edges_list(p, owner, args@, args@.len());
            if *inner == c {
                lemma_in_left(a, d, x);
            } else {
                lemma_contained_surfaces(p, owner, args@, c, x);
                lemma_in_right(a, d, x);
            }
        },
        Exp::Loop(body) => {
            assert(edges(p, owner, e) == edges(p, owner, *body));
        },
        Exp::Labeled(_, body) => {
            assert(edges(p, owner, e) == edges(p, owner, *body));
        },
        Exp::Lambda(_, body) => {
            assert(edges(p, owner, e) == edges(p, owner, *body));
        },
        Exp::Parens(inner) => {
            assert(edges(p, owner, e) == edges(p, owner, *inner));
        },
        Exp::Abort(code) => {
            assert(edges(p, owner, e) == edges_opt(p, owner, code));
        },
        Exp::Return(value) => {
            assert(edges(p, owner, e) == edges_opt(p, owner, value));
        },
        Exp::Break(value) => {
            assert(edges(p, owner, e) == edges_opt(p, owner, value));
        },
        Exp::Dereference(inner) => {
            assert(edges(p, owner, e) == edges(p, owner, *inner));
        },
        Exp::UnaryExp(inner) => {
            assert(edges(p, owner, e) == edges(p, owner, *inner));
        },
        Exp::Borrow(_, inner) => {
            assert(edges(p, owner, e) == edges(p, owner, *inner));
        },
        Exp::Dot(inner, _) => {
            assert(edges(p, owner, e) == edges(p, owner, *inner));
        },
        Exp::Cast(inner, _) => {
            assert(edges(p, owner, e) == edges(p, owner, *inner));
        },
        Exp::Annotate(inner, _) => {
            assert(edges(p, owner, e) == edges(p, owner, *inner));
        },
        _ => {},
    }
}

/// No nesting hides a call: the edges of an expression hold the edges of
/// every expression inside it, however deep.
pub proof fn law_nested_edges_surface(
    p: Project,
    owner: ModuleInfoText,
    e: Exp,
    d: Exp,
    depth: nat,
    x: CallText,
)
    requires
        is_nested(e, d, depth),
        edges(p, owner, d).contains(x),
    ensures
        edges(p, owner, e).contains(x),
    decreases depth,
{
    if depth > 0 {
        let c = choose|c: Exp| #[trigger] is_child(e, c) && is_nested(c, d, (depth - 1) as nat);
        law_nested_edges_surface(p, owner, c, d, (depth - 1) as nat, x);
        law_child_edges_surface(p, owner, e, c, x);
    }
}

/// A call by name whose name resolves gives its edge.
pub proof fn law_resolved_call_is_edge(p: Project, owner: ModuleInfoText, e: Exp, x: CallText)
    requires
        e matches Exp::Call(chain, _) && resolve_call(p, owner, chain) == Some(x),
    ensures
        edges(p, owner, e).contains(x),
{
    match e {
        Exp::Call(chain, args) => {
            assert(found(resolve_call(p, owner, chain))[0] == x);
            lemma_in_left(
                found(resolve_call(p, owner, chain)),
                edges_list(p, owner, args@, args@.len()),
                x,
            );
        },
        _ => {},
    }
}

/// Every call that resolves is reported, wherever in the body it stands:
/// the list of edges of the body holds its callee.
pub proof fn law_call_in_body_is_reported(
    p: Project,
    owner: ModuleInfoText,
    body: Sequence,
    top: Exp,
    call: Exp,
    depth: nat,
    x: CallText,
)
    requires
        in_sequence(body, top),
        is_nested(top, call, depth),
        call matches Exp::Call(chain, _) && resolve_call(p, owner, chain) == Some(x),
    ensures
        has_edge(dedup(edges_body(p, owner, FunctionBody::Defined(body))), x),
{
    law_resolved_call_is_edge(p, owner, call, x);
    law_nested_edges_surface(p, owner, top, call, depth, x);
    lemma_sequence_surfaces(p, owner, body, top, x);
    let all = edges_sequence(p, owner, body);
    let k = choose|k: int| 0 <= k < all.len() && all[k] == x;
    law_dedup_covers(all, k);
}

/// Whether every entry of the list meets the condition.
pub open spec fn all_edges(s: Seq<CallText>, pred: spec_fn(CallText) -> bool) -> bool {
    forall|k: int| 0 <= k < s.len() ==> pred(#[trigger] s[k])
}

/// What holds of both parts holds of a concatenation.
pub proof fn lemma_all_concat(a: Seq<CallText>, b: Seq<CallText>, pred: spec_fn(CallText) -> bool)
    requires
        all_edges(a, pred),
        all_edges(b, pred),
    ensures
        all_edges(a + b, pred),
{
    assert forall|k: int| 0 <= k < (a + b).len() implies pred(#[trigger] (a + b)[k]) by {
        if k < a.len() {
            assert((a + b)[k] == a[k]);
        } else {
            assert((a + b)[k] == b[k - a.len()]);
        }
    }
}

/// Whether the condition holds of every edge that a call site can
/// resolve to.
pub open spec fn holds_of_resolved(p: Project, owner: ModuleInfoText, pred: spec_fn(CallText) -> bool) -> bool {
    &&& forall|chain: NameAccessChain|
        (#[trigger] resolve_call(p, owner, chain)) matches Some(x) ==> pred(x)
    &&& forall|r: Exp, m: Seq<char>| (#[trigger] resolve_method(p, r, m)) matches Some(x) ==> pred(x)
}

/// What holds of every resolved call site holds of every edge of an
/// expression.
pub proof fn lemma_edges_all(p: Project, owner: ModuleInfoText, e: Exp, pred: spec_fn(CallText) -> bool)
    requires
        holds_of_resolved(p, owner, pred),
    ensures
        all_edges(edges(p, owner, e), pred),
    decreases e,
{
    match e {
        Exp::Call(chain, args) => {
            lemma_list_all(p, owner, args@, args@.len(), pred);
            lemma_all_concat(
                found(resolve_call(p, owner, chain)),
                edges_list(p, owner, args@, args@.len()),
                pred,
            );
        },
        Exp::Pack(_, fields) => {
            lemma_fields_all(p, owner, fields@, fields@.len(), pred);
        },
        Exp::Vector(items) => {
            lemma_list_all(p, owner, items@, items@.len(), pred);
        },
        Exp::IfElse(cond, then_, else_) => {
            lemma_edges_all(p, owner, *cond, pred);
            lemma_edges_all(p, owner, *then_, pred);
            lemma_opt_all(p, owner, else_, pred);
            lemma_all_concat(edges(p, owner, *cond), edges(p, owner, *then_), pred);
            lemma_all_concat(
                edges(p, owner, *cond) + edges(p, owner, *then_),
                edges_opt(p, owner, else_),
                pred,
            );
        },
        Exp::Match(subject, arms) => {
            lemma_edges_all(p, owner, *subject, pred);
            lemma_arms_all(p, owner, arms@, arms@.len(), pred);
            lemma_all_concat(
                edges(p, owner, *subject),
                edges_arms(p, owner, arms@, arms@.len()),
                pred,
            );
        },
        Exp::While(cond, body) => {
            lemma_edges_all(p, owner, *cond, pred);
            lemma_edges_all(p, owner, *body, pred);
            lemma_all_concat(edges(p, owner, *cond), edges(p, owner, *body), pred);
        },
        Exp::Loop(body) => {
            lemma_edges_all(p, owner, *body, pred);
        },
        Exp::Labeled(_, body) => {
            lemma_edges_all(p, owner, *body, pred);
        },
        Exp::Block(sequence) => {
            lemma_sequence_all(p, owner, sequence, pred);
        },
        Exp::Lambda(_, body) => {
            lemma_edges_all(p, owner, *body, pred);
        },
        Exp::Quant(ranges, cond, body) => {
            lemma_list_all(p, owner, ranges@, ranges@.len(), pred);
            lemma_opt_all(p, owner, cond, pred);
            lemma_edges_all(p, owner, *body, pred);
            lemma_all_concat(
                edges_list(p, owner, ranges@, ranges@.len()),
                edges_opt(p, owner, cond),
                pred,
            );
            lemma_all_concat(
                edges_list(p, owner, ranges@, ranges@.len()) + edges_opt(p, owner, cond),
                edges(p, owner, *body),
                pred,
            );
        },
        Exp::ExpList(items) => {
            lemma_list_all(p, owner, items@, items@.len(), pred);
        },
        Exp::Parens(inner) => {
            lemma_edges_all(p, owner, *inner, pred);
        },
        Exp::Assign(target, value) => {
            lemma_edges_all(p, owner, *target, pred);
            lemma_edges_all(p, owner, *value, pred);
            lemma_all_concat(edges(p, owner, *target), edges(p, owner, *value), pred);
        },
        Exp::Abort(code) => {
            lemma_opt_all(p, owner, code, pred);
        },
        Exp::Return(value) => {
            lemma_opt_all(p, owner, value, pred);
        },
        Exp::Break(value) => {
            lemma_opt_all(p, owner, value, pred);
        },
        Exp::Dereference(inner) => {
            lemma_edges_all(p, owner, *inner, pred);
        },
        Exp::UnaryExp(inner) => {
            lemma_edges_all(p, owner, *inner, pred);
        },
        Exp::BinopExp(left, right) => {
            lemma_edges_all(p, owner, *left, pred);
            lemma_edges_all(p, owner, *right, pred);
            lemma_all_concat(edges(p, owner, *left), edges(p, owner, *right), pred);
        },
        Exp::Borrow(_, inner) => {
            lemma_edges_all(p, owner, *inner, pred);
        },
        Exp::Dot(inner, _) => {
            lemma_edges_all(p, owner, *inner, pred);
        },
        Exp::DotCall(receiver, method, args) => {
            lemma_edges_all(p, owner, *receiver, pred);
            lemma_list_all(p, owner, args@, args@.len(), pred);
            lemma_all_concat(
                edges(p, owner, *receiver),
                found(resolve_method(p, *receiver, method@)),
                pred,
            );
            lemma_all_concat(
                edges(p, owner, *receiver) + found(resolve_method(p, *receiver, method@)),
                edges_list(p, owner, args@, args@.len()),
                pred,
            );
        },
        Exp::Index(inner, args) => {
            lemma_edges_all(p, owner, *inner, pred);
            lemma_list_all(p, owner, args@, args@.len(), pred);
            lemma_all_concat(
                edges(p, owner, *inner),
                edges_list(p, owner, args@, args@.len()),
                pred,
            );
        },
        Exp::Cast(inner, _) => {
            lemma_edges_all(p, owner, *inner, pred);
        },
        Exp::Annotate(inner, _) => {
            lemma_edges_all(p, owner, *inner, pred);
        },
        _ => {},
    }
}

pub proof fn lemma_opt_all(
    p: Project,
    owner: ModuleInfoText,
    o: Option<Box<Exp>>,
    pred: spec_fn(CallText) -> bool,
)
    requires
        holds_of_resolved(p, owner, pred),
    ensures
        all_edges(edges_opt(p, owner, o), pred),
    decreases o,
{
    match o {
        Some(e) => {
            lemma_edges_all(p, owner, *e, pred);
        },
        None => {},
    }
}

pub proof fn lemma_list_all(
    p: Project,
    owner: ModuleInfoText,
    es: Seq<Exp>,
    n: nat,
    pred: spec_fn(CallText) -> bool,
)
    requires
        holds_of_resolved(p, owner, pred),
    ensures
        all_edges(edges_list(p, owner, es, n), pred),
    decreases es, n,
{
    if n > 0 && n <= es.len() {
        lemma_list_all(p, owner, es, (n - 1) as nat, pred);
        lemma_edges_all(p, owner, es[n - 1], pred);
        lemma_all_concat(
            edges_list(p, owner, es, (n - 1) as nat),
            edges(p, owner, es[n - 1]),
            pred,
        );
    }
}

pub proof fn lemma_fields_all(
    p: Project,
    owner: ModuleInfoText,
    fs: Seq<FieldInit>,
    n: nat,
    pred: spec_fn(CallText) -> bool,
)
    requires
        holds_of_resolved(p, owner, pred),
    ensures
        all_edges(edges_fields(p, owner, fs, n), pred),
    decreases fs, n,
{
    if n > 0 && n <= fs.len() {
        lemma_fields_all(p, owner, fs, (n - 1) as nat, pred);
        lemma_edges_all(p, owner, fs[n - 1].value, pred);
        lemma_all_concat(
            edges_fields(p, owner, fs, (n - 1) as nat),
            edges(p, owner, fs[n - 1].value),
            pred,
        );
    }
}

pub proof fn lemma_arm_all(p: Project, owner: ModuleInfoText, arm: MatchArm, pred: spec_fn(CallText) -> bool)
    requires
        holds_of_resolved(p, owner, pred),
    ensures
        all_edges(edges_arm(p, owner, arm), pred),
    decreases arm,
{
    match arm.guard {
        Some(g) => {
            lemma_edges_all(p, owner, g, pred);
        },
        None => {},
    }
    lemma_edges_all(p, owner, arm.body, pred);
    lemma_all_concat(edges_guard(p, owner, arm.guard), edges(p, owner, arm.body), pred);
}

pub proof fn lemma_arms_all(
    p: Project,
    owner: ModuleInfoText,
    arms: Seq<MatchArm>,
    n: nat,
    pred: spec_fn(CallText) -> bool,
)
    requires
        holds_of_resolved(p, owner, pred),
    ensures
        all_edges(edges_arms(p, owner, arms, n), pred),
    decreases arms, n,
{
    if n > 0 && n <= arms.len() {
        lemma_arms_all(p, owner, arms, (n - 1) as nat, pred);
        lemma_arm_all(p, owner, arms[n - 1], pred);
        lemma_all_concat(
            edges_arms(p, owner, arms, (n - 1) as nat),
            edges_arm(p, owner, arms[n - 1]),
            pred,
        );
    }
}

pub proof fn lemma_item_all(
    p: Project,
    owner: ModuleInfoText,
    item: SequenceItem,
    pred: spec_fn(CallText) -> bool,
)
    requires
        holds_of_resolved(p, owner, pred),
    ensures
        all_edges(edges_item(p, owner, item), pred),
    decreases item,
{
    match item {
        SequenceItem::Statement(e) => {
            lemma_edges_all(p, owner, e, pred);
        },
        SequenceItem::Declare(_, _) => {},
        SequenceItem::Bind(_, _, e) => {
            lemma_edges_all(p, owner, e, pred);
        },
    }
}

pub proof fn lemma_items_all(
    p: Project,
    owner: ModuleInfoText,
    items: Seq<SequenceItem>,
    n: nat,
    pred: spec_fn(CallText) -> bool,
)
    requires
        holds_of_resolved(p, owner, pred),
    ensures
        all_edges(edges_items(p, owner, items, n), pred),
    decreases items, n,
{
    if n > 0 && n <= items.len() {
        lemma_items_all(p, owner, items, (n - 1) as nat, pred);
        lemma_item_all(p, owner, items[n - 1], pred);
        lemma_all_concat(
            edges_items(p, owner, items, (n - 1) as nat),
            edges_item(p, owner, items[n - 1]),
            pred,
        );
    }
}

pub proof fn lemma_sequence_all(
    p: Project,
    owner: ModuleInfoText,
    s: Sequence,
    pred: spec_fn(CallText) -> bool,
)
    requires
        holds_of_resolved(p, owner, pred),
    ensures
        all_edges(edges_sequence(p, owner, s), pred),
    decreases s,
{
    lemma_items_all(p, owner, s.items@, s.items@.len(), pred);
    lemma_opt_all(p, owner, s.tail, pred);
    lemma_all_concat(
        edges_items(p, owner, s.items@, s.items@.len()),
        edges_opt(p, owner, s.tail),
        pred,
    );
}

/// Whether an edge leads to a function that stands in the project: its
/// module name is the name of that function's module, its file the path
/// of that module's file, its signature that of the function.
pub open spec fn is_local_edge(p: Project, x: CallText) -> bool {
    exists|pos: Position|
        #[trigger] in_project(p, pos) && member_at(p, pos) is Function && x == edge_to(
            file_at(p, pos).path@,
            module_at(p, pos),
            function_at(p, pos),
        )
}

/// Whether an edge is the marker for a call `address::module::name`: its
/// module name is the module segment as written.
pub open spec fn is_external_edge(x: CallText) -> bool {
    exists|root: LeadingName, module: Seq<char>, name: Seq<char>|
        x == #[trigger] external_edge(root, module, name)
}

/// Whether an edge is backed by the project or by a fully qualified call.
pub open spec fn is_grounded(p: Project, x: CallText) -> bool {
    is_local_edge(p, x) || is_external_edge(x)
}

/// A function found by name in a module of the project gives a local
/// edge.
pub proof fn lemma_resolve_in_module_local(p: Project, fi: int, mi: int, name: Seq<char>)
    requires
        0 <= fi < p.files@.len(),
        0 <= mi < p.files@[fi].modules@.len(),
    ensures
        resolve_in_module(p.files@[fi].path@, p.files@[fi].modules@[mi], name) matches Some(x)
            ==> is_local_edge(p, x),
{
    let m = p.files@[fi].modules@[mi];
    lemma_function_index_from(m.members@, name, 0);
    match crate::index::function_index_from(m.members@, name, 0) {
        Some(k) => {
            let pos = Position { file: fi, module: mi, member: k };
            assert(in_project(p, pos));
        },
        None => {},
    }
}

/// A found method lies in range and at a function.
pub proof fn lemma_method_index_from(
    members: Seq<crate::ast::ModuleMember>,
    owner_type: Seq<char>,
    name: Seq<char>,
    from: int,
)
    requires
        0 <= from,
    ensures
        method_index_from(members, owner_type, name, from) matches Some(k) ==> from <= k
            < members.len() && members[k] is Function,
    decreases members.len() - from,
{
    if from < members.len() && !crate::resolve::is_method_of(members[from], owner_type, name) {
        lemma_method_index_from(members, owner_type, name, from + 1);
    }
}

/// A method found in the modules of a file of the project gives a local
/// edge.
pub proof fn lemma_method_in_file_local(
    p: Project,
    fi: int,
    owner_type: Seq<char>,
    name: Seq<char>,
    from: int,
)
    requires
        0 <= fi < p.files@.len(),
        0 <= from,
    ensures
        method_in_file_from(p.files@[fi], owner_type, name, from) matches Some(x) ==> is_local_edge(
            p,
            x,
        ),
    decreases p.files@[fi].modules@.len() - from,
{
    let file = p.files@[fi];
    if from < file.modules@.len() {
        let m = file.modules@[from];
        lemma_method_index_from(m.members@, owner_type, name, 0);
        match method_index_from(m.members@, owner_type, name, 0) {
            Some(k) => {
                let pos = Position { file: fi, module: from, member: k };
                assert(in_project(p, pos));
            },
            None => {
                lemma_method_in_file_local(p, fi, owner_type, name, from + 1);
            },
        }
    }
}

/// A method found in the files of the project gives a local edge.
pub proof fn lemma_method_in_files_local(p: Project, owner_type: Seq<char>, name: Seq<char>, from: int)
    requires
        0 <= from,
    ensures
        method_in_files_from(p.files@, owner_type, name, from) matches Some(x) ==> is_local_edge(
            p,
            x,
        ),
    decreases p.files@.len() - from,
{
    if from < p.files@.len() {
        lemma_method_in_file_local(p, from, owner_type, name, 0);
        if method_in_file_from(p.files@[from], owner_type, name, 0) is None {
            lemma_method_in_files_local(p, owner_type, name, from + 1);
        }
    }
}

/// A call `scope::name` that resolves gives a local edge.
pub proof fn lemma_resolve_qualified_local(p: Project, scope: Seq<char>, name: Seq<char>)
    ensures
        resolve_qualified(p, scope, name) matches Some(x) ==> is_local_edge(p, x),
{
    lemma_module_place_from(p.files@, ModuleQuery { name: scope, owner: None }, 0);
    match module_place_by_name(p, scope) {
        Some(place) => {
            lemma_resolve_in_module_local(p, place.0, place.1, name);
        },
        None => {},
    }
    lemma_method_in_files_local(p, scope, name, 0);
}

/// A call by name that resolves gives a grounded edge.
pub proof fn lemma_resolve_call_grounded(p: Project, owner: ModuleInfoText, chain: NameAccessChain)
    ensures
        resolve_call(p, owner, chain) matches Some(x) ==> is_grounded(p, x),
{
    match chain {
        NameAccessChain::Single(entry) => {
            lemma_module_place_from(
                p.files@,
                ModuleQuery { name: owner.name, owner: Some((owner.address, owner.file_path)) },
                0,
            );
            match owning_module_place(p, owner) {
                Some(place) => {
                    lemma_resolve_in_module_local(p, place.0, place.1, entry.name@);
                },
                None => {},
            }
        },
        NameAccessChain::Path(root, entries) => {
            if entries@.len() == 1 {
                match root {
                    LeadingName::Name(scope) => {
                        lemma_resolve_qualified_local(p, scope@, entries@[0].name@);
                    },
                    _ => {},
                }
            } else if entries@.len() == 2 {
                let x = external_edge(root, entries@[0].name@, entries@[1].name@);
                assert(is_external_edge(x));
            }
        },
    }
}

/// Every edge that a call site can resolve to is grounded.
pub proof fn lemma_resolved_are_grounded(p: Project, owner: ModuleInfoText)
    ensures
        holds_of_resolved(p, owner, |x: CallText| is_grounded(p, x)),
{
    let pred = |x: CallText| is_grounded(p, x);
    assert forall|chain: NameAccessChain|
        #![trigger resolve_call(p, owner, chain)]
        (resolve_call(p, owner, chain) matches Some(x) ==> pred(x)) by {
        lemma_resolve_call_grounded(p, owner, chain);
    }
    assert forall|r: Exp, m: Seq<char>|
        #![trigger resolve_method(p, r, m)]
        (resolve_method(p, r, m) matches Some(x) ==> pred(x)) by {
        match receiver_type(r) {
            Some(t) => {
                lemma_resolve_qualified_local(p, t, m);
            },
            None => {},
        }
    }
}

/// No callee is made up: every edge of an expression leads to a function
/// that stands in the project, or marks a call that names address, module
/// and function in full.
pub proof fn law_edges_are_grounded(p: Project, owner: ModuleInfoText, e: Exp, k: int)
    requires
        0 <= k < edges(p, owner, e).len(),
    ensures
        is_grounded(p, edges(p, owner, e)[k]),
{
    let pred = |x: CallText| is_grounded(p, x);
    lemma_resolved_are_grounded(p, owner);
    lemma_edges_all(p, owner, e, pred);
    assert(pred(edges(p, owner, e)[k]));
}

/// No callee is made up: every entry of the list of edges of a body leads
/// to a function that stands in the project, or marks a fully qualified
/// call.
pub proof fn law_reported_edges_are_grounded(p: Project, owner: ModuleInfoText, body: FunctionBody, i: int)
    requires
        0 <= i < dedup(edges_body(p, owner, body)).len(),
    ensures
        is_grounded(p, dedup(edges_body(p, owner, body))[i]),
{
    let all = edges_body(p, owner, body);
    law_dedup_sound(all, i);
    let x = dedup(all)[i];
    let k = choose|k: int| 0 <= k < all.len() && all[k] == x;
    match body {
        FunctionBody::Native => {},
        FunctionBody::Defined(s) => {
            let pred = |x: CallText| is_grounded(p, x);
            lemma_resolved_are_grounded(p, owner);
            lemma_sequence_all(p, owner, s, pred);
            assert(pred(all[k]));
        },
    }
}

/// A method call on a receiver whose type the syntax does not give adds
/// no edge of its own: what it contributes are the edges inside the
/// receiver and inside the arguments.
pub proof fn law_unknown_receiver_adds_no_edge(
    p: Project,
    owner: ModuleInfoText,
    receiver: Exp,
    method: String,
    args: Vec<Exp>,
)
    requires
        receiver_type(receiver) is None,
    ensures
        edges(p, owner, Exp::DotCall(Box::new(receiver), method, args)) == edges(p, owner, receiver)
            + edges_list(p, owner, args@, args@.len()),
{
    let e = Exp::DotCall(Box::new(receiver), method, args);
    assert(resolve_method(p, receiver, method@) is None);
    assert(edges(p, owner, e) == edges(p, owner, receiver) + found(
        resolve_method(p, receiver, method@),
    ) + edges_list(p, owner, args@, args@.len()));
    assert(edges(p, owner, receiver) + Seq::<CallText>::empty() == edges(p, owner, receiver));
}

/// The type of a bare name, of a moved or copied variable, of a field
/// access or of a call's result is not given by the syntax.
pub proof fn law_variable_receiver_is_unknown(receiver: Exp)
    requires
        receiver is Name || receiver is Move || receiver is Copy || receiver is Dot || receiver is Call
            || receiver is DotCall,
    ensures
        receiver_type(receiver) is None,
{
}

/// A call of a pseudo-function of the language adds no edge of its own:
/// what it contributes are the edges inside its arguments.
pub proof fn law_intrinsic_call_adds_no_edge(
    p: Project,
    owner: ModuleInfoText,
    callee: PathEntry,
    args: Vec<Exp>,
)
    requires
        is_builtin_name(callee.name@),
    ensures
        edges(p, owner, Exp::Call(NameAccessChain::Single(callee), args)) == edges_list(
            p,
            owner,
            args@,
            args@.len(),
        ),
{
    let chain = NameAccessChain::Single(callee);
    assert(resolve_call(p, owner, chain) is None);
    assert(edges(p, owner, Exp::Call(chain, args)) == found(resolve_call(p, owner, chain))
        + edges_list(p, owner, args@, args@.len()));
    assert(Seq::<CallText>::empty() + edges_list(p, owner, args@, args@.len()) == edges_list(
        p,
        owner,
        args@,
        args@.len(),
    ));
}

} // verus!
