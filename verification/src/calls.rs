//! The call edges of a function body: every call-shaped expression in it,
//! resolved where the syntax allows, each callee once.

use vstd::prelude::*;
use crate::ast::{Exp, FieldInit, FunctionBody, MatchArm, Project, Sequence, SequenceItem};
use crate::index::ModuleInfoText;
use crate::records::{call_texts, CallText, FunctionCall, ModuleInfo};
use crate::resolve::{edge_text, resolve_call, resolve_method, Resolver};
use crate::text::same_text;

verus! {

/// No edge, or the one edge.
pub open spec fn found(o: Option<CallText>) -> Seq<CallText> {
    match o {
        Some(c) => seq![c],
        None => Seq::<CallText>::empty(),
    }
}

/// The edges of the calls in an expression, in the order in which a walk
/// from left to right meets them, a callee as often as it is called.
pub open spec fn edges(p: Project, owner: ModuleInfoText, e: Exp) -> Seq<CallText>
    decreases e,
{
    match e {
        Exp::Value => Seq::<CallText>::empty(),
        Exp::Move(_) => Seq::<CallText>::empty(),
        Exp::Copy(_) => Seq::<CallText>::empty(),
        Exp::Name(_) => Seq::<CallText>::empty(),
        Exp::Call(chain, args) => found(resolve_call(p, owner, chain)) + edges_list(
            p,
            owner,
            args@,
            args@.len(),
        ),
        Exp::Pack(_, fields) => edges_fields(p, owner, fields@, fields@.len()),
        Exp::Vector(items) => edges_list(p, owner, items@, items@.len()),
        Exp::IfElse(cond, then_, else_) => edges(p, owner, *cond) + edges(p, owner, *then_)
            + edges_opt(p, owner, else_),
        Exp::Match(subject, arms) => edges(p, owner, *subject) + edges_arms(
            p,
            owner,
            arms@,
            arms@.len(),
        ),
        Exp::While(cond, body) => edges(p, owner, *cond) + edges(p, owner, *body),
        Exp::Loop(body) => edges(p, owner, *body),
        Exp::Labeled(_, body) => edges(p, owner, *body),
        Exp::Block(sequence) => edges_sequence(p, owner, sequence),
        Exp::Lambda(_, body) => edges(p, owner, *body),
        Exp::Quant(ranges, cond, body) => edges_list(p, owner, ranges@, ranges@.len()) + edges_opt(
            p,
            owner,
            cond,
        ) + edges(p, owner, *body),
        Exp::ExpList(items) => edges_list(p, owner, items@, items@.len()),
        Exp::Unit => Seq::<CallText>::empty(),
        Exp::Parens(inner) => edges(p, owner, *inner),
        Exp::Assign(target, value) => edges(p, owner, *target) + edges(p, owner, *value),
        Exp::Abort(code) => edges_opt(p, owner, code),
        Exp::Return(value) => edges_opt(p, owner, value),
        Exp::Break(value) => edges_opt(p, owner, value),
        Exp::Continue => Seq::<CallText>::empty(),
        Exp::Dereference(inner) => edges(p, owner, *inner),
        Exp::UnaryExp(inner) => edges(p, owner, *inner),
        Exp::BinopExp(left, right) => edges(p, owner, *left) + edges(p, owner, *right),
        Exp::Borrow(_, inner) => edges(p, owner, *inner),
        Exp::Dot(inner, _) => edges(p, owner, *inner),
        Exp::DotCall(receiver, method, args) => edges(p, owner, *receiver) + found(
            resolve_method(p, *receiver, method@),
        ) + edges_list(p, owner, args@, args@.len()),
        Exp::Index(inner, args) => edges(p, owner, *inner) + edges_list(
            p,
            owner,
            args@,
            args@.len(),
        ),
        Exp::Cast(inner, _) => edges(p, owner, *inner),
        Exp::Annotate(inner, _) => edges(p, owner, *inner),
        Exp::Spec => Seq::<CallText>::empty(),
        Exp::UnresolvedError => Seq::<CallText>::empty(),
    }
}

/// The edges of an expression that may be absent.
pub open spec fn edges_opt(p: Project, owner: ModuleInfoText, o: Option<Box<Exp>>) -> Seq<CallText>
    decreases o,
{
    match o {
        Some(e) => edges(p, owner, *e),
        None => Seq::<CallText>::empty(),
    }
}

/// The edges of the first `n` expressions.
pub open spec fn edges_list(p: Project, owner: ModuleInfoText, es: Seq<Exp>, n: nat) -> Seq<CallText>
    decreases es, n,
{
    if n == 0 || n > es.len() {
        Seq::<CallText>::empty()
    } else {
        edges_list(p, owner, es, (n - 1) as nat) + edges(p, owner, es[n - 1])
    }
}

/// The edges of the first `n` field initialisers.
pub open spec fn edges_fields(p: Project, owner: ModuleInfoText, fs: Seq<FieldInit>, n: nat) -> Seq<
    CallText,
>
    decreases fs, n,
{
    if n == 0 || n > fs.len() {
        Seq::<CallText>::empty()
    } else {
        edges_fields(p, owner, fs, (n - 1) as nat) + edges(p, owner, fs[n - 1].value)
    }
}

/// The edges of a match arm: its guard, then its body.
pub open spec fn edges_arm(p: Project, owner: ModuleInfoText, arm: MatchArm) -> Seq<CallText>
    decreases arm,
{
    edges_guard(p, owner, arm.guard) + edges(p, owner, arm.body)
}

/// The edges of the guard of a match arm, if it has one.
pub open spec fn edges_guard(p: Project, owner: ModuleInfoText, guard: Option<Exp>) -> Seq<CallText>
    decreases guard,
{
    match guard {
        Some(g) => edges(p, owner, g),
        None => Seq::<CallText>::empty(),
    }
}

/// The edges of the first `n` match arms.
pub open spec fn edges_arms(p: Project, owner: ModuleInfoText, arms: Seq<MatchArm>, n: nat) -> Seq<
    CallText,
>
    decreases arms, n,
{
    if n == 0 || n > arms.len() {
        Seq::<CallText>::empty()
    } else {
        edges_arms(p, owner, arms, (n - 1) as nat) + edges_arm(p, owner, arms[n - 1])
    }
}

/// The edges of a statement.
pub open spec fn edges_item(p: Project, owner: ModuleInfoText, item: SequenceItem) -> Seq<CallText>
    decreases item,
{
    match item {
        SequenceItem::Statement(e) => edges(p, owner, e),
        SequenceItem::Declare(_, _) => Seq::<CallText>::empty(),
        SequenceItem::Bind(_, _, e) => edges(p, owner, e),
    }
}

/// The edges of the first `n` statements.
pub open spec fn edges_items(p: Project, owner: ModuleInfoText, items: Seq<SequenceItem>, n: nat) -> Seq<
    CallText,
>
    decreases items, n,
{
    if n == 0 || n > items.len() {
        Seq::<CallText>::empty()
    } else {
        edges_items(p, owner, items, (n - 1) as nat) + edges_item(p, owner, items[n - 1])
    }
}

/// The edges of a block: its statements, then its final expression.
pub open spec fn edges_sequence(p: Project, owner: ModuleInfoText, s: Sequence) -> Seq<CallText>
    decreases s,
{
    edges_items(p, owner, s.items@, s.items@.len()) + edges_opt(p, owner, s.tail)
}

/// The edges of a function body; a native function has none.
pub open spec fn edges_body(p: Project, owner: ModuleInfoText, body: FunctionBody) -> Seq<CallText> {
    match body {
        FunctionBody::Native => Seq::<CallText>::empty(),
        FunctionBody::Defined(s) => edges_sequence(p, owner, s),
    }
}

/// Two edges are the same edge when module and signature agree.
pub open spec fn same_edge(a: CallText, b: CallText) -> bool {
    a.module == b.module && a.function == b.function
}

/// Whether the list holds the edge already.
pub open spec fn has_edge(acc: Seq<CallText>, c: CallText) -> bool {
    exists|i: int| 0 <= i < acc.len() && same_edge(#[trigger] acc[i], c)
}

/// The list with the edge at its end, unless it holds the edge already.
pub open spec fn add_edge(acc: Seq<CallText>, c: CallText) -> Seq<CallText> {
    if has_edge(acc, c) {
        acc
    } else {
        acc.push(c)
    }
}

/// The list after the new edges were added one by one.
pub open spec fn absorb(acc: Seq<CallText>, new: Seq<CallText>) -> Seq<CallText>
    decreases new.len(),
{
    if new.len() == 0 {
        acc
    } else {
        add_edge(absorb(acc, new.drop_last()), new.last())
    }
}

/// The edges in order of first occurrence, each once.
pub open spec fn dedup(s: Seq<CallText>) -> Seq<CallText> {
    absorb(Seq::<CallText>::empty(), s)
}

/// Adding two runs of edges one after the other is adding them in one.
pub proof fn lemma_absorb_concat(acc: Seq<CallText>, a: Seq<CallText>, b: Seq<CallText>)
    ensures
        absorb(acc, a + b) == absorb(absorb(acc, a), b),
    decreases b.len(),
{
    if b.len() == 0 {
        assert(a + b == a);
    } else {
        assert((a + b).drop_last() == a + b.drop_last());
        assert((a + b).last() == b.last());
        lemma_absorb_concat(acc, a, b.drop_last());
    }
}

/// Adding no edge changes nothing; adding one edge is `add_edge`.
pub proof fn lemma_absorb_found(acc: Seq<CallText>, o: Option<CallText>)
    ensures
        absorb(acc, found(o)) == match o {
            Some(c) => add_edge(acc, c),
            None => acc,
        },
{
    match o {
        Some(c) => {
            assert(found(o).drop_last() == Seq::<CallText>::empty());
            assert(absorb(acc, Seq::<CallText>::empty()) == acc);
        },
        None => {},
    }
}

/// One more record at the end is one more text at the end.
pub proof fn lemma_call_texts_push(v: Seq<FunctionCall>, c: FunctionCall)
    ensures
        call_texts(v.push(c)) == call_texts(v).push(c@),
{
    assert(call_texts(v.push(c)) =~= call_texts(v).push(c@));
}

/// Walks function bodies and collects their call edges.
pub struct CallGraphExtractor<'a> {
    pub resolver: Resolver<'a>,
}

impl<'a> CallGraphExtractor<'a> {
    pub fn new(project: &'a Project) -> (r: Self)
        ensures
            r.project() == *project,
    {
        CallGraphExtractor { resolver: Resolver::new(project) }
    }

    /// The project whose modules calls are resolved against.
    pub open spec fn project(&self) -> Project {
        *self.resolver.index.project
    }

    /// Adds an edge unless the list holds it already.
    pub fn record(acc: &mut Vec<FunctionCall>, c: FunctionCall)
        ensures
            call_texts(final(acc)@) == add_edge(call_texts(old(acc)@), c@),
    {
        let mut i: usize = 0;
        while i < acc.len()
            invariant
                i <= acc.len(),
                *acc == *old(acc),
                forall|j: int| 0 <= j < i ==> !same_edge(#[trigger] call_texts(acc@)[j], c@),
            decreases acc.len() - i,
        {
            if same_text(acc[i].module.as_str(), c.module.as_str()) && same_text(
                acc[i].function.as_str(),
                c.function.as_str(),
            ) {
                assert(same_edge(call_texts(acc@)[i as int], c@));
                return ;
            }
            i += 1;
        }
        proof {
            lemma_call_texts_push(acc@, c);
        }
        acc.push(c);
    }

    /// Adds the edge of a call site, if it resolved.
    pub fn record_found(acc: &mut Vec<FunctionCall>, o: Option<FunctionCall>)
        ensures
            call_texts(final(acc)@) == absorb(call_texts(old(acc)@), found(edge_text(o))),
    {
        proof {
            lemma_absorb_found(call_texts(acc@), edge_text(o));
        }
        match o {
            Some(c) => Self::record(acc, c),
            None => {},
        }
    }

    /// Adds the edges of an expression.
    pub fn visit(&self, owner: &ModuleInfo, e: &Exp, acc: &mut Vec<FunctionCall>)
        ensures
            call_texts(final(acc)@) == absorb(call_texts(old(acc)@), edges(self.project(), owner@, *e)),
        decreases e,
    {
        let ghost p = self.project();
        let ghost o = owner@;
        let ghost a0 = call_texts(acc@);
        match e {
            Exp::Value => {},
            Exp::Move(_) => {},
            Exp::Copy(_) => {},
            Exp::Name(_) => {},
            Exp::Call(chain, args) => {
                Self::record_found(acc, self.resolver.resolve_call_site(owner, chain));
                self.visit_list(owner, args, acc);
                proof {
                    lemma_absorb_concat(
                        a0,
                        found(resolve_call(p, o, *chain)),
                        edges_list(p, o, args@, args@.len()),
                    );
                }
            },
            Exp::Pack(_, fields) => {
                self.visit_fields(owner, fields, acc);
            },
            Exp::Vector(items) => {
                self.visit_list(owner, items, acc);
            },
            Exp::IfElse(cond, then_, else_) => {
                self.visit(owner, cond, acc);
                self.visit(owner, then_, acc);
                self.visit_opt(owner, else_, acc);
                proof {
                    lemma_absorb_concat(a0, edges(p, o, **cond), edges(p, o, **then_));
                    lemma_absorb_concat(
                        a0,
                        edges(p, o, **cond) + edges(p, o, **then_),
                        edges_opt(p, o, *else_),
                    );
                }
            },
            Exp::Match(subject, arms) => {
                self.visit(owner, subject, acc);
                self.visit_arms(owner, arms, acc);
                proof {
                    lemma_absorb_concat(
                        a0,
                        edges(p, o, **subject),
                        edges_arms(p, o, arms@, arms@.len()),
                    );
                }
            },
            Exp::While(cond, body) => {
                self.visit(owner, cond, acc);
                self.visit(owner, body, acc);
                proof {
                    lemma_absorb_concat(a0, edges(p, o, **cond), edges(p, o, **body));
                }
            },
            Exp::Loop(body) => {
                self.visit(owner, body, acc);
            },
            Exp::Labeled(_, body) => {
                self.visit(owner, body, acc);
            },
            Exp::Block(sequence) => {
                self.visit_sequence(owner, sequence, acc);
            },
            Exp::Lambda(_, body) => {
                self.visit(owner, body, acc);
            },
            Exp::Quant(ranges, cond, body) => {
                self.visit_list(owner, ranges, acc);
                self.visit_opt(owner, cond, acc);
                self.visit(owner, body, acc);
                proof {
                    lemma_absorb_concat(
                        a0,
                        edges_list(p, o, ranges@, ranges@.len()),
                        edges_opt(p, o, *cond),
                    );
                    lemma_absorb_concat(
                        a0,
                        edges_list(p, o, ranges@, ranges@.len()) + edges_opt(p, o, *cond),
                        edges(p, o, **body),
                    );
                }
            },
            Exp::ExpList(items) => {
                self.visit_list(owner, items, acc);
            },
            Exp::Unit => {},
            Exp::Parens(inner) => {
                self.visit(owner, inner, acc);
            },
            Exp::Assign(target, value) => {
                self.visit(owner, target, acc);
                self.visit(owner, value, acc);
                proof {
                    lemma_absorb_concat(a0, edges(p, o, **target), edges(p, o, **value));
                }
            },
            Exp::Abort(code) => {
                self.visit_opt(owner, code, acc);
            },
            Exp::Return(value) => {
                self.visit_opt(owner, value, acc);
            },
            Exp::Break(value) => {
                self.visit_opt(owner, value, acc);
            },
            Exp::Continue => {},
            Exp::Dereference(inner) => {
                self.visit(owner, inner, acc);
            },
            Exp::UnaryExp(inner) => {
                self.visit(owner, inner, acc);
            },
            Exp::BinopExp(left, right) => {
                self.visit(owner, left, acc);
                self.visit(owner, right, acc);
                proof {
                    lemma_absorb_concat(a0, edges(p, o, **left), edges(p, o, **right));
                }
            },
            Exp::Borrow(_, inner) => {
                self.visit(owner, inner, acc);
            },
            Exp::Dot(inner, _) => {
                self.visit(owner, inner, acc);
            },
            Exp::DotCall(receiver, method, args) => {
                self.visit(owner, receiver, acc);
                Self::record_found(acc, self.resolver.resolve_method_call(receiver, method.as_str()));
                self.visit_list(owner, args, acc);
                proof {
                    lemma_absorb_concat(
                        a0,
                        edges(p, o, **receiver),
                        found(resolve_method(p, **receiver, method@)),
                    );
                    lemma_absorb_concat(
                        a0,
                        edges(p, o, **receiver) + found(resolve_method(p, **receiver, method@)),
                        edges_list(p, o, args@, args@.len()),
                    );
                }
            },
            Exp::Index(inner, args) => {
                self.visit(owner, inner, acc);
                self.visit_list(owner, args, acc);
                proof {
                    lemma_absorb_concat(
                        a0,
                        edges(p, o, **inner),
                        edges_list(p, o, args@, args@.len()),
                    );
                }
            },
            Exp::Cast(inner, _) => {
                self.visit(owner, inner, acc);
            },
            Exp::Annotate(inner, _) => {
                self.visit(owner, inner, acc);
            },
            Exp::Spec => {},
            Exp::UnresolvedError => {},
        }
    }

    /// Adds the edges of an expression that may be absent.
    pub fn visit_opt(&self, owner: &ModuleInfo, e: &Option<Box<Exp>>, acc: &mut Vec<FunctionCall>)
        ensures
            call_texts(final(acc)@) == absorb(
                call_texts(old(acc)@),
                edges_opt(self.project(), owner@, *e),
            ),
        decreases e,
    {
        match e {
            Some(inner) => {
                self.visit(owner, inner, acc);
            },
            None => {},
        }
    }

    /// Adds the edges of the expressions, in order.
    pub fn visit_list(&self, owner: &ModuleInfo, es: &Vec<Exp>, acc: &mut Vec<FunctionCall>)
        ensures
            call_texts(final(acc)@) == absorb(
                call_texts(old(acc)@),
                edges_list(self.project(), owner@, es@, es@.len()),
            ),
        decreases es,
    {
        let ghost a0 = call_texts(acc@);
        let mut i: usize = 0;
        while i < es.len()
            invariant
                i <= es.len(),
                call_texts(acc@) == absorb(a0, edges_list(self.project(), owner@, es@, i as nat)),
            decreases es.len() - i,
        {
            self.visit(owner, &es[i], acc);
            proof {
                lemma_absorb_concat(
                    a0,
                    edges_list(self.project(), owner@, es@, i as nat),
                    edges(self.project(), owner@, es@[i as int]),
                );
            }
            i += 1;
        }
    }

    /// Adds the edges of the field initialisers, in order.
    pub fn visit_fields(&self, owner: &ModuleInfo, fs: &Vec<FieldInit>, acc: &mut Vec<FunctionCall>)
        ensures
            call_texts(final(acc)@) == absorb(
                call_texts(old(acc)@),
                edges_fields(self.project(), owner@, fs@, fs@.len()),
            ),
        decreases fs,
    {
        let ghost a0 = call_texts(acc@);
        let mut i: usize = 0;
        while i < fs.len()
            invariant
                i <= fs.len(),
                call_texts(acc@) == absorb(a0, edges_fields(self.project(), owner@, fs@, i as nat)),
            decreases fs.len() - i,
        {
            self.visit(owner, &fs[i].value, acc);
            proof {
                lemma_absorb_concat(
                    a0,
                    edges_fields(self.project(), owner@, fs@, i as nat),
                    edges(self.project(), owner@, fs@[i as int].value),
                );
            }
            i += 1;
        }
    }

    /// Adds the edges of a match arm: its guard, then its body.
    pub fn visit_arm(&self, owner: &ModuleInfo, arm: &MatchArm, acc: &mut Vec<FunctionCall>)
        ensures
            call_texts(final(acc)@) == absorb(
                call_texts(old(acc)@),
                edges_arm(self.project(), owner@, *arm),
            ),
        decreases arm,
    {
        let ghost a0 = call_texts(acc@);
        let ghost in_guard = edges_guard(self.project(), owner@, arm.guard);
        match &arm.guard {
            Some(g) => {
                self.visit(owner, g, acc);
            },
            None => {},
        }
        self.visit(owner, &arm.body, acc);
        proof {
            lemma_absorb_concat(a0, in_guard, edges(self.project(), owner@, arm.body));
        }
    }

    /// Adds the edges of the match arms, in order.
    pub fn visit_arms(&self, owner: &ModuleInfo, arms: &Vec<MatchArm>, acc: &mut Vec<FunctionCall>)
        ensures
            call_texts(final(acc)@) == absorb(
                call_texts(old(acc)@),
                edges_arms(self.project(), owner@, arms@, arms@.len()),
            ),
        decreases arms,
    {
        let ghost a0 = call_texts(acc@);
        let mut i: usize = 0;
        while i < arms.len()
            invariant
                i <= arms.len(),
                call_texts(acc@) == absorb(a0, edges_arms(self.project(), owner@, arms@, i as nat)),
            decreases arms.len() - i,
        {
            self.visit_arm(owner, &arms[i], acc);
            proof {
                lemma_absorb_concat(
                    a0,
                    edges_arms(self.project(), owner@, arms@, i as nat),
                    edges_arm(self.project(), owner@, arms@[i as int]),
                );
            }
            i += 1;
        }
    }

    /// Adds the edges of a statement.
    pub fn visit_item(&self, owner: &ModuleInfo, item: &SequenceItem, acc: &mut Vec<FunctionCall>)
        ensures
            call_texts(final(acc)@) == absorb(
                call_texts(old(acc)@),
                edges_item(self.project(), owner@, *item),
            ),
        decreases item,
    {
        match item {
            SequenceItem::Statement(e) => {
                self.visit(owner, e, acc);
            },
            SequenceItem::Declare(_, _) => {},
            SequenceItem::Bind(_, _, e) => {
                self.visit(owner, e, acc);
            },
        }
    }

    /// Adds the edges of the statements, in order.
    pub fn visit_items(&self, owner: &ModuleInfo, items: &Vec<SequenceItem>, acc: &mut Vec<FunctionCall>)
        ensures
            call_texts(final(acc)@) == absorb(
                call_texts(old(acc)@),
                edges_items(self.project(), owner@, items@, items@.len()),
            ),
        decreases items,
    {
        let ghost a0 = call_texts(acc@);
        let mut i: usize = 0;
        while i < items.len()
            invariant
                i <= items.len(),
                call_texts(acc@) == absorb(a0, edges_items(self.project(), owner@, items@, i as nat)),
            decreases items.len() - i,
        {
            self.visit_item(owner, &items[i], acc);
            proof {
                lemma_absorb_concat(
                    a0,
                    edges_items(self.project(), owner@, items@, i as nat),
                    edges_item(self.project(), owner@, items@[i as int]),
                );
            }
            i += 1;
        }
    }

    /// Adds the edges of a block: its statements, then its final
    /// expression.
    pub fn visit_sequence(&self, owner: &ModuleInfo, s: &Sequence, acc: &mut Vec<FunctionCall>)
        ensures
            call_texts(final(acc)@) == absorb(
                call_texts(old(acc)@),
                edges_sequence(self.project(), owner@, *s),
            ),
        decreases s,
    {
        let ghost a0 = call_texts(acc@);
        self.visit_items(owner, &s.items, acc);
        self.visit_opt(owner, &s.tail, acc);
        proof {
            lemma_absorb_concat(
                a0,
                edges_items(self.project(), owner@, s.items@, s.items@.len()),
                edges_opt(self.project(), owner@, s.tail),
            );
        }
    }

    /// The call edges of a function body, in order of first occurrence,
    /// each callee once.
    pub fn extract(&self, body: &FunctionBody, owner: &ModuleInfo) -> (r: Vec<FunctionCall>)
        ensures
            call_texts(r@) == dedup(edges_body(self.project(), owner@, *body)),
    {
        let mut acc: Vec<FunctionCall> = Vec::new();
        assert(call_texts(acc@) == Seq::<CallText>::empty());
        match body {
            FunctionBody::Native => {},
            FunctionBody::Defined(s) => {
                self.visit_sequence(owner, s, &mut acc);
            },
        }
        acc
    }
}

} // verus!
