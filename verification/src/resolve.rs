//! Resolution of call sites to the functions they name. A call that cannot
//! be resolved from the syntax alone yields nothing.

use vstd::prelude::*;
use vstd::string::*;
use crate::ast::{Exp, Function, FunctionParameter, ModuleDefinition, ModuleMember, Project, SourceFile};
use crate::index::{
    function_in_module, is_function_named, module_place_by_name, owning_module_place,
    ModuleInfoText,
};
use crate::index::{
    function_index_from, lemma_module_place_from, module_index_from, module_place_from,
    FunctionIndex, ModuleQuery,
};
use crate::records::{CallText, FunctionCall, ModuleInfo};
use crate::signature::SignatureBuilder;
use crate::text::{same_text, starts_with};
use crate::type_resolver::hex_encode;
use crate::signature::signature_text;
use crate::text::has_prefix;
use crate::types::{render_leading, LeadingName, NameAccessChain, PathEntry, TypeNode};

verus! {

/// The pseudo-functions of the language: calls of them are no edges.
pub open spec fn is_builtin_name(n: Seq<char>) -> bool {
    n == "assert"@ || n == "move_to"@ || n == "move_from"@ || n == "borrow_global"@ || n
        == "borrow_global_mut"@ || n == "exists"@ || n == "freeze"@
}

/// The modules of the standard library: calls into them are no edges.
pub open spec fn is_std_module_name(n: Seq<char>) -> bool {
    n == "vector"@ || n == "option"@ || n == "string"@ || n == "ascii"@ || n == "signer"@ || n
        == "bcs"@ || n == "hash"@ || n == "debug"@ || n == "type_name"@ || n == "address"@ || n
        == "error"@ || n == "fixed_point32"@
}

/// Whether the bytes are a number's big-endian form: zeros, then `v`.
pub open spec fn is_small_address(bytes: Seq<u8>, v: u8) -> bool {
    &&& bytes.len() > 0
    &&& bytes.last() == v
    &&& forall|i: int| 0 <= i < bytes.len() - 1 ==> bytes[i] == 0
}

/// The addresses of the standard library and the framework.
pub open spec fn is_framework_address(root: LeadingName) -> bool {
    match root {
        LeadingName::Name(n) => n@ == "std"@ || n@ == "sui"@ || n@ == "sui_system"@,
        LeadingName::GlobalAddress(n) => n@ == "std"@ || n@ == "sui"@ || n@ == "sui_system"@,
        LeadingName::AnonymousAddress(bytes) => is_small_address(bytes@, 1) || is_small_address(
            bytes@,
            2,
        ) || is_small_address(bytes@, 3),
    }
}

/// Method names that only read a value: they are no calls.
pub open spec fn is_accessor_name(n: Seq<char>) -> bool {
    has_prefix(n, "get_"@) || has_prefix(n, "is_"@) || has_prefix(n, "has_"@) || n == "length"@
        || n == "len"@ || n == "size"@ || n == "value"@ || n == "id"@ || n == "borrow"@ || n
        == "borrow_mut"@
}

/// Whether a type names `n` in one of its segments or type arguments.
pub open spec fn type_mentions(t: TypeNode, n: Seq<char>) -> bool
    decreases t,
{
    match t {
        TypeNode::Unit => false,
        TypeNode::Apply(chain) => chain_mentions(*chain, n),
        TypeNode::Ref(_, inner) => type_mentions(*inner, n),
        TypeNode::Fun(params, ret) => types_mention(params@, n, params@.len()) || type_mentions(
            *ret,
            n,
        ),
        TypeNode::Multiple(types) => types_mention(types@, n, types@.len()),
        TypeNode::UnresolvedError => false,
    }
}

/// Whether one of the first `k` types names `n`.
pub open spec fn types_mention(ts: Seq<TypeNode>, n: Seq<char>, k: nat) -> bool
    decreases ts, k,
{
    if k == 0 || k > ts.len() {
        false
    } else {
        types_mention(ts, n, (k - 1) as nat) || type_mentions(ts[k - 1], n)
    }
}

pub open spec fn entry_mentions(e: PathEntry, n: Seq<char>) -> bool
    decreases e,
{
    e.name@ == n || match e.type_args {
        Some(args) => types_mention(args@, n, args@.len()),
        None => false,
    }
}

/// Whether one of the first `k` segments names `n`.
pub open spec fn entries_mention(es: Seq<PathEntry>, n: Seq<char>, k: nat) -> bool
    decreases es, k,
{
    if k == 0 || k > es.len() {
        false
    } else {
        entries_mention(es, n, (k - 1) as nat) || entry_mentions(es[k - 1], n)
    }
}

pub open spec fn chain_mentions(c: NameAccessChain, n: Seq<char>) -> bool
    decreases c,
{
    match c {
        NameAccessChain::Single(entry) => entry_mentions(entry, n),
        NameAccessChain::Path(root, entries) => (root matches LeadingName::Name(r) && r@ == n)
            || entries_mention(entries@, n, entries@.len()),
    }
}

/// Whether one of the first `k` parameters has a type that names `n`.
pub open spec fn parameters_mention(ps: Seq<FunctionParameter>, n: Seq<char>, k: nat) -> bool
    decreases k,
{
    if k == 0 || k > ps.len() {
        false
    } else {
        parameters_mention(ps, n, (k - 1) as nat) || type_mentions(ps[k - 1].type_, n)
    }
}

/// Whether a function takes or returns a type that names `n`.
pub open spec fn function_mentions(f: Function, n: Seq<char>) -> bool {
    parameters_mention(f.parameters@, n, f.parameters@.len()) || type_mentions(f.return_type, n)
}

/// Whether a member is a function of the given name that takes or returns
/// the given type.
pub open spec fn is_method_of(m: ModuleMember, owner_type: Seq<char>, name: Seq<char>) -> bool {
    is_function_named(m, name) && function_mentions(m->Function_0, owner_type)
}

/// The first method of the type among the members from `from` on.
pub open spec fn method_index_from(
    members: Seq<ModuleMember>,
    owner_type: Seq<char>,
    name: Seq<char>,
    from: int,
) -> Option<int>
    decreases members.len() - from,
{
    if from < 0 || from >= members.len() {
        None
    } else if is_method_of(members[from], owner_type, name) {
        Some(from)
    } else {
        method_index_from(members, owner_type, name, from + 1)
    }
}

/// The edge to a function of a module.
pub open spec fn edge_to(path: Seq<char>, m: ModuleDefinition, f: Function) -> CallText {
    CallText { file: path, function: signature_text(f), module: m.name@ }
}

/// The edge to the first method of the type in a module.
pub open spec fn method_in_module(
    path: Seq<char>,
    m: ModuleDefinition,
    owner_type: Seq<char>,
    name: Seq<char>,
) -> Option<CallText> {
    match method_index_from(m.members@, owner_type, name, 0) {
        Some(k) => Some(edge_to(path, m, m.members@[k]->Function_0)),
        None => None,
    }
}

/// The edge to the first method of the type in the modules of a file from
/// `from` on.
pub open spec fn method_in_file_from(
    file: SourceFile,
    owner_type: Seq<char>,
    name: Seq<char>,
    from: int,
) -> Option<CallText>
    decreases file.modules@.len() - from,
{
    if from < 0 || from >= file.modules@.len() {
        None
    } else {
        match method_in_module(file.path@, file.modules@[from], owner_type, name) {
            Some(c) => Some(c),
            None => method_in_file_from(file, owner_type, name, from + 1),
        }
    }
}

/// The edge to the first method of the type in the files from `from` on.
pub open spec fn method_in_files_from(
    files: Seq<SourceFile>,
    owner_type: Seq<char>,
    name: Seq<char>,
    from: int,
) -> Option<CallText>
    decreases files.len() - from,
{
    if from < 0 || from >= files.len() {
        None
    } else {
        match method_in_file_from(files[from], owner_type, name, 0) {
            Some(c) => Some(c),
            None => method_in_files_from(files, owner_type, name, from + 1),
        }
    }
}

/// The edge to the first function of the given name in a module.
pub open spec fn resolve_in_module(path: Seq<char>, m: ModuleDefinition, name: Seq<char>) -> Option<
    CallText,
> {
    match function_in_module(m, name) {
        Some(f) => Some(edge_to(path, m, f)),
        None => None,
    }
}

/// A call by bare name: a function of that name in the owning module.
pub open spec fn resolve_direct(p: Project, owner: ModuleInfoText, name: Seq<char>) -> Option<
    CallText,
> {
    match owning_module_place(p, owner) {
        Some(place) => resolve_in_module(
            p.files@[place.0].path@,
            p.files@[place.0].modules@[place.1],
            name,
        ),
        None => None,
    }
}

/// A call `scope::name`: a function of the module `scope`, else the first
/// function of that name anywhere that takes or returns the type `scope`.
pub open spec fn resolve_qualified(p: Project, scope: Seq<char>, name: Seq<char>) -> Option<
    CallText,
> {
    if is_std_module_name(scope) {
        None
    } else {
        let in_module = match module_place_by_name(p, scope) {
            Some(place) => resolve_in_module(
                p.files@[place.0].path@,
                p.files@[place.0].modules@[place.1],
                name,
            ),
            None => None,
        };
        match in_module {
            Some(c) => Some(c),
            None => method_in_files_from(p.files@, scope, name, 0),
        }
    }
}

/// The edge for a call `address::module::name` into a module that is not
/// at hand: the file is a marker made from the address.
pub open spec fn external_edge(root: LeadingName, module: Seq<char>, name: Seq<char>) -> CallText {
    CallText {
        file: "external:"@ + render_leading(root),
        function: render_leading(root) + "::"@ + module + "::"@ + name,
        module,
    }
}

/// The edge of a call by name, if the name resolves.
pub open spec fn resolve_call(p: Project, owner: ModuleInfoText, chain: NameAccessChain) -> Option<
    CallText,
> {
    match chain {
        NameAccessChain::Single(entry) => if is_builtin_name(entry.name@) {
            None
        } else {
            resolve_direct(p, owner, entry.name@)
        },
        NameAccessChain::Path(root, entries) => if entries@.len() == 1 {
            match root {
                LeadingName::Name(scope) => resolve_qualified(p, scope@, entries@[0].name@),
                _ => None,
            }
        } else if entries@.len() == 2 {
            if is_framework_address(root) {
                None
            } else {
                Some(external_edge(root, entries@[0].name@, entries@[1].name@))
            }
        } else {
            None
        },
    }
}

/// The last segment of a name.
pub open spec fn last_name(chain: NameAccessChain) -> Seq<char> {
    match chain {
        NameAccessChain::Single(entry) => entry.name@,
        NameAccessChain::Path(root, entries) => if entries@.len() > 0 {
            entries@.last().name@
        } else {
            render_leading(root)
        },
    }
}

/// The type of a receiver where the syntax alone gives it: a struct being
/// constructed, or an expression annotated with a named type, also inside
/// parentheses or behind a borrow.
pub open spec fn receiver_type(e: Exp) -> Option<Seq<char>>
    decreases e,
{
    match e {
        Exp::Pack(chain, _) => Some(last_name(chain)),
        Exp::Parens(inner) => receiver_type(*inner),
        Exp::Borrow(_, inner) => receiver_type(*inner),
        Exp::Annotate(_, ty) => match ty {
            TypeNode::Apply(chain) => Some(last_name(*chain)),
            _ => None,
        },
        _ => None,
    }
}

/// The edge of a call `receiver.method(..)`, if the method is no accessor
/// and the receiver's type is given by the syntax.
pub open spec fn resolve_method(p: Project, receiver: Exp, method: Seq<char>) -> Option<CallText> {
    if is_accessor_name(method) {
        None
    } else {
        match receiver_type(receiver) {
            Some(owner_type) => resolve_qualified(p, owner_type, method),
            None => None,
        }
    }
}

/// The text of an edge, if there is one.
pub open spec fn edge_text(o: Option<FunctionCall>) -> Option<CallText> {
    match o {
        Some(c) => Some(c@),
        None => None,
    }
}

pub fn is_builtin(name: &str) -> (r: bool)
    ensures
        r == is_builtin_name(name@),
{
    same_text(name, "assert") || same_text(name, "move_to") || same_text(name, "move_from")
        || same_text(name, "borrow_global") || same_text(name, "borrow_global_mut") || same_text(
        name,
        "exists",
    ) || same_text(name, "freeze")
}

pub fn is_std_module(name: &str) -> (r: bool)
    ensures
        r == is_std_module_name(name@),
{
    same_text(name, "vector") || same_text(name, "option") || same_text(name, "string")
        || same_text(name, "ascii") || same_text(name, "signer") || same_text(name, "bcs")
        || same_text(name, "hash") || same_text(name, "debug") || same_text(name, "type_name")
        || same_text(name, "address") || same_text(name, "error") || same_text(
        name,
        "fixed_point32",
    )
}

pub fn is_accessor(name: &str) -> (r: bool)
    ensures
        r == is_accessor_name(name@),
{
    starts_with(name, "get_") || starts_with(name, "is_") || starts_with(name, "has_") || same_text(
        name,
        "length",
    ) || same_text(name, "len") || same_text(name, "size") || same_text(name, "value") || same_text(
        name,
        "id",
    ) || same_text(name, "borrow") || same_text(name, "borrow_mut")
}

/// Whether the bytes are zeros followed by `v`.
pub fn small_address(bytes: &Vec<u8>, v: u8) -> (r: bool)
    ensures
        r == is_small_address(bytes@, v),
{
    if bytes.len() == 0 || bytes[bytes.len() - 1] != v {
        return false;
    }
    let mut i: usize = 0;
    while i < bytes.len() - 1
        invariant
            i <= bytes.len() - 1,
            bytes.len() > 0,
            forall|j: int| 0 <= j < i ==> bytes@[j] == 0,
        decreases bytes.len() - i,
    {
        if bytes[i] != 0 {
            return false;
        }
        i += 1;
    }
    true
}

pub fn is_framework(root: &LeadingName) -> (r: bool)
    ensures
        r == is_framework_address(*root),
{
    match root {
        LeadingName::Name(n) => same_text(n.as_str(), "std") || same_text(n.as_str(), "sui")
            || same_text(n.as_str(), "sui_system"),
        LeadingName::GlobalAddress(n) => same_text(n.as_str(), "std") || same_text(
            n.as_str(),
            "sui",
        ) || same_text(n.as_str(), "sui_system"),
        LeadingName::AnonymousAddress(bytes) => small_address(bytes, 1) || small_address(bytes, 2)
            || small_address(bytes, 3),
    }
}

pub fn type_names(t: &TypeNode, n: &str) -> (r: bool)
    ensures
        r == type_mentions(*t, n@),
    decreases t,
{
    match t {
        TypeNode::Unit => false,
        TypeNode::Apply(chain) => chain_names(chain, n),
        TypeNode::Ref(_, inner) => type_names(inner, n),
        TypeNode::Fun(params, ret) => {
            let a = types_name(params, n);
            let b = type_names(ret, n);
            a || b
        },
        TypeNode::Multiple(types) => types_name(types, n),
        TypeNode::UnresolvedError => false,
    }
}

pub fn types_name(ts: &Vec<TypeNode>, n: &str) -> (r: bool)
    ensures
        r == types_mention(ts@, n@, ts@.len()),
    decreases ts,
{
    let mut r = false;
    let mut i: usize = 0;
    while i < ts.len()
        invariant
            i <= ts.len(),
            r == types_mention(ts@, n@, i as nat),
        decreases ts.len() - i,
    {
        let here = type_names(&ts[i], n);
        r = r || here;
        i += 1;
    }
    r
}

pub fn entry_names(e: &PathEntry, n: &str) -> (r: bool)
    ensures
        r == entry_mentions(*e, n@),
    decreases e,
{
    let in_args = match &e.type_args {
        Some(args) => types_name(args, n),
        None => false,
    };
    same_text(e.name.as_str(), n) || in_args
}

pub fn chain_names(c: &NameAccessChain, n: &str) -> (r: bool)
    ensures
        r == chain_mentions(*c, n@),
    decreases c,
{
    match c {
        NameAccessChain::Single(entry) => entry_names(entry, n),
        NameAccessChain::Path(root, entries) => {
            let at_root = match root {
                LeadingName::Name(name) => same_text(name.as_str(), n),
                _ => false,
            };
            let in_entries = entries_name(entries, n);
            at_root || in_entries
        },
    }
}

pub fn entries_name(es: &Vec<PathEntry>, n: &str) -> (r: bool)
    ensures
        r == entries_mention(es@, n@, es@.len()),
    decreases es,
{
    let mut r = false;
    let mut i: usize = 0;
    while i < es.len()
        invariant
            i <= es.len(),
            r == entries_mention(es@, n@, i as nat),
        decreases es.len() - i,
    {
        let here = entry_names(&es[i], n);
        r = r || here;
        i += 1;
    }
    r
}

pub fn function_names_type(f: &Function, n: &str) -> (r: bool)
    ensures
        r == function_mentions(*f, n@),
{
    let mut r = false;
    let mut i: usize = 0;
    while i < f.parameters.len()
        invariant
            i <= f.parameters.len(),
            r == parameters_mention(f.parameters@, n@, i as nat),
        decreases f.parameters.len() - i,
    {
        let here = type_names(&f.parameters[i].type_, n);
        r = r || here;
        i += 1;
    }
    let in_return = type_names(&f.return_type, n);
    r || in_return
}

/// Resolves call sites against the modules of a project.
pub struct Resolver<'a> {
    pub index: FunctionIndex<'a>,
    pub builder: SignatureBuilder,
}

impl<'a> Resolver<'a> {
    pub fn new(project: &'a Project) -> (r: Self)
        ensures
            r.index.project == project,
    {
        Resolver { index: FunctionIndex::new(project), builder: SignatureBuilder::new() }
    }

    /// The edge to a function of a module.
    pub fn edge_for(&self, path: &String, m: &ModuleDefinition, f: &Function) -> (c: FunctionCall)
        ensures
            c@ == edge_to(path@, *m, *f),
    {
        FunctionCall::new(path.clone(), self.builder.build_signature(f), m.name.clone())
    }

    /// The edge to the first function of the given name in a module.
    pub fn resolve_in(&self, path: &String, m: &'a ModuleDefinition, name: &str) -> (r: Option<
        FunctionCall,
    >)
        ensures
            edge_text(r) == resolve_in_module(path@, *m, name@),
    {
        match FunctionIndex::find_function(m, name) {
            Some(f) => Some(self.edge_for(path, m, f)),
            None => None,
        }
    }

    /// The edge to the first method of the type in a module.
    pub fn method_in(&self, path: &String, m: &ModuleDefinition, owner_type: &str, name: &str) -> (r:
        Option<FunctionCall>)
        ensures
            edge_text(r) == method_in_module(path@, *m, owner_type@, name@),
    {
        let mut k: usize = 0;
        while k < m.members.len()
            invariant
                k <= m.members.len(),
                method_index_from(m.members@, owner_type@, name@, 0) == method_index_from(
                    m.members@,
                    owner_type@,
                    name@,
                    k as int,
                ),
            decreases m.members.len() - k,
        {
            match &m.members[k] {
                ModuleMember::Function(f) => {
                    if same_text(f.name.as_str(), name) && function_names_type(f, owner_type) {
                        return Some(self.edge_for(path, m, f));
                    }
                },
                _ => {},
            }
            k += 1;
        }
        None
    }

    /// The edge to the first function of the given name, anywhere in the
    /// project, that takes or returns the given type.
    pub fn resolve_by_type(&self, owner_type: &str, name: &str) -> (r: Option<FunctionCall>)
        ensures
            edge_text(r) == method_in_files_from(self.index.project.files@, owner_type@, name@, 0),
    {
        let project: &'a Project = self.index.project;
        let mut fi: usize = 0;
        while fi < project.files.len()
            invariant
                fi <= project.files.len(),
                project == self.index.project,
                method_in_files_from(project.files@, owner_type@, name@, 0) == method_in_files_from(
                    project.files@,
                    owner_type@,
                    name@,
                    fi as int,
                ),
            decreases project.files.len() - fi,
        {
            let file = &project.files[fi];
            let mut mi: usize = 0;
            while mi < file.modules.len()
                invariant
                    fi < project.files.len(),
                    project == self.index.project,
                    *file == project.files@[fi as int],
                    mi <= file.modules.len(),
                    method_in_files_from(project.files@, owner_type@, name@, 0)
                        == method_in_files_from(project.files@, owner_type@, name@, fi as int),
                    method_in_file_from(*file, owner_type@, name@, 0) == method_in_file_from(
                        *file,
                        owner_type@,
                        name@,
                        mi as int,
                    ),
                decreases file.modules.len() - mi,
            {
                match self.method_in(&file.path, &file.modules[mi], owner_type, name) {
                    Some(c) => {
                        return Some(c);
                    },
                    None => {},
                }
                mi += 1;
            }
            fi += 1;
        }
        None
    }

    /// A call by bare name: a function of that name in the owning module.
    pub fn resolve_direct_call(&self, owner: &ModuleInfo, name: &str) -> (r: Option<FunctionCall>)
        ensures
            edge_text(r) == resolve_direct(*self.index.project, owner@, name@),
    {
        let project: &'a Project = self.index.project;
        proof {
            lemma_module_place_from(
                project.files@,
                FunctionIndex::query(owner.name@, Some(owner)),
                0,
            );
        }
        match self.index.locate_module(owner.name.as_str(), Some(owner)) {
            Some((fi, mi)) => self.resolve_in(
                &project.files[fi].path,
                &project.files[fi].modules[mi],
                name,
            ),
            None => None,
        }
    }

    /// A call `scope::name`: a function of the module `scope`, else the
    /// first function of that name that takes or returns the type `scope`.
    pub fn resolve_qualified_call(&self, scope: &str, name: &str) -> (r: Option<FunctionCall>)
        ensures
            edge_text(r) == resolve_qualified(*self.index.project, scope@, name@),
    {
        if is_std_module(scope) {
            return None;
        }
        let project: &'a Project = self.index.project;
        proof {
            lemma_module_place_from(project.files@, FunctionIndex::query(scope@, None), 0);
        }
        let in_module = match self.index.locate_module(scope, None) {
            Some((fi, mi)) => self.resolve_in(
                &project.files[fi].path,
                &project.files[fi].modules[mi],
                name,
            ),
            None => None,
        };
        match in_module {
            Some(c) => Some(c),
            None => self.resolve_by_type(scope, name),
        }
    }

    /// The text of the first segment of a qualified name.
    pub fn leading_to_string(root: &LeadingName) -> (s: String)
        ensures
            s@ == render_leading(*root),
    {
        match root {
            LeadingName::Name(name) => name.clone(),
            LeadingName::GlobalAddress(name) => String::from_str("@").concat(name.as_str()),
            LeadingName::AnonymousAddress(bytes) => String::from_str("0x").concat(
                hex_encode(bytes).as_str(),
            ),
        }
    }

    /// The edge for a call into a module that is not at hand.
    pub fn external_call(root: &LeadingName, module: &str, name: &str) -> (c: FunctionCall)
        ensures
            c@ == external_edge(*root, module@, name@),
    {
        let address = Self::leading_to_string(root);
        let file = String::from_str("external:").concat(address.as_str());
        let function = address.concat("::").concat(module).concat("::").concat(name);
        FunctionCall::new(file, function, String::from_str(module))
    }

    /// The edge of a call by name, if the name resolves.
    pub fn resolve_call_site(&self, owner: &ModuleInfo, chain: &NameAccessChain) -> (r: Option<
        FunctionCall,
    >)
        ensures
            edge_text(r) == resolve_call(*self.index.project, owner@, *chain),
    {
        match chain {
            NameAccessChain::Single(entry) => {
                if is_builtin(entry.name.as_str()) {
                    None
                } else {
                    self.resolve_direct_call(owner, entry.name.as_str())
                }
            },
            NameAccessChain::Path(root, entries) => {
                if entries.len() == 1 {
                    match root {
                        LeadingName::Name(scope) => self.resolve_qualified_call(
                            scope.as_str(),
                            entries[0].name.as_str(),
                        ),
                        _ => None,
                    }
                } else if entries.len() == 2 {
                    if is_framework(root) {
                        None
                    } else {
                        Some(
                            Self::external_call(
                                root,
                                entries[0].name.as_str(),
                                entries[1].name.as_str(),
                            ),
                        )
                    }
                } else {
                    None
                }
            },
        }
    }

    /// The last segment of a name.
    pub fn last_segment(chain: &NameAccessChain) -> (s: String)
        ensures
            s@ == last_name(*chain),
    {
        match chain {
            NameAccessChain::Single(entry) => entry.name.clone(),
            NameAccessChain::Path(root, entries) => {
                if entries.len() > 0 {
                    entries[entries.len() - 1].name.clone()
                } else {
                    Self::leading_to_string(root)
                }
            },
        }
    }

    /// The type of a receiver where the syntax alone gives it.
    pub fn infer_receiver_type(e: &Exp) -> (r: Option<String>)
        ensures
            match r {
                Some(s) => receiver_type(*e) == Some(s@),
                None => receiver_type(*e) is None,
            },
        decreases e,
    {
        match e {
            Exp::Pack(chain, _) => Some(Self::last_segment(chain)),
            Exp::Parens(inner) => Self::infer_receiver_type(inner),
            Exp::Borrow(_, inner) => Self::infer_receiver_type(inner),
            Exp::Annotate(_, ty) => match ty {
                TypeNode::Apply(chain) => Some(Self::last_segment(chain)),
                _ => None,
            },
            _ => None,
        }
    }

    /// The edge of a call `receiver.method(..)`, if the method is no
    /// accessor and the receiver's type is given by the syntax.
    pub fn resolve_method_call(&self, receiver: &Exp, method: &str) -> (r: Option<FunctionCall>)
        ensures
            edge_text(r) == resolve_method(*self.index.project, *receiver, method@),
    {
        if is_accessor(method) {
            return None;
        }
        match Self::infer_receiver_type(receiver) {
            Some(owner_type) => self.resolve_qualified_call(owner_type.as_str(), method),
            None => None,
        }
    }
}

} // verus!
