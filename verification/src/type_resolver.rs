//! Rendering of type nodes as text.

use vstd::prelude::*;
use vstd::string::*;
use crate::text::{
    chars_of, contains, contains_text, ends_with, has_prefix, has_suffix, join, replace_all,
    replace_chars, same_text, starts_with, string_of, trim_chars, trim_text,
};
use crate::types::{
    chain_size, entries_size, entry_size, hex_text, lemma_entries_size_member,
    lemma_types_size_member, render_chain, render_entries, render_entry, render_leading,
    render_type, render_type_list, rendered_types, type_size, types_size, LeadingName,
    NameAccessChain, PathEntry, TypeNode,
};

verus! {

/// `hex::encode`: every byte becomes two lowercase hexadecimal digits, the
/// high one first, in the order of the bytes.
#[verifier::external_body]
pub(crate) fn hex_encode(bytes: &Vec<u8>) -> (s: String)
    ensures
        s@ == hex_text(bytes@),
{
    hex::encode(bytes)
}

/// The scalar and built-in type names of the language.
pub open spec fn is_basic_type_name(n: Seq<char>) -> bool {
    n == "u8"@ || n == "u16"@ || n == "u32"@ || n == "u64"@ || n == "u128"@ || n == "u256"@ || n
        == "bool"@ || n == "address"@ || n == "signer"@ || n == "vector"@
}

/// Whether a type name looks like that of a resource.
pub open spec fn is_resource_name(n: Seq<char>) -> bool {
    contains_text(n, "Coin"@) || contains_text(n, "Object"@) || contains_text(n, "UID"@)
        || has_suffix(n, "Cap"@) || has_suffix(n, "Witness"@)
}

/// A type text with the spacing round its angle brackets made uniform.
pub open spec fn readable_text(t: Seq<char>) -> Seq<char> {
    let spaced = replace_all(replace_all(replace_all(t, "<"@, " <"@), ">"@, "> "@), "  "@, " "@);
    replace_all(replace_all(trim_text(spaced), " <"@, "<"@), "> "@, ">"@)
}

/// A base name with the given type arguments behind it, if there are any.
pub open spec fn generic_text(base: Seq<char>, args: Seq<TypeNode>) -> Seq<char> {
    if args.len() == 0 {
        base
    } else {
        base + "<"@ + render_type_list(args) + ">"@
    }
}

/// The abilities that the name of a type suggests.
pub open spec fn capability_names(n: Seq<char>) -> Seq<Seq<char>> {
    if is_basic_type_name(n) {
        seq!["copy"@, "drop"@, "store"@]
    } else if is_resource_name(n) {
        if contains_text(n, "Store"@) || has_suffix(n, "Data"@) {
            seq!["key"@, "store"@]
        } else {
            seq!["key"@]
        }
    } else if has_prefix(n, "vector<"@) {
        seq!["store"@]
    } else {
        seq!["unknown"@]
    }
}

/// A measure of how involved a type is.
pub open spec fn complexity(t: TypeNode) -> nat
    decreases t,
{
    match t {
        TypeNode::Unit => 0,
        TypeNode::Apply(chain) => chain_complexity(*chain),
        TypeNode::Ref(_, inner) => 1 + complexity(*inner),
        TypeNode::Fun(params, ret) => 2 + list_complexity(params@, params@.len()) + complexity(
            *ret,
        ),
        TypeNode::Multiple(types) => 1 + list_complexity(types@, types@.len()),
        TypeNode::UnresolvedError => 0,
    }
}

/// The complexity of the first `n` types together.
pub open spec fn list_complexity(ts: Seq<TypeNode>, n: nat) -> nat
    decreases ts, n,
{
    if n == 0 || n > ts.len() {
        0
    } else {
        list_complexity(ts, (n - 1) as nat) + complexity(ts[n - 1])
    }
}

pub open spec fn chain_complexity(c: NameAccessChain) -> nat
    decreases c,
{
    match c {
        NameAccessChain::Single(entry) => match entry.type_args {
            Some(args) => 1 + list_complexity(args@, args@.len()),
            None => 1,
        },
        NameAccessChain::Path(_, _) => 2,
    }
}

/// The first types of a list are no more complex than more of them.
pub proof fn lemma_list_complexity_monotone(ts: Seq<TypeNode>, i: nat, n: nat)
    requires
        i <= n <= ts.len(),
    ensures
        list_complexity(ts, i) <= list_complexity(ts, n),
    decreases n,
{
    if i < n {
        lemma_list_complexity_monotone(ts, i, (n - 1) as nat);
    }
}

/// What is known of a type: its text and what the text suggests.
#[derive(Debug, Clone, PartialEq, Eq)]
pub struct TypeInfo {
    pub type_string: String,
    pub readable_string: String,
    pub is_reference: bool,
    pub is_mutable: bool,
    pub is_generic: bool,
    pub complexity_level: u32,
    pub capabilities: Vec<String>,
}

/// Turns type nodes into their canonical text.
pub struct TypeResolver {}

impl TypeResolver {
    pub fn new() -> (r: Self) {
        TypeResolver {  }
    }

    /// The canonical text of a type.
    pub fn type_to_string(&self, type_: &TypeNode) -> (s: String)
        ensures
            s@ == render_type(*type_),
        decreases type_size(*type_), 0nat,
    {
        match type_ {
            TypeNode::Unit => self.format_unit_type(),
            TypeNode::Apply(chain) => self.format_apply_type(chain),
            TypeNode::Ref(is_mut, inner) => self.format_reference_type(*is_mut, inner),
            TypeNode::Fun(params, ret) => self.format_function_type(params, ret),
            TypeNode::Multiple(types) => self.format_multiple_type(types),
            TypeNode::UnresolvedError => self.format_unresolved_error(),
        }
    }

    pub fn format_unit_type(&self) -> (s: String)
        ensures
            s@ == "()"@,
    {
        String::from_str("()")
    }

    pub fn format_apply_type(&self, name_access_chain: &NameAccessChain) -> (s: String)
        ensures
            s@ == render_chain(*name_access_chain),
        decreases chain_size(*name_access_chain), 1nat,
    {
        self.name_access_chain_to_string(name_access_chain)
    }

    pub fn format_reference_type(&self, is_mut: bool, inner_type: &TypeNode) -> (s: String)
        ensures
            s@ == (if is_mut { "&mut "@ } else { "&"@ }) + render_type(*inner_type),
        decreases type_size(*inner_type), 1nat,
    {
        let mut s = String::from_str(if is_mut { "&mut " } else { "&" });
        let inner = self.type_to_string(inner_type);
        s.append(inner.as_str());
        s
    }

    pub fn format_function_type(&self, params: &Vec<TypeNode>, return_type: &TypeNode) -> (s: String)
        ensures
            s@ == "|"@ + render_type_list(params@) + "| -> "@ + render_type(*return_type),
        decreases types_size(params@, params@.len()) + type_size(*return_type), 1nat,
    {
        let mut s = String::from_str("|");
        let list = self.type_list_to_string(params);
        s.append(list.as_str());
        s.append("| -> ");
        let ret = self.type_to_string(return_type);
        s.append(ret.as_str());
        s
    }

    pub fn format_multiple_type(&self, types: &Vec<TypeNode>) -> (s: String)
        ensures
            s@ == "("@ + render_type_list(types@) + ")"@,
        decreases types_size(types@, types@.len()), 2nat,
    {
        let mut s = String::from_str("(");
        let list = self.type_list_to_string(types);
        s.append(list.as_str());
        s.append(")");
        s
    }

    pub fn format_unresolved_error(&self) -> (s: String)
        ensures
            s@ == "UnresolvedError"@,
    {
        String::from_str("UnresolvedError")
    }

    /// The texts of the types, separated by a comma and a space.
    pub fn type_list_to_string(&self, types: &Vec<TypeNode>) -> (s: String)
        ensures
            s@ == render_type_list(types@),
        decreases types_size(types@, types@.len()), 1nat,
    {
        let mut s = String::new();
        let mut i: usize = 0;
        while i < types.len()
            invariant
                i <= types.len(),
                s@ == join(rendered_types(types@).take(i as int), ", "@),
            decreases types.len() - i,
        {
            proof {
                lemma_types_size_member(types@, types@.len(), i as int);
            }
            let part = self.type_to_string(&types[i]);
            if i > 0 {
                s.append(", ");
            }
            s.append(part.as_str());
            proof {
                let all = rendered_types(types@);
                assert(all.take(i + 1).drop_last() == all.take(i as int));
                assert(all.take(i + 1).last() == part@);
                if i == 0 {
                    assert(join(all.take(0), ", "@) == Seq::<char>::empty());
                    assert(s@ == part@);
                }
            }
            i += 1;
        }
        assert(rendered_types(types@).take(types.len() as int) == rendered_types(types@));
        s
    }

    pub fn name_access_chain_to_string(&self, name_access_chain: &NameAccessChain) -> (s: String)
        ensures
            s@ == render_chain(*name_access_chain),
        decreases chain_size(*name_access_chain), 0nat,
    {
        match name_access_chain {
            NameAccessChain::Single(path_entry) => self.format_single_name_entry(path_entry),
            NameAccessChain::Path(root, entries) => self.format_path_name_access(root, entries),
        }
    }

    pub fn format_single_name_entry(&self, path_entry: &PathEntry) -> (s: String)
        ensures
            s@ == render_entry(*path_entry),
        decreases entry_size(*path_entry), 0nat,
    {
        let mut s = path_entry.name.clone();
        match &path_entry.type_args {
            Some(type_args) => {
                s.append("<");
                let list = self.type_list_to_string(type_args);
                s.append(list.as_str());
                s.append(">");
            },
            None => {},
        }
        s
    }

    pub fn format_path_name_access(&self, root: &LeadingName, entries: &Vec<PathEntry>) -> (s: String)
        ensures
            s@ == render_leading(*root) + render_entries(entries@, entries@.len()),
        decreases entries_size(entries@, entries@.len()), 1nat,
    {
        let mut s = match root {
            LeadingName::Name(name) => name.clone(),
            LeadingName::GlobalAddress(name) => {
                let mut t = String::from_str("@");
                t.append(name.as_str());
                t
            },
            LeadingName::AnonymousAddress(bytes) => {
                let mut t = String::from_str("0x");
                let digits = hex_encode(bytes);
                t.append(digits.as_str());
                t
            },
        };
        let mut i: usize = 0;
        while i < entries.len()
            invariant
                i <= entries.len(),
                s@ == render_leading(*root) + render_entries(entries@, i as nat),
            decreases entries.len() - i,
        {
            proof {
                lemma_entries_size_member(entries@, entries@.len(), i as int);
            }
            s.append("::");
            let part = self.format_single_name_entry(&entries[i]);
            s.append(part.as_str());
            i += 1;
        }
        s
    }

    pub fn is_basic_move_type(&self, name: &str) -> (r: bool)
        ensures
            r == is_basic_type_name(name@),
    {
        same_text(name, "u8") || same_text(name, "u16") || same_text(name, "u32") || same_text(
            name,
            "u64",
        ) || same_text(name, "u128") || same_text(name, "u256") || same_text(name, "bool")
            || same_text(name, "address") || same_text(name, "signer") || same_text(name, "vector")
    }

    /// The name of a struct with its type arguments, if it has any.
    pub fn resolve_struct_type(&self, struct_name: &str, type_args: Option<&Vec<TypeNode>>) -> (s:
        String)
        ensures
            s@ == match type_args {
                Some(args) => generic_text(struct_name@, args@),
                None => struct_name@,
            },
    {
        let qualified_name = match self.find_qualified_struct_name(struct_name) {
            Some(name) => name,
            None => String::from_str(struct_name),
        };
        match type_args {
            Some(args) => {
                if args.len() > 0 {
                    let list = self.type_list_to_string(args);
                    qualified_name.concat("<").concat(list.as_str()).concat(">")
                } else {
                    qualified_name
                }
            },
            None => qualified_name,
        }
    }

    /// The qualified name of a struct: the name as it was given.
    pub fn find_qualified_struct_name(&self, struct_name: &str) -> (r: Option<String>)
        ensures
            r matches Some(s) && s@ == struct_name@,
    {
        Some(String::from_str(struct_name))
    }

    pub fn format_vector_type(&self, element_type: &TypeNode) -> (s: String)
        ensures
            s@ == "vector<"@ + render_type(*element_type) + ">"@,
    {
        let inner = self.type_to_string(element_type);
        String::from_str("vector<").concat(inner.as_str()).concat(">")
    }

    /// Whether a type name looks like that of a resource.
    pub fn is_resource_type(&self, name: &str) -> (r: bool)
        ensures
            r == is_resource_name(name@),
    {
        contains(name, "Coin") || contains(name, "Object") || contains(name, "UID") || ends_with(
            name,
            "Cap",
        ) || ends_with(name, "Witness")
    }

    /// The text of a type with uniform spacing round its angle brackets.
    pub fn generate_readable_type_string(&self, type_: &TypeNode) -> (s: String)
        ensures
            s@ == readable_text(render_type(*type_)),
    {
        let base_string = self.type_to_string(type_);
        self.enhance_type_readability(base_string.as_str())
    }

    /// A type text with the spacing round its angle brackets made uniform.
    pub fn enhance_type_readability(&self, type_string: &str) -> (s: String)
        ensures
            s@ == readable_text(type_string@),
    {
        let lt = chars_of("<");
        let gt = chars_of(">");
        let space_lt = chars_of(" <");
        let gt_space = chars_of("> ");
        let two = chars_of("  ");
        let one = chars_of(" ");
        let chars = chars_of(type_string);
        let a = replace_chars(&chars, &lt, &space_lt);
        let b = replace_chars(&a, &gt, &gt_space);
        let c = replace_chars(&b, &two, &one);
        let d = trim_chars(&c);
        let e = replace_chars(&d, &space_lt, &lt);
        let f = replace_chars(&e, &gt_space, &gt);
        string_of(&f)
    }

    /// A base name with the given type arguments behind it.
    pub fn handle_nested_generics(&self, base_type: &str, type_args: &Vec<TypeNode>) -> (s: String)
        ensures
            s@ == generic_text(base_type@, type_args@),
    {
        if type_args.len() == 0 {
            return String::from_str(base_type);
        }
        let mut formatted_args: Vec<String> = Vec::new();
        let mut i: usize = 0;
        while i < type_args.len()
            invariant
                i <= type_args.len(),
                crate::text::texts(formatted_args@) == rendered_types(type_args@).take(i as int),
            decreases type_args.len() - i,
        {
            let arg_string = self.type_to_string(&type_args[i]);
            let formatted_arg = if contains(arg_string.as_str(), "<") && contains(
                arg_string.as_str(),
                ">",
            ) {
                self.format_deeply_nested_type(arg_string.as_str())
            } else {
                arg_string
            };
            proof {
                crate::text::lemma_texts_push(formatted_args@, formatted_arg);
                let all = rendered_types(type_args@);
                assert(all.take(i + 1) == all.take(i as int).push(all[i as int]));
            }
            formatted_args.push(formatted_arg);
            i += 1;
        }
        assert(rendered_types(type_args@).take(i as int) == rendered_types(type_args@));
        let joined = crate::text::join_strings(&formatted_args, ", ");
        String::from_str(base_type).concat("<").concat(joined.as_str()).concat(">")
    }

    /// A deeply nested type text: it stays as it is.
    pub fn format_deeply_nested_type(&self, type_string: &str) -> (s: String)
        ensures
            s@ == type_string@,
    {
        let chars = chars_of(type_string);
        let mut depth: usize = 0;
        let mut i: usize = 0;
        while i < chars.len()
            invariant
                i <= chars.len(),
                depth <= i,
            decreases chars.len() - i,
        {
            if chars[i] == '<' {
                depth += 1;
            }
            i += 1;
        }
        if depth > 2 {
            self.simplify_deep_nesting(type_string)
        } else {
            String::from_str(type_string)
        }
    }

    pub fn simplify_deep_nesting(&self, type_string: &str) -> (s: String)
        ensures
            s@ == type_string@,
    {
        String::from_str(type_string)
    }

    /// The name of a type with the abilities that the name suggests.
    pub fn resolve_resource_type_with_capabilities(&self, name: &str) -> (r: (String, Vec<String>))
        ensures
            r.0@ == name@,
            crate::text::texts(r.1@) == capability_names(name@),
    {
        let capabilities = self.infer_type_capabilities(name);
        (String::from_str(name), capabilities)
    }

    /// The abilities that the name of a type suggests.
    pub fn infer_type_capabilities(&self, name: &str) -> (r: Vec<String>)
        ensures
            crate::text::texts(r@) == capability_names(name@),
    {
        let mut capabilities: Vec<String> = Vec::new();
        if self.is_basic_move_type(name) {
            capabilities.push(String::from_str("copy"));
            capabilities.push(String::from_str("drop"));
            capabilities.push(String::from_str("store"));
        } else if self.is_resource_type(name) {
            capabilities.push(String::from_str("key"));
            if contains(name, "Store") || ends_with(name, "Data") {
                capabilities.push(String::from_str("store"));
            }
        } else if starts_with(name, "vector<") {
            capabilities.push(String::from_str("store"));
        } else {
            capabilities.push(String::from_str("unknown"));
        }
        assert(crate::text::texts(capabilities@) =~= capability_names(name@));
        capabilities
    }

    /// Whether a type text holds both angle brackets.
    pub fn contains_generics(&self, type_string: &str) -> (r: bool)
        ensures
            r == (contains_text(type_string@, "<"@) && contains_text(type_string@, ">"@)),
    {
        contains(type_string, "<") && contains(type_string, ">")
    }

    /// A measure of how involved a type is.
    pub fn calculate_type_complexity(&self, type_: &TypeNode) -> (n: u32)
        requires
            complexity(*type_) <= u32::MAX,
        ensures
            n == complexity(*type_),
        decreases type_,
    {
        match type_ {
            TypeNode::Unit => 0,
            TypeNode::Apply(name_access) => self.calculate_name_access_complexity(name_access),
            TypeNode::Ref(_, inner) => 1 + self.calculate_type_complexity(inner),
            TypeNode::Fun(params, ret) => {
                let param_complexity = self.sum_type_complexity(params);
                2 + param_complexity + self.calculate_type_complexity(ret)
            },
            TypeNode::Multiple(types) => 1 + self.sum_type_complexity(types),
            TypeNode::UnresolvedError => 0,
        }
    }

    /// The complexity of the types together.
    pub fn sum_type_complexity(&self, types: &Vec<TypeNode>) -> (n: u32)
        requires
            list_complexity(types@, types@.len()) <= u32::MAX,
        ensures
            n == list_complexity(types@, types@.len()),
        decreases types,
    {
        let mut total: u32 = 0;
        let mut i: usize = 0;
        while i < types.len()
            invariant
                i <= types.len(),
                total == list_complexity(types@, i as nat),
                list_complexity(types@, types@.len()) <= u32::MAX,
            decreases types.len() - i,
        {
            proof {
                lemma_list_complexity_monotone(types@, (i + 1) as nat, types@.len());
            }
            total = total + self.calculate_type_complexity(&types[i]);
            i += 1;
        }
        total
    }

    pub fn calculate_name_access_complexity(&self, name_access: &NameAccessChain) -> (n: u32)
        requires
            chain_complexity(*name_access) <= u32::MAX,
        ensures
            n == chain_complexity(*name_access),
        decreases name_access,
    {
        match name_access {
            NameAccessChain::Single(path_entry) => match &path_entry.type_args {
                Some(type_args) => 1 + self.sum_type_complexity(type_args),
                None => 1,
            },
            NameAccessChain::Path(_, _) => 2,
        }
    }

    /// What is known of a type.
    pub fn generate_comprehensive_type_info(&self, type_: &TypeNode) -> (info: TypeInfo)
        requires
            complexity(*type_) <= u32::MAX,
        ensures
            info.type_string@ == render_type(*type_),
            info.readable_string@ == readable_text(render_type(*type_)),
            info.is_reference == (*type_ is Ref),
            info.is_mutable == (*type_ matches TypeNode::Ref(m, _) && m),
            info.is_generic == (contains_text(render_type(*type_), "<"@) && contains_text(
                render_type(*type_),
                ">"@,
            )),
            info.complexity_level == complexity(*type_),
            crate::text::texts(info.capabilities@) == if *type_ is Ref {
                Seq::<Seq<char>>::empty()
            } else {
                capability_names(render_type(*type_))
            },
    {
        let type_string = self.type_to_string(type_);
        let is_reference = match type_ {
            TypeNode::Ref(_, _) => true,
            _ => false,
        };
        let is_mutable = match type_ {
            TypeNode::Ref(is_mut, _) => *is_mut,
            _ => false,
        };
        let is_generic = self.contains_generics(type_string.as_str());
        let complexity_level = self.calculate_type_complexity(type_);
        let readable_string = self.generate_readable_type_string(type_);
        let capabilities = if is_reference {
            let none: Vec<String> = Vec::new();
            assert(crate::text::texts(none@) =~= Seq::<Seq<char>>::empty());
            none
        } else {
            self.infer_type_capabilities(type_string.as_str())
        };
        TypeInfo {
            type_string,
            readable_string,
            is_reference,
            is_mutable,
            is_generic,
            complexity_level,
            capabilities,
        }
    }
}

} // verus!
