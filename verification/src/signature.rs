//! Canonical signatures and parameter lists of function definitions.

use vstd::prelude::*;
use vstd::string::*;
use crate::ast::{Ability, Function, FunctionBody, FunctionParameter, TypeParameter, Visibility};
use crate::records::{parameter_texts, Parameter, ParameterText};
use crate::text::{join, join_strings, lemma_texts_push, texts};
use crate::type_resolver::TypeResolver;
use crate::types::render_type;

verus! {

pub open spec fn visibility_token(v: Visibility) -> Seq<char> {
    match v {
        Visibility::Public => "public "@,
        Visibility::Friend => "public(friend) "@,
        Visibility::Package => "public(package) "@,
        Visibility::Internal => ""@,
    }
}

pub open spec fn ability_name(a: Ability) -> Seq<char> {
    match a {
        Ability::Copy => "copy"@,
        Ability::Drop => "drop"@,
        Ability::Store => "store"@,
        Ability::Key => "key"@,
    }
}

/// The names of the abilities, in order.
pub open spec fn ability_names(abilities: Seq<Ability>) -> Seq<Seq<char>> {
    Seq::new(abilities.len(), |i: int| ability_name(abilities[i]))
}

/// A type parameter: its name, then a colon and its constraints joined by
/// ` + ` where it has any.
pub open spec fn render_type_parameter(tp: TypeParameter) -> Seq<char> {
    if tp.abilities@.len() == 0 {
        tp.name@
    } else {
        tp.name@ + ": "@ + join(ability_names(tp.abilities@), " + "@)
    }
}

/// The generic clause: nothing without type parameters, else the
/// parameters in angle brackets.
pub open spec fn render_type_parameters(tps: Seq<TypeParameter>) -> Seq<char> {
    if tps.len() == 0 {
        ""@
    } else {
        "<"@ + join(Seq::new(tps.len(), |i: int| render_type_parameter(tps[i])), ", "@) + ">"@
    }
}

pub open spec fn render_parameter(p: FunctionParameter) -> Seq<char> {
    p.name@ + ": "@ + render_type(p.type_)
}

/// The parameter list in round brackets.
pub open spec fn render_parameters(ps: Seq<FunctionParameter>) -> Seq<char> {
    "("@ + join(Seq::new(ps.len(), |i: int| render_parameter(ps[i])), ", "@) + ")"@
}

/// The modifiers in front of `fun`: visibility, `entry`, `native`.
pub open spec fn modifiers_text(f: Function) -> Seq<char> {
    visibility_token(f.visibility) + (if f.entry {
        "entry "@
    } else {
        ""@
    }) + (if f.body is Native {
        "native "@
    } else {
        ""@
    })
}

/// The canonical signature of a function.
pub open spec fn signature_text(f: Function) -> Seq<char> {
    modifiers_text(f) + "fun "@ + f.name@ + render_type_parameters(f.type_parameters@)
        + render_parameters(f.parameters@) + ": "@ + render_type(f.return_type)
}

/// The record of each declared parameter: its name and the text of its
/// type.
pub open spec fn parameter_records(ps: Seq<FunctionParameter>) -> Seq<ParameterText> {
    Seq::new(
        ps.len(),
        |i: int| ParameterText { name: ps[i].name@, type_: render_type(ps[i].type_) },
    )
}

/// Builds signatures and parameter records.
pub struct SignatureBuilder {
    pub resolver: TypeResolver,
}

impl SignatureBuilder {
    pub fn new() -> (r: Self) {
        SignatureBuilder { resolver: TypeResolver::new() }
    }

    fn ability_to_string(a: &Ability) -> (s: String)
        ensures
            s@ == ability_name(*a),
    {
        match a {
            Ability::Copy => String::from_str("copy"),
            Ability::Drop => String::from_str("drop"),
            Ability::Store => String::from_str("store"),
            Ability::Key => String::from_str("key"),
        }
    }

    fn type_parameter_to_string(tp: &TypeParameter) -> (s: String)
        ensures
            s@ == render_type_parameter(*tp),
    {
        let mut s = tp.name.clone();
        if tp.abilities.len() > 0 {
            let mut names: Vec<String> = Vec::new();
            let mut i: usize = 0;
            while i < tp.abilities.len()
                invariant
                    i <= tp.abilities.len(),
                    texts(names@) == ability_names(tp.abilities@).take(i as int),
                decreases tp.abilities.len() - i,
            {
                let n = Self::ability_to_string(&tp.abilities[i]);
                proof {
                    lemma_texts_push(names@, n);
                    let all = ability_names(tp.abilities@);
                    assert(all.take(i + 1) == all.take(i as int).push(all[i as int]));
                }
                names.push(n);
                i += 1;
            }
            assert(ability_names(tp.abilities@).take(i as int) == ability_names(tp.abilities@));
            s.append(": ");
            let joined = join_strings(&names, " + ");
            s.append(joined.as_str());
        }
        s
    }

    fn type_parameters_to_string(tps: &Vec<TypeParameter>) -> (s: String)
        ensures
            s@ == render_type_parameters(tps@),
    {
        if tps.len() == 0 {
            return String::from_str("");
        }
        let ghost all = Seq::new(tps@.len(), |i: int| render_type_parameter(tps@[i]));
        let mut parts: Vec<String> = Vec::new();
        let mut i: usize = 0;
        while i < tps.len()
            invariant
                i <= tps.len(),
                all == Seq::new(tps@.len(), |i: int| render_type_parameter(tps@[i])),
                texts(parts@) == all.take(i as int),
            decreases tps.len() - i,
        {
            let p = Self::type_parameter_to_string(&tps[i]);
            proof {
                lemma_texts_push(parts@, p);
                assert(all.take(i + 1) == all.take(i as int).push(all[i as int]));
            }
            parts.push(p);
            i += 1;
        }
        assert(all.take(i as int) == all);
        let mut s = String::from_str("<");
        let joined = join_strings(&parts, ", ");
        s.append(joined.as_str());
        s.append(">");
        s
    }

    fn parameters_to_string(&self, ps: &Vec<FunctionParameter>) -> (s: String)
        ensures
            s@ == render_parameters(ps@),
    {
        let ghost all = Seq::new(ps@.len(), |i: int| render_parameter(ps@[i]));
        let mut parts: Vec<String> = Vec::new();
        let mut i: usize = 0;
        while i < ps.len()
            invariant
                i <= ps.len(),
                all == Seq::new(ps@.len(), |i: int| render_parameter(ps@[i])),
                texts(parts@) == all.take(i as int),
            decreases ps.len() - i,
        {
            let mut p = ps[i].name.clone();
            p.append(": ");
            let t = self.resolver.type_to_string(&ps[i].type_);
            p.append(t.as_str());
            proof {
                lemma_texts_push(parts@, p);
                assert(all.take(i + 1) == all.take(i as int).push(all[i as int]));
            }
            parts.push(p);
            i += 1;
        }
        assert(all.take(i as int) == all);
        let mut s = String::from_str("(");
        let joined = join_strings(&parts, ", ");
        s.append(joined.as_str());
        s.append(")");
        s
    }

    /// One record for each declared parameter, in declaration order.
    pub fn extract_parameters(&self, function: &Function) -> (r: Vec<Parameter>)
        ensures
            parameter_texts(r@) == parameter_records(function.parameters@),
    {
        let ghost all = parameter_records(function.parameters@);
        let mut r: Vec<Parameter> = Vec::new();
        let mut i: usize = 0;
        while i < function.parameters.len()
            invariant
                i <= function.parameters.len(),
                all == parameter_records(function.parameters@),
                parameter_texts(r@) == all.take(i as int),
            decreases function.parameters.len() - i,
        {
            let p = &function.parameters[i];
            let rec = Parameter::new(p.name.clone(), self.resolver.type_to_string(&p.type_));
            proof {
                assert(parameter_texts(r@.push(rec)) =~= parameter_texts(r@).push(rec@));
                assert(all.take(i + 1) == all.take(i as int).push(all[i as int]));
            }
            r.push(rec);
            i += 1;
        }
        assert(all.take(i as int) == all);
        r
    }

    /// The canonical signature: modifiers, `fun`, the name, the generic
    /// clause, the parameters and the return type.
    pub fn build_signature(&self, function: &Function) -> (s: String)
        ensures
            s@ == signature_text(*function),
    {
        let mut s = String::from_str(
            match function.visibility {
                Visibility::Public => "public ",
                Visibility::Friend => "public(friend) ",
                Visibility::Package => "public(package) ",
                Visibility::Internal => "",
            },
        );
        if function.entry {
            s.append("entry ");
        }
        match function.body {
            FunctionBody::Native => {
                s.append("native ");
            },
            FunctionBody::Defined(_) => {},
        }
        proof {
            reveal_strlit("");
            assert(s@ == modifiers_text(*function));
        }
        s.append("fun ");
        s.append(function.name.as_str());
        let generics = Self::type_parameters_to_string(&function.type_parameters);
        s.append(generics.as_str());
        let params = self.parameters_to_string(&function.parameters);
        s.append(params.as_str());
        s.append(": ");
        let ret = self.resolver.type_to_string(&function.return_type);
        s.append(ret.as_str());
        s
    }
}

} // verus!
