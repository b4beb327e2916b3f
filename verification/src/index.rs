//! Lookups over the parsed modules of a project. Each is a linear scan in
//! the order in which files, modules and members were supplied.

use vstd::prelude::*;
use crate::ast::{Function, ModuleDefinition, ModuleMember, Project, SourceFile};
use crate::records::{FunctionDef, ModuleInfo};
use crate::text::{same_bytes, same_text};

verus! {

/// The place of a member: the index of its file, of its module in the
/// file, and of the member in the module.
pub struct Position {
    pub file: int,
    pub module: int,
    pub member: int,
}

/// The text of a module's identity.
pub struct ModuleInfoText {
    pub address: Seq<u8>,
    pub name: Seq<char>,
    pub file_path: Seq<char>,
}

impl View for ModuleInfo {
    type V = ModuleInfoText;

    open spec fn view(&self) -> ModuleInfoText {
        ModuleInfoText { address: self.address@, name: self.name@, file_path: self.file_path@ }
    }
}

/// Whether a member is a function of the given name.
pub open spec fn is_function_named(m: ModuleMember, name: Seq<char>) -> bool {
    m matches ModuleMember::Function(f) && f.name@ == name
}

/// Whether the position lies inside the project.
pub open spec fn in_project(p: Project, pos: Position) -> bool {
    &&& 0 <= pos.file < p.files@.len()
    &&& 0 <= pos.module < p.files@[pos.file].modules@.len()
    &&& 0 <= pos.member < p.files@[pos.file].modules@[pos.module].members@.len()
}

pub open spec fn file_at(p: Project, pos: Position) -> SourceFile {
    p.files@[pos.file]
}

pub open spec fn module_at(p: Project, pos: Position) -> ModuleDefinition {
    p.files@[pos.file].modules@[pos.module]
}

pub open spec fn member_at(p: Project, pos: Position) -> ModuleMember {
    p.files@[pos.file].modules@[pos.module].members@[pos.member]
}

/// The function at a position that holds one.
pub open spec fn function_at(p: Project, pos: Position) -> Function {
    member_at(p, pos)->Function_0
}

/// The identity of the module at a position.
pub open spec fn module_info_at(p: Project, pos: Position) -> ModuleInfoText {
    ModuleInfoText {
        address: module_at(p, pos).address@,
        name: module_at(p, pos).name@,
        file_path: file_at(p, pos).path@,
    }
}

/// The functions of the given name among the first `n` members of a
/// module, by position.
pub open spec fn member_positions(
    members: Seq<ModuleMember>,
    name: Seq<char>,
    file: int,
    module: int,
    n: nat,
) -> Seq<Position>
    decreases n,
{
    if n == 0 || n > members.len() {
        Seq::<Position>::empty()
    } else {
        let before = member_positions(members, name, file, module, (n - 1) as nat);
        if is_function_named(members[n - 1], name) {
            before.push(Position { file, module, member: n - 1 })
        } else {
            before
        }
    }
}

/// The functions of the given name in the first `n` modules of a file.
pub open spec fn module_positions(
    modules: Seq<ModuleDefinition>,
    name: Seq<char>,
    file: int,
    n: nat,
) -> Seq<Position>
    decreases n,
{
    if n == 0 || n > modules.len() {
        Seq::<Position>::empty()
    } else {
        module_positions(modules, name, file, (n - 1) as nat) + member_positions(
            modules[n - 1].members@,
            name,
            file,
            n - 1,
            modules[n - 1].members@.len(),
        )
    }
}

/// The functions of the given name in the first `n` files.
pub open spec fn file_positions(files: Seq<SourceFile>, name: Seq<char>, n: nat) -> Seq<Position>
    decreases n,
{
    if n == 0 || n > files.len() {
        Seq::<Position>::empty()
    } else {
        file_positions(files, name, (n - 1) as nat) + module_positions(
            files[n - 1].modules@,
            name,
            n - 1,
            files[n - 1].modules@.len(),
        )
    }
}

/// Every function of the given name in the project, in the order of
/// files, modules and members.
pub open spec fn matching_positions(p: Project, name: Seq<char>) -> Seq<Position> {
    file_positions(p.files@, name, p.files@.len())
}

/// Whether a definition record describes the function at a position.
pub open spec fn describes(d: FunctionDef, p: Project, pos: Position) -> bool {
    &&& in_project(p, pos)
    &&& member_at(p, pos) is Function
    &&& *d.function == function_at(p, pos)
    &&& d.module_info@ == module_info_at(p, pos)
    &&& d.location == function_at(p, pos).loc
}

/// What a module lookup asks for: a name, and for the owner of a function
/// also its address and the path of its file.
pub struct ModuleQuery {
    pub name: Seq<char>,
    pub owner: Option<(Seq<u8>, Seq<char>)>,
}

pub open spec fn module_matches(file: SourceFile, m: ModuleDefinition, q: ModuleQuery) -> bool {
    &&& m.name@ == q.name
    &&& q.owner matches Some(o) ==> m.address@ == o.0 && file.path@ == o.1
}

/// The first matching module of a file from index `from` on.
pub open spec fn module_index_from(file: SourceFile, q: ModuleQuery, from: int) -> Option<int>
    decreases file.modules@.len() - from,
{
    if from < 0 || from >= file.modules@.len() {
        None
    } else if module_matches(file, file.modules@[from], q) {
        Some(from)
    } else {
        module_index_from(file, q, from + 1)
    }
}

/// The first matching module of the files from index `from` on, as the
/// index of its file and its index in that file.
pub open spec fn module_place_from(files: Seq<SourceFile>, q: ModuleQuery, from: int) -> Option<(int, int)>
    decreases files.len() - from,
{
    if from < 0 || from >= files.len() {
        None
    } else {
        match module_index_from(files[from], q, 0) {
            Some(m) => Some((from, m)),
            None => module_place_from(files, q, from + 1),
        }
    }
}

/// The first module of the given name in the project.
pub open spec fn module_place_by_name(p: Project, name: Seq<char>) -> Option<(int, int)> {
    module_place_from(p.files@, ModuleQuery { name, owner: None }, 0)
}

/// The module with the identity that `info` gives.
pub open spec fn owning_module_place(p: Project, info: ModuleInfoText) -> Option<(int, int)> {
    module_place_from(
        p.files@,
        ModuleQuery { name: info.name, owner: Some((info.address, info.file_path)) },
        0,
    )
}

/// The first function of the given name among the members from index
/// `from` on.
pub open spec fn function_index_from(members: Seq<ModuleMember>, name: Seq<char>, from: int) -> Option<int>
    decreases members.len() - from,
{
    if from < 0 || from >= members.len() {
        None
    } else if is_function_named(members[from], name) {
        Some(from)
    } else {
        function_index_from(members, name, from + 1)
    }
}

/// The first function of the given name in a module.
pub open spec fn function_in_module(m: ModuleDefinition, name: Seq<char>) -> Option<Function> {
    match function_index_from(m.members@, name, 0) {
        Some(k) => Some(m.members@[k]->Function_0),
        None => None,
    }
}

/// A found index lies in range and at a function of that name.
pub proof fn lemma_function_index_from(members: Seq<ModuleMember>, name: Seq<char>, from: int)
    requires
        0 <= from,
    ensures
        function_index_from(members, name, from) matches Some(k) ==> from <= k < members.len()
            && is_function_named(members[k], name),
    decreases members.len() - from,
{
    if from < members.len() && !is_function_named(members[from], name) {
        lemma_function_index_from(members, name, from + 1);
    }
}

/// A found module index lies in range and at a matching module.
pub proof fn lemma_module_index_from(file: SourceFile, q: ModuleQuery, from: int)
    requires
        0 <= from,
    ensures
        module_index_from(file, q, from) matches Some(k) ==> from <= k < file.modules@.len()
            && module_matches(file, file.modules@[k], q),
    decreases file.modules@.len() - from,
{
    if from < file.modules@.len() && !module_matches(file, file.modules@[from], q) {
        lemma_module_index_from(file, q, from + 1);
    }
}

/// A found place lies in range and at a matching module.
pub proof fn lemma_module_place_from(files: Seq<SourceFile>, q: ModuleQuery, from: int)
    requires
        0 <= from,
    ensures
        module_place_from(files, q, from) matches Some(place) ==> from <= place.0 < files.len() && 0
            <= place.1 < files[place.0].modules@.len() && module_matches(
            files[place.0],
            files[place.0].modules@[place.1],
            q,
        ),
    decreases files.len() - from,
{
    if from < files.len() {
        lemma_module_index_from(files[from], q, 0);
        if module_index_from(files[from], q, 0) is None {
            lemma_module_place_from(files, q, from + 1);
        }
    }
}

/// The functions found among the first `n` members are exactly the
/// functions of that name among them.
pub proof fn lemma_member_positions(
    members: Seq<ModuleMember>,
    name: Seq<char>,
    file: int,
    module: int,
    n: nat,
    pos: Position,
)
    requires
        n <= members.len(),
    ensures
        member_positions(members, name, file, module, n).contains(pos) <==> (pos.file == file
            && pos.module == module && 0 <= pos.member < n && is_function_named(
            members[pos.member],
            name,
        )),
    decreases n,
{
    if n > 0 {
        let before = member_positions(members, name, file, module, (n - 1) as nat);
        let here = Position { file, module, member: n - 1 };
        lemma_member_positions(members, name, file, module, (n - 1) as nat, pos);
        if is_function_named(members[n - 1], name) {
            let all = before.push(here);
            if all.contains(pos) {
                let k = choose|k: int| 0 <= k < all.len() && all[k] == pos;
                if k < before.len() {
                    assert(before[k] == pos);
                }
            }
            if before.contains(pos) {
                let k = choose|k: int| 0 <= k < before.len() && before[k] == pos;
                assert(all[k] == pos);
            }
            if pos == here {
                assert(all[before.len() as int] == pos);
            }
        }
    } else {
        assert(member_positions(members, name, file, module, n).len() == 0);
    }
}

/// What a concatenation holds is what one of its parts holds.
pub proof fn lemma_concat_contains(a: Seq<Position>, b: Seq<Position>, pos: Position)
    ensures
        (a + b).contains(pos) <==> (a.contains(pos) || b.contains(pos)),
{
    if (a + b).contains(pos) {
        let k = choose|k: int| 0 <= k < (a + b).len() && (a + b)[k] == pos;
        if k < a.len() {
            assert(a[k] == pos);
        } else {
            assert(b[k - a.len()] == pos);
        }
    }
    if a.contains(pos) {
        let k = choose|k: int| 0 <= k < a.len() && a[k] == pos;
        assert((a + b)[k] == pos);
    }
    if b.contains(pos) {
        let k = choose|k: int| 0 <= k < b.len() && b[k] == pos;
        assert((a + b)[a.len() + k] == pos);
    }
}

/// The functions found in the first `n` modules of a file are exactly the
/// functions of that name in them.
pub proof fn lemma_module_positions(
    modules: Seq<ModuleDefinition>,
    name: Seq<char>,
    file: int,
    n: nat,
    pos: Position,
)
    requires
        n <= modules.len(),
    ensures
        module_positions(modules, name, file, n).contains(pos) <==> (pos.file == file && 0
            <= pos.module < n && 0 <= pos.member < modules[pos.module].members@.len()
            && is_function_named(modules[pos.module].members@[pos.member], name)),
    decreases n,
{
    if n > 0 {
        let before = module_positions(modules, name, file, (n - 1) as nat);
        let members = modules[n - 1].members@;
        let here = member_positions(members, name, file, n - 1, members.len());
        lemma_module_positions(modules, name, file, (n - 1) as nat, pos);
        lemma_member_positions(members, name, file, n - 1, members.len(), pos);
        lemma_concat_contains(before, here, pos);
    } else {
        assert(module_positions(modules, name, file, n).len() == 0);
    }
}

/// The functions found in the first `n` files are exactly the functions
/// of that name in them.
pub proof fn lemma_file_positions(files: Seq<SourceFile>, name: Seq<char>, n: nat, pos: Position)
    requires
        n <= files.len(),
    ensures
        file_positions(files, name, n).contains(pos) <==> (0 <= pos.file < n && 0 <= pos.module
            < files[pos.file].modules@.len() && 0 <= pos.member
            < files[pos.file].modules@[pos.module].members@.len() && is_function_named(
            files[pos.file].modules@[pos.module].members@[pos.member],
            name,
        )),
    decreases n,
{
    if n > 0 {
        let before = file_positions(files, name, (n - 1) as nat);
        let modules = files[n - 1].modules@;
        let here = module_positions(modules, name, n - 1, modules.len());
        lemma_file_positions(files, name, (n - 1) as nat, pos);
        lemma_module_positions(modules, name, n - 1, modules.len(), pos);
        lemma_concat_contains(before, here, pos);
    } else {
        assert(file_positions(files, name, n).len() == 0);
    }
}

/// A lookup by name finds every function of that name and nothing else:
/// a place is listed exactly if it lies in the project and holds a
/// function whose declared name is the name asked for.
pub proof fn law_lookup_finds_exactly_the_named(p: Project, name: Seq<char>, pos: Position)
    ensures
        matching_positions(p, name).contains(pos) <==> (in_project(p, pos) && is_function_named(
            member_at(p, pos),
            name,
        )),
{
    lemma_file_positions(p.files@, name, p.files@.len(), pos);
}

/// Read-only lookups over a project.
pub struct FunctionIndex<'a> {
    pub project: &'a Project,
}

impl<'a> FunctionIndex<'a> {
    pub fn new(project: &'a Project) -> (r: Self)
        ensures
            r.project == project,
    {
        FunctionIndex { project }
    }

    /// Every function whose declared name is exactly `name`, in the order
    /// of files, modules and members.
    pub fn find_by_name(&self, name: &str) -> (r: Vec<FunctionDef<'a>>)
        ensures
            r@.len() == matching_positions(*self.project, name@).len(),
            forall|k: int|
                0 <= k < r@.len() ==> describes(
                    #[trigger] r@[k],
                    *self.project,
                    matching_positions(*self.project, name@)[k],
                ),
    {
        let project: &'a Project = self.project;
        let mut r: Vec<FunctionDef<'a>> = Vec::new();
        let ghost mut found: Seq<Position> = Seq::empty();
        let mut fi: usize = 0;
        while fi < project.files.len()
            invariant
                fi <= project.files.len(),
                found == file_positions(project.files@, name@, fi as nat),
                r@.len() == found.len(),
                forall|k: int| 0 <= k < r@.len() ==> describes(#[trigger] r@[k], *project, found[k]),
            decreases project.files.len() - fi,
        {
            let file = &project.files[fi];
            let ghost before_file = found;
            let mut mi: usize = 0;
            while mi < file.modules.len()
                invariant
                    fi < project.files.len(),
                    *file == project.files@[fi as int],
                    mi <= file.modules.len(),
                    found == before_file + module_positions(file.modules@, name@, fi as int, mi as nat),
                    r@.len() == found.len(),
                    forall|k: int| 0 <= k < r@.len() ==> describes(#[trigger] r@[k], *project, found[k]),
                decreases file.modules.len() - mi,
            {
                let module = &file.modules[mi];
                let ghost before_module = found;
                let mut ki: usize = 0;
                while ki < module.members.len()
                    invariant
                        fi < project.files.len(),
                        *file == project.files@[fi as int],
                        mi < file.modules.len(),
                        *module == file.modules@[mi as int],
                        ki <= module.members.len(),
                        found == before_module + member_positions(
                            module.members@,
                            name@,
                            fi as int,
                            mi as int,
                            ki as nat,
                        ),
                        r@.len() == found.len(),
                        forall|k: int|
                            0 <= k < r@.len() ==> describes(#[trigger] r@[k], *project, found[k]),
                    decreases module.members.len() - ki,
                {
                    match &module.members[ki] {
                        ModuleMember::Function(f) => {
                            if same_text(f.name.as_str(), name) {
                                let address = module.address.clone();
                                assert(address@ =~= module.address@);
                                let def = FunctionDef {
                                    function: f,
                                    module_info: ModuleInfo {
                                        address,
                                        name: module.name.clone(),
                                        file_path: file.path.clone(),
                                    },
                                    location: f.loc,
                                };
                                let ghost pos = Position {
                                    file: fi as int,
                                    module: mi as int,
                                    member: ki as int,
                                };
                                proof {
                                    assert(describes(def, *project, pos));
                                    found = found.push(pos);
                                }
                                r.push(def);
                            }
                        },
                        _ => {},
                    }
                    ki += 1;
                }
                mi += 1;
            }
            fi += 1;
        }
        r
    }

    /// The first module that matches, as the index of its file and its
    /// index in that file.
    pub fn locate_module(&self, name: &str, owner: Option<&ModuleInfo>) -> (r: Option<(usize, usize)>)
        ensures
            match r {
                Some(place) => module_place_from(
                    self.project.files@,
                    Self::query(name@, owner),
                    0,
                ) == Some((place.0 as int, place.1 as int)),
                None => module_place_from(self.project.files@, Self::query(name@, owner), 0) is None,
            },
    {
        let project: &'a Project = self.project;
        let ghost q = Self::query(name@, owner);
        let mut fi: usize = 0;
        while fi < project.files.len()
            invariant
                fi <= project.files.len(),
                q == Self::query(name@, owner),
                project == self.project,
                module_place_from(project.files@, q, 0) == module_place_from(project.files@, q, fi as int),
            decreases project.files.len() - fi,
        {
            let file = &project.files[fi];
            let mut mi: usize = 0;
            while mi < file.modules.len()
                invariant
                    fi < project.files.len(),
                    *file == project.files@[fi as int],
                    mi <= file.modules.len(),
                    q == Self::query(name@, owner),
                    project == self.project,
                    module_place_from(project.files@, q, 0) == module_place_from(
                        project.files@,
                        q,
                        fi as int,
                    ),
                    module_index_from(*file, q, 0) == module_index_from(*file, q, mi as int),
                decreases file.modules.len() - mi,
            {
                let module = &file.modules[mi];
                let mut hit = same_text(module.name.as_str(), name);
                if hit {
                    match owner {
                        Some(info) => {
                            hit = same_bytes(&module.address, &info.address) && same_text(
                                file.path.as_str(),
                                info.file_path.as_str(),
                            );
                        },
                        None => {},
                    }
                }
                assert(hit == module_matches(*file, *module, q));
                if hit {
                    assert(module_index_from(*file, q, mi as int) == Some(mi as int));
                    assert(module_place_from(project.files@, q, fi as int) == Some(
                        (fi as int, mi as int),
                    ));
                    return Some((fi, mi));
                }
                mi += 1;
            }
            fi += 1;
        }
        None
    }

    /// What a lookup by name, and by owner where one is given, asks for.
    pub open spec fn query(name: Seq<char>, owner: Option<&ModuleInfo>) -> ModuleQuery {
        ModuleQuery {
            name,
            owner: match owner {
                Some(info) => Some((info.address@, info.file_path@)),
                None => None,
            },
        }
    }

    /// The first module of the given name, with the path of its file.
    pub fn find_module_by_name(&self, name: &str) -> (r: Option<(&'a ModuleDefinition, &'a String)>)
        ensures
            match r {
                Some(found) => module_place_by_name(*self.project, name@) matches Some(place)
                    && *found.0 == self.project.files@[place.0].modules@[place.1] && *found.1
                    == self.project.files@[place.0].path,
                None => module_place_by_name(*self.project, name@) is None,
            },
    {
        let project: &'a Project = self.project;
        proof {
            lemma_module_place_from(project.files@, Self::query(name@, None), 0);
        }
        match self.locate_module(name, None) {
            Some((fi, mi)) => Some((&project.files[fi].modules[mi], &project.files[fi].path)),
            None => None,
        }
    }

    /// The module that owns a function, found by the identity that the
    /// function's record carries.
    pub fn find_owning_module(&self, module_info: &ModuleInfo) -> (r: Option<&'a ModuleDefinition>)
        ensures
            match r {
                Some(found) => owning_module_place(*self.project, module_info@) matches Some(place)
                    && *found == self.project.files@[place.0].modules@[place.1],
                None => owning_module_place(*self.project, module_info@) is None,
            },
    {
        let project: &'a Project = self.project;
        proof {
            lemma_module_place_from(
                project.files@,
                Self::query(module_info.name@, Some(module_info)),
                0,
            );
        }
        match self.locate_module(module_info.name.as_str(), Some(module_info)) {
            Some((fi, mi)) => Some(&project.files[fi].modules[mi]),
            None => None,
        }
    }

    /// The first function of the given name in a module.
    pub fn find_function(module: &'a ModuleDefinition, name: &str) -> (r: Option<&'a Function>)
        ensures
            match r {
                Some(f) => function_in_module(*module, name@) == Some(*f),
                None => function_in_module(*module, name@) is None,
            },
    {
        let mut ki: usize = 0;
        while ki < module.members.len()
            invariant
                ki <= module.members.len(),
                function_index_from(module.members@, name@, 0) == function_index_from(
                    module.members@,
                    name@,
                    ki as int,
                ),
            decreases module.members.len() - ki,
        {
            match &module.members[ki] {
                ModuleMember::Function(f) => {
                    if same_text(f.name.as_str(), name) {
                        return Some(f);
                    }
                },
                _ => {},
            }
            ki += 1;
        }
        None
    }
}

} // verus!
