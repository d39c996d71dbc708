//! A lowered module: its imports, exports and declarations, and lookups
//! of functions by plain and by namespace-qualified name.
use vstd::prelude::*;
use crate::base::{DiagnosticBag, ModuleId};
use crate::hir::decl::{HirDecl, HirFunction};
use crate::hir::view::{decls_v, DeclV, FunctionV};
use crate::text::{push_str, string_clone};

verus! {

/// The parts of a namespace path joined by "::".
pub open spec fn join_path(path: Seq<Seq<char>>) -> Seq<char>
    decreases path.len(),
{
    if path.len() == 0 {
        Seq::empty()
    } else if path.len() == 1 {
        path[0]
    } else {
        join_path(path.drop_last()) + "::"@ + path.last()
    }
}

/// The name of `leaf` inside the namespaces of `path`: `a::b::leaf`, or
/// `leaf` itself at the top level.
pub open spec fn qualified(path: Seq<Seq<char>>, leaf: Seq<char>) -> Seq<char> {
    if path.len() == 0 { leaf } else { join_path(path) + "::"@ + leaf }
}

/// The views of a list of strings.
pub open spec fn strings_v(s: Seq<String>) -> Seq<Seq<char>> {
    s.map_values(|x: String| x@)
}

/// The name `leaf` qualified by the namespaces `namespace_path`.
pub fn qualified_name(namespace_path: &Vec<String>, leaf: &str) -> (r: String)
    ensures
        r@ == qualified(strings_v(namespace_path@), leaf@),
{
    let ghost path = strings_v(namespace_path@);
    if namespace_path.len() == 0 {
        return String::from_str(leaf);
    }
    let mut s = String::new();
    let mut i: usize = 0;
    while i < namespace_path.len()
        invariant
            0 <= i <= namespace_path@.len(),
            path == strings_v(namespace_path@),
            s@ == join_path(path.subrange(0, i as int)),
        decreases namespace_path@.len() - i,
    {
        proof {
            let sub = path.subrange(0, i + 1);
            assert(sub.drop_last() == path.subrange(0, i as int));
            assert(sub.last() == namespace_path@[i as int]@);
        }
        if i > 0 {
            push_str(&mut s, "::");
        }
        push_str(&mut s, namespace_path[i].as_str());
        proof {
            if i == 0 {
                assert(path.subrange(0, 1).len() == 1);
                assert(s@ == path.subrange(0, 1)[0]);
            } else {
                assert(s@ == join_path(path.subrange(0, i as int)) + "::"@ + namespace_path@[i as int]@);
            }
        }
        i += 1;
    }
    proof {
        assert(path.subrange(0, path.len() as int) == path);
    }
    push_str(&mut s, "::");
    push_str(&mut s, leaf);
    s
}

/// An imported binding: `import { name as alias } from "module"`.
#[derive(Debug, PartialEq, Eq, Hash)]
pub struct HirImport {
    pub module: String,
    pub name: String,
    pub alias: Option<String>,
}

/// An exported binding: `export { name as alias }`.
#[derive(Debug, PartialEq, Eq, Hash)]
pub struct HirExport {
    pub name: String,
    pub alias: Option<String>,
}

/// A lowered module.
#[derive(Debug)]
pub struct HirProgram {
    pub module: ModuleId,
    pub imports: Vec<HirImport>,
    pub exports: Vec<HirExport>,
    pub declarations: Vec<HirDecl>,
    pub diagnostics: DiagnosticBag,
    /// The name of the synthesized function that runs the module's
    /// top-level statements, once it has been made.
    pub tla_main_name: Option<String>,
}

/// Whether `f` is the function named `q` when seen from inside the
/// namespaces of `path`.
pub open spec fn fn_matches(f: FunctionV, q: Seq<char>, path: Seq<Seq<char>>) -> bool {
    qualified(path, f.name) == q
}

/// The first function of `decls`, from position `i` on and searching
/// namespaces depth first where they stand, whose qualified name is `q`.
pub open spec fn find_in(decls: Seq<DeclV>, q: Seq<char>, path: Seq<Seq<char>>, i: nat) -> Option<FunctionV>
    decreases decls, decls.len() - i,
{
    if i >= decls.len() {
        None
    } else {
        match decls[i as int] {
            DeclV::Function(f) => if fn_matches(f, q, path) {
                Some(f)
            } else {
                find_in(decls, q, path, i + 1)
            },
            DeclV::Namespace { name, members } => {
                proof {
                    assert(decreases_to!(decls => decls[i as int]));
                }
                match find_in(members, q, path.push(name), 0) {
                    Some(f) => Some(f),
                    None => find_in(decls, q, path, i + 1),
                }
            },
            _ => find_in(decls, q, path, i + 1),
        }
    }
}

/// The first top-level function of `decls` from position `i` on named `name`.
pub open spec fn find_top(decls: Seq<DeclV>, name: Seq<char>, i: nat) -> Option<FunctionV>
    decreases decls.len() - i,
{
    if i >= decls.len() {
        None
    } else {
        match decls[i as int] {
            DeclV::Function(f) => if f.name == name { Some(f) } else { find_top(decls, name, i + 1) },
            _ => find_top(decls, name, i + 1),
        }
    }
}

impl HirProgram {
    pub fn new(module: ModuleId) -> (p: HirProgram)
        ensures
            p.module == module,
            p.imports@.len() == 0,
            p.exports@.len() == 0,
            p.declarations@.len() == 0,
            p.diagnostics@.len() == 0,
            p.tla_main_name is None,
    {
        HirProgram {
            module,
            imports: Vec::new(),
            exports: Vec::new(),
            declarations: Vec::new(),
            diagnostics: DiagnosticBag::new(),
            tla_main_name: None,
        }
    }

    /// The first top-level function named `name`.
    pub fn find_function_by_name(&self, name: &String) -> (r: Option<&HirFunction>)
        ensures
            match r {
                Some(f) => find_top(decls_v(self.declarations@), name@, 0) == Some(f@),
                None => find_top(decls_v(self.declarations@), name@, 0) is None,
            },
    {
        let ghost ds = decls_v(self.declarations@);
        let mut i: usize = 0;
        while i < self.declarations.len()
            invariant
                0 <= i <= self.declarations@.len(),
                ds == decls_v(self.declarations@),
                find_top(ds, name@, 0) == find_top(ds, name@, i as nat),
            decreases self.declarations@.len() - i,
        {
            let decl = &self.declarations[i];
            proof {
                assert(ds[i as int] == crate::hir::view::decl_v(*decl));
            }
            match decl {
                HirDecl::Function(f) => {
                    if f.name == *name {
                        return Some(f);
                    }
                },
                _ => {},
            }
            i += 1;
        }
        None
    }

    /// The first function whose namespace-qualified name is `qualified`.
    pub fn find_function_by_qualified_name(&self, qualified: &String) -> (r: Option<&HirFunction>)
        ensures
            match r {
                Some(f) => find_in(decls_v(self.declarations@), qualified@, Seq::empty(), 0) == Some(f@),
                None => find_in(decls_v(self.declarations@), qualified@, Seq::empty(), 0) is None,
            },
    {
        let path: Vec<String> = Vec::new();
        proof {
            assert(strings_v(path@) == Seq::<Seq<char>>::empty());
        }
        find_function_in_decls(&self.declarations, qualified, &path)
    }

    pub fn push_decl(&mut self, decl: HirDecl)
        ensures
            final(self).declarations@ == old(self).declarations@.push(decl),
            final(self).module == old(self).module,
            final(self).imports == old(self).imports,
            final(self).exports == old(self).exports,
            final(self).diagnostics == old(self).diagnostics,
            final(self).tla_main_name == old(self).tla_main_name,
    {
        self.declarations.push(decl);
    }

    pub fn decl_count(&self) -> (n: usize)
        ensures
            n == self.declarations@.len(),
    {
        self.declarations.len()
    }
}

/// Whether `f` is named `qualified` as seen from inside `path`.
fn fn_name_matches(f: &HirFunction, qualified: &String, path: &Vec<String>) -> (b: bool)
    ensures
        b == fn_matches(f@, qualified@, strings_v(path@)),
{
    if path.len() == 0 {
        f.name == *qualified
    } else {
        let q = qualified_name(path, f.name.as_str());
        q == *qualified
    }
}

fn find_function_in_decls<'a>(decls: &'a Vec<HirDecl>, qualified: &String, path: &Vec<String>) -> (r: Option<
    &'a HirFunction,
>)
    ensures
        match r {
            Some(f) => find_in(decls_v(decls@), qualified@, strings_v(path@), 0) == Some(f@),
            None => find_in(decls_v(decls@), qualified@, strings_v(path@), 0) is None,
        },
    decreases decls,
{
    let ghost ds = decls_v(decls@);
    let ghost pv = strings_v(path@);
    let mut i: usize = 0;
    while i < decls.len()
        invariant
            0 <= i <= decls@.len(),
            ds == decls_v(decls@),
            pv == strings_v(path@),
            find_in(ds, qualified@, pv, 0) == find_in(ds, qualified@, pv, i as nat),
        decreases decls@.len() - i,
    {
        let decl = &decls[i];
        proof {
            assert(ds[i as int] == crate::hir::view::decl_v(*decl));
            assert(decreases_to!(decls => decls@[i as int]));
        }
        match decl {
            HirDecl::Function(f) => {
                if fn_name_matches(f, qualified, path) {
                    return Some(f);
                }
            },
            HirDecl::Namespace { name, members } => {
                let mut new_path: Vec<String> = Vec::new();
                let mut j: usize = 0;
                while j < path.len()
                    invariant
                        0 <= j <= path@.len(),
                        new_path@.len() == j,
                        strings_v(new_path@) == strings_v(path@).subrange(0, j as int),
                    decreases path@.len() - j,
                {
                    let c = string_clone(&path[j]);
                    let ghost before = new_path@;
                    new_path.push(c);
                    proof {
                        assert(new_path@ == before.push(c));
                        assert(strings_v(before) == strings_v(path@).subrange(0, j as int));
                        assert forall|k: int| 0 <= k < j + 1 implies #[trigger] strings_v(new_path@)[k] == strings_v(path@).subrange(0, j + 1)[k] by {
                            if k < j {
                                assert(strings_v(new_path@)[k] == new_path@[k]@);
                                assert(new_path@[k] == before[k]);
                                assert(strings_v(before)[k] == before[k]@);
                            } else {
                                assert(strings_v(new_path@)[k] == c@);
                            }
                        }
                        assert(strings_v(new_path@) =~= strings_v(path@).subrange(0, j + 1));
                    }
                    j += 1;
                }
                new_path.push(string_clone(name));
                proof {
                    assert(strings_v(path@).subrange(0, path@.len() as int) == strings_v(path@));
                    assert(strings_v(new_path@) == pv.push(name@));
                    assert(decreases_to!(decls => members));
                }
                match find_function_in_decls(members, qualified, &new_path) {
                    Some(f) => return Some(f),
                    None => {},
                }
            },
            _ => {},
        }
        i += 1;
    }
    None
}

} // verus!
