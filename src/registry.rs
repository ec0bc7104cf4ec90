//! The registry: modules by name, built once from the module directory.

use vstd::prelude::*;
use crate::module::{ContentView, Module, ModuleError, ModuleFault};
use crate::session::{inv, start_of, AuthType, ExecError, Execution, Failure};
use crate::text::same_text;

verus! {

/// What loading one module file gave: its registry key and the module or
/// the fault.
pub open spec fn loaded_view(v: Seq<(String, Result<Module, ModuleError>)>) -> Seq<
    (Seq<char>, Result<ContentView, ModuleFault>),
> {
    v.map_values(
        |p: (String, Result<Module, ModuleError>)|
            (
                p.0@,
                match p.1 {
                    Ok(m) => Ok(m@),
                    Err(e) => Err(e.fault()),
                },
            ),
    )
}

/// The modules that loaded, in order.
pub open spec fn registered(e: Seq<(Seq<char>, Result<ContentView, ModuleFault>)>) -> Seq<
    (Seq<char>, ContentView),
>
    decreases e.len(),
{
    if e.len() == 0 {
        seq![]
    } else {
        let r = registered(e.drop_last());
        match e.last().1 {
            Ok(c) => r.push((e.last().0, c)),
            Err(_) => r,
        }
    }
}

/// The files that failed to load, with their faults, in order.
pub open spec fn rejected(e: Seq<(Seq<char>, Result<ContentView, ModuleFault>)>) -> Seq<
    (Seq<char>, ModuleFault),
>
    decreases e.len(),
{
    if e.len() == 0 {
        seq![]
    } else {
        let r = rejected(e.drop_last());
        match e.last().1 {
            Ok(_) => r,
            Err(f) => r.push((e.last().0, f)),
        }
    }
}

/// The module registered last under `k`.
pub open spec fn find(s: Seq<(Seq<char>, ContentView)>, k: Seq<char>) -> Option<ContentView>
    decreases s.len(),
{
    if s.len() == 0 {
        None
    } else if s.last().0 == k {
        Some(s.last().1)
    } else {
        find(s.drop_last(), k)
    }
}

/// A list of registrations as a map: a later one replaces an earlier one.
pub open spec fn map_of(s: Seq<(Seq<char>, ContentView)>) -> Map<Seq<char>, ContentView> {
    Map::new(|k: Seq<char>| find(s, k) is Some, |k: Seq<char>| find(s, k)->Some_0)
}

pub open spec fn diagnostics_view(v: Seq<(String, ModuleError)>) -> Seq<(Seq<char>, ModuleFault)> {
    v.map_values(|p: (String, ModuleError)| (p.0@, p.1.fault()))
}

/// The registered modules, by name.
pub struct ModuleTree {
    tree: Vec<(String, Module)>,
}

impl ModuleTree {
    pub closed spec fn entries(&self) -> Seq<(Seq<char>, ContentView)> {
        self.tree@.map_values(|p: (String, Module)| (p.0@, p.1@))
    }

    pub open spec fn view(&self) -> Map<Seq<char>, ContentView> {
        map_of(self.entries())
    }

    /// Builds the registry from the loaded module files: each module that
    /// loaded is registered under its key (a later file replaces an earlier
    /// one of the same key), and each failure is returned as a diagnostic
    /// instead of stopping the build.
    pub fn new(loaded: Vec<(String, Result<Module, ModuleError>)>) -> (r: (
        ModuleTree,
        Vec<(String, ModuleError)>,
    ))
        ensures
            r.0@ == map_of(registered(loaded_view(loaded@))),
            diagnostics_view(r.1@) == rejected(loaded_view(loaded@)),
    {
        let ghost all = loaded_view(loaded@);
        let mut rest = loaded;
        let mut tree: Vec<(String, Module)> = Vec::new();
        let mut diags: Vec<(String, ModuleError)> = Vec::new();
        let ghost mut k: int = 0;
        while rest.len() > 0
            invariant
                0 <= k <= all.len(),
                loaded_view(rest@) =~= all.subrange(k, all.len() as int),
                tree@.map_values(|p: (String, Module)| (p.0@, p.1@)) =~= registered(all.subrange(0, k)),
                diagnostics_view(diags@) =~= rejected(all.subrange(0, k)),
            decreases rest.len(),
        {
            let ghost before = rest@;
            let (name, res) = rest.remove(0);
            proof {
                assert(loaded_view(before).len() == before.len());
                assert(k < all.len());
                assert(loaded_view(before)[0] == all.subrange(k, all.len() as int)[0]);
                assert(loaded_view(before)[0] == all[k]);
                assert(loaded_view(before)[0] == (name@, match res { Ok(m) => Ok(m@), Err(e) => Err(e.fault()) }));
                assert(loaded_view(rest@) =~= loaded_view(before).subrange(1, before.len() as int));
                assert(all.subrange(0, k + 1).drop_last() =~= all.subrange(0, k));
            }
            let ghost tv = tree@.map_values(|p: (String, Module)| (p.0@, p.1@));
            let ghost dv = diagnostics_view(diags@);
            match res {
                Ok(m) => {
                    tree.push((name, m));
                    assert(tree@.map_values(|p: (String, Module)| (p.0@, p.1@)) =~= tv.push((all[k].0, all[k].1->Ok_0)));
                },
                Err(e) => {
                    diags.push((name, e));
                    assert(diagnostics_view(diags@) =~= dv.push((all[k].0, all[k].1->Err_0)));
                },
            }
            proof {
                k = k + 1;
            }
        }
        assert(all.subrange(0, k) =~= all);
        (ModuleTree { tree }, diags)
    }

    /// The module registered under `name`.
    pub fn get(&self, name: &str) -> (r: Option<&Module>)
        ensures
            match r {
                Some(m) => self@.contains_key(name@) && self@[name@] == m@,
                None => !self@.contains_key(name@),
            },
    {
        let ghost s = self.entries();
        let mut i: usize = self.tree.len();
        assert(s.subrange(0, i as int) =~= s);
        while i > 0
            invariant
                i <= self.tree.len(),
                s == self.entries(),
                find(s, name@) == find(s.subrange(0, i as int), name@),
            decreases i,
        {
            let ghost pre = s.subrange(0, i as int);
            assert(pre.last() == (self.tree@[i - 1].0@, self.tree@[i - 1].1@));
            if same_text(self.tree[i - 1].0.as_str(), name) {
                return Some(&self.tree[i - 1].1);
            }
            assert(pre.drop_last() =~= s.subrange(0, i - 1));
            i = i - 1;
        }
        None
    }

    /// Whether a module is registered under `module_name`.
    pub fn check_module(&self, module_name: &str) -> (r: bool)
        ensures
            r == self@.contains_key(module_name@),
    {
        self.get(module_name).is_some()
    }

    /// Starts an execution of the module registered under `module_name`
    /// against `target`; a name that is not registered gives a
    /// `ModuleNotFound` failure naming it.
    pub fn run_module(&self, module_name: &str, target: &str, auth: &AuthType) -> (r: Result<
        Execution,
        Failure,
    >)
        ensures
            self@.contains_key(module_name@) <==> r is Ok,
            r matches Ok(e) ==> e@ == start_of(self@[module_name@], *auth) && inv(e@)
                && e.module_label() == module_name@ && e.target_label() == target@,
            r matches Err(f) ==> f.phase == ExecError::ModuleNotFound && f.module@ == module_name@
                && f.target@ == target@,
    {
        match self.get(module_name) {
            Some(m) => {
                let mut e = m.execute(auth);
                e.set_context(module_name, target);
                Ok(e)
            },
            None => Err(
                Failure {
                    module: module_name.to_owned(),
                    target: target.to_owned(),
                    phase: ExecError::ModuleNotFound,
                },
            ),
        }
    }

    /// Running every module in one go is not supported: each module is run
    /// on its own with `run_module`.
    pub fn run_all(&self, auth: &AuthType) -> (r: Result<(), ExecError>)
        ensures
            r == Err::<(), ExecError>(ExecError::Unsupported),
    {
        Err(ExecError::Unsupported)
    }
}

} // verus!
