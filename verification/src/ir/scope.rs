use vstd::prelude::*;

use super::scopes::{anonymous_name, root_name};
use crate::common::path::{append_spec, NamePath};
use crate::common::string::{Utf16Str, Utf16String};

verus! {

/// A variable of a scope: its name and whether it can be assigned.
pub struct Variable {
    pub name: NamePath,
    pub is_mutable: bool,
}

/// A scope of the static analysis: its name, the scope it is in, the namespace it stands
/// for, and its variables.
pub struct Scope {
    pub name: Utf16String,
    pub parent: Option<Box<Scope>>,
    pub ns_name: Option<Utf16String>,
    pub variables: Vec<Variable>,
}

/// The variables by their names and whether they can be assigned.
pub open spec fn vars_view(vars: Seq<Variable>) -> Seq<(Seq<u16>, bool)> {
    vars.map_values(|v: Variable| (v.name@, v.is_mutable))
}

/// Whether a variable of `vars` has the name `name`.
pub open spec fn vars_have(vars: Seq<Variable>, name: Seq<u16>) -> bool {
    exists|i: int| 0 <= i < vars.len() && (#[trigger] vars[i]).name@ == name
}

/// The place of the first variable of `vars` named `name`.
pub open spec fn first_var(vars: Seq<Variable>, name: Seq<u16>) -> int {
    choose|i: int|
        0 <= i < vars.len() && (#[trigger] vars[i]).name@ == name && forall|j: int|
            0 <= j < i ==> (#[trigger] vars[j]).name@ != name
}

/// Whether the scope, or a scope it is in, has a variable named `name`.
pub open spec fn scope_has(s: Scope, name: Seq<u16>) -> bool
    decreases s,
{
    vars_have(s.variables@, name) || match s.parent {
        Some(p) => scope_has(*p, name),
        None => false,
    }
}

/// The variable named `name` that the scope sees: its own first, then those of the scopes
/// it is in, innermost first.
pub open spec fn scope_get(s: Scope, name: Seq<u16>) -> Option<Variable>
    decreases s,
{
    if vars_have(s.variables@, name) {
        Some(s.variables@[first_var(s.variables@, name)])
    } else {
        match s.parent {
            Some(p) => scope_get(*p, name),
            None => None,
        }
    }
}

/// What adding a variable named `name` does, from the scope `o` to the scope `n`, with the
/// result `r`: nothing, and false, where a scope sees the name already; otherwise the
/// variable is added, and in a namespace scope also to the scope it is in under the name
/// prefixed with the namespace's, whose result is given.
pub open spec fn add_rel(o: Scope, n: Scope, name: Seq<u16>, is_mutable: bool, r: bool) -> bool
    decreases o,
{
    if scope_has(o, name) {
        n == o && !r
    } else {
        &&& n.name == o.name
        &&& n.ns_name == o.ns_name
        &&& vars_view(n.variables@) == vars_view(o.variables@).push((name, is_mutable))
        &&& match o.ns_name {
            Some(ns) => match o.parent {
                Some(p) => n.parent matches Some(np) && add_rel(*p, *np, append_spec(ns@, name), is_mutable, r),
                None => n.parent == o.parent && r,
            },
            None => n.parent == o.parent && r,
        }
    }
}

/// The index of the first variable of `vars` named `name`, if any.
fn find_var(vars: &Vec<Variable>, name: &NamePath) -> (r: Option<usize>)
    ensures
        r is Some <==> vars_have(vars@, name@),
        r matches Some(i) ==> i == first_var(vars@, name@) && i < vars@.len(),
{
    let mut i: usize = 0;
    while i < vars.len()
        invariant
            i <= vars@.len(),
            forall|j: int| 0 <= j < i ==> (#[trigger] vars@[j]).name@ != name@,
        decreases vars@.len() - i,
    {
        if vars[i].name.eq_path(name) {
            proof {
                let k = first_var(vars@, name@);
                assert(0 <= k < vars@.len() && vars@[k].name@ == name@ && forall|j: int|
                    0 <= j < k ==> (#[trigger] vars@[j]).name@ != name@);
                assert(k == i);
            }
            return Some(i);
        }
        i = i + 1;
    }
    None
}

impl Scope {
    /// The root scope: named `<root>`, with no variables.
    pub fn new() -> (r: Scope)
        ensures
            r.name@ == root_name(),
            r.parent is None,
            r.ns_name is None,
            r.variables@.len() == 0,
    {
        let units: [u16; 6] = [60u16, 114u16, 111u16, 111u16, 116u16, 62u16];
        let name = Utf16String::from_utf16_str(&Utf16Str::new(&units));
        assert(name@ =~= root_name());
        Scope { name, parent: None, ns_name: None, variables: Vec::new() }
    }

    /// An anonymous scope with no variables and no parent.
    fn anonymous() -> (r: Scope)
        ensures
            r.name@ == anonymous_name(),
            r.parent is None,
            r.ns_name is None,
            r.variables@.len() == 0,
    {
        let units: [u16; 11] = [60u16, 97u16, 110u16, 111u16, 110u16, 121u16, 109u16, 111u16, 117u16, 115u16, 62u16];
        let name = Utf16String::from_utf16_str(&Utf16Str::new(&units));
        assert(name@ =~= anonymous_name());
        Scope { name, parent: None, ns_name: None, variables: Vec::new() }
    }

    /// A scope named `name` inside this one.
    pub fn create_child_scope(self, name: Utf16String) -> (r: Scope)
        ensures
            r.name == name,
            r.parent == Some(Box::new(self)),
            r.ns_name is None,
            r.variables@.len() == 0,
    {
        Scope { name, parent: Some(Box::new(self)), ns_name: None, variables: Vec::new() }
    }

    /// A scope named `name` for the namespace `ns_name`, inside this one.
    pub fn create_child_namespace_scope(self, ns_name: Utf16String, name: Utf16String) -> (r: Scope)
        ensures
            r.name == name,
            r.parent == Some(Box::new(self)),
            r.ns_name == Some(ns_name),
            r.variables@.len() == 0,
    {
        Scope { name, parent: Some(Box::new(self)), ns_name: Some(ns_name), variables: Vec::new() }
    }

    /// The variable named `name` that the scope sees, if any.
    pub fn get(&self, name: &NamePath) -> (r: Option<&Variable>)
        ensures
            match r {
                Some(v) => scope_get(*self, name@) == Some(*v),
                None => scope_get(*self, name@) is None,
            },
        decreases *self,
    {
        match find_var(&self.variables, name) {
            Some(i) => Some(&self.variables[i]),
            None => match &self.parent {
                Some(parent) => parent.get(name),
                None => None,
            },
        }
    }

    /// Whether the scope sees a variable named `name`.
    pub fn is_defined(&self, name: &NamePath) -> (r: bool)
        ensures
            r == scope_has(*self, name@),
        decreases *self,
    {
        if find_var(&self.variables, name).is_some() {
            return true;
        }
        match &self.parent {
            Some(parent) => parent.is_defined(name),
            None => false,
        }
    }

    /// Adds the variable `name` to the scope, unless the scope already sees that name; in a
    /// namespace scope it is also added to the scope it is in under the name prefixed with
    /// the namespace's. Gives whether it was added everywhere.
    pub fn add(&mut self, name: NamePath, is_mutable: bool) -> (r: bool)
        ensures
            add_rel(*old(self), *final(self), name@, is_mutable, r),
        decreases *old(self),
    {
        if self.is_defined(&name) {
            return false;
        }
        let ghost before = self.variables@;
        let prefixed = match &self.ns_name {
            Some(ns) => {
                let mut path = NamePath::from_string(ns.copy());
                path.append_path(&name);
                Some(path)
            },
            None => None,
        };
        self.variables.push(Variable { name, is_mutable });
        proof {
            assert(vars_view(self.variables@) =~= vars_view(before).push((name@, is_mutable)));
        }
        match prefixed {
            Some(path) => match self.parent.take() {
                Some(mut parent) => {
                    let r = parent.add(path, is_mutable);
                    self.parent = Some(parent);
                    r
                },
                None => true,
            },
            None => true,
        }
    }
}

impl Default for Scope {
    /// An anonymous scope with no variables and no parent.
    fn default() -> (r: Scope)
        ensures
            r.name@ == anonymous_name(),
            r.parent is None,
            r.ns_name is None,
            r.variables@.len() == 0,
    {
        Scope::anonymous()
    }
}

} // verus!
