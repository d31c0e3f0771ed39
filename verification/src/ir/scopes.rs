use vstd::prelude::*;

use super::ir::Register;
use crate::common::error::{AiScriptBasicError, AiScriptBasicErrorKind};
use crate::common::path::{append_spec, segment_count_spec, NamePath};
use crate::common::string::{utf16_decode_lossy, Utf16Str};

verus! {

/// What the translator knows of a variable: the register that holds it and whether it
/// may be assigned.
#[derive(Clone, Copy, Debug, PartialEq, Eq, Structural, Default)]
pub struct Variable {
    pub is_mutable: bool,
    pub register: Register,
}

/// A table of variables: each name with its variable.
pub type Table = Seq<(Seq<u16>, Variable)>;

/// Whether `name` has an entry in the table.
pub open spec fn table_has(t: Table, name: Seq<u16>) -> bool {
    exists|i: int| 0 <= i < t.len() && (#[trigger] t[i]).0 == name
}

/// Whether no name has two entries.
pub open spec fn table_unique(t: Table) -> bool {
    forall|i: int, j: int|
        0 <= i < t.len() && 0 <= j < t.len() && i != j ==> (#[trigger] t[i]).0 != (#[trigger] t[j]).0
}

/// The variable of `name`, if the table has one.
pub open spec fn table_get(t: Table, name: Seq<u16>) -> Option<Variable> {
    if table_has(t, name) {
        Some(t[choose|i: int| 0 <= i < t.len() && (#[trigger] t[i]).0 == name].1)
    } else {
        None
    }
}

/// The table with `name` bound to `v`: in place if it is there, else last.
pub open spec fn table_insert(t: Table, name: Seq<u16>, v: Variable) -> Table {
    if table_has(t, name) {
        t.update(choose|i: int| 0 <= i < t.len() && (#[trigger] t[i]).0 == name, (name, v))
    } else {
        t.push((name, v))
    }
}

/// With unique names, the entry found for a name is the one the table gives.
pub proof fn lemma_table_entry(t: Table, name: Seq<u16>, i: int)
    requires
        table_unique(t),
        0 <= i < t.len(),
        t[i].0 == name,
    ensures
        table_get(t, name) == Some(t[i].1),
        forall|v: Variable| table_insert(t, name, v) == #[trigger] t.update(i, (name, v)),
{
    let j = choose|j: int| 0 <= j < t.len() && (#[trigger] t[j]).0 == name;
    assert(t[j].0 == name);
}

/// Inserting keeps names unique, and the name is then bound to the inserted variable
/// while every other name keeps its variable.
pub proof fn lemma_table_insert(t: Table, name: Seq<u16>, v: Variable)
    requires
        table_unique(t),
    ensures
        table_unique(table_insert(t, name, v)),
        table_get(table_insert(t, name, v), name) == Some(v),
        forall|other: Seq<u16>|
            other != name ==> #[trigger] table_get(table_insert(t, name, v), other) == table_get(t, other),
{
    let t2 = table_insert(t, name, v);
    if table_has(t, name) {
        let j = choose|j: int| 0 <= j < t.len() && (#[trigger] t[j]).0 == name;
        assert forall|a: int, b: int|
            0 <= a < t2.len() && 0 <= b < t2.len() && a != b implies (#[trigger] t2[a]).0 != (#[trigger] t2[b]).0 by {
            assert(t[a].0 == t2[a].0);
            assert(t[b].0 == t2[b].0);
        }
        lemma_table_entry(t2, name, j);
        assert forall|other: Seq<u16>| other != name implies #[trigger] table_get(t2, other) == table_get(t, other) by {
            if table_has(t, other) {
                let k = choose|k: int| 0 <= k < t.len() && (#[trigger] t[k]).0 == other;
                assert(t2[k] == t[k]);
                lemma_table_entry(t, other, k);
                lemma_table_entry(t2, other, k);
            } else {
                assert forall|k: int| 0 <= k < t2.len() implies (#[trigger] t2[k]).0 != other by {
                    if k != j {
                        assert(t2[k] == t[k]);
                    }
                }
            }
        }
    } else {
        assert forall|a: int, b: int|
            0 <= a < t2.len() && 0 <= b < t2.len() && a != b implies (#[trigger] t2[a]).0 != (#[trigger] t2[b]).0 by {
            if a == t.len() {
                assert(t[b].0 != name);
            } else if b == t.len() {
                assert(t[a].0 != name);
            }
        }
        lemma_table_entry(t2, name, t.len() as int);
        assert forall|other: Seq<u16>| other != name implies #[trigger] table_get(t2, other) == table_get(t, other) by {
            if table_has(t, other) {
                let k = choose|k: int| 0 <= k < t.len() && (#[trigger] t[k]).0 == other;
                assert(t2[k] == t[k]);
                lemma_table_entry(t, other, k);
                lemma_table_entry(t2, other, k);
            } else {
                assert forall|k: int| 0 <= k < t2.len() implies (#[trigger] t2[k]).0 != other by {
                    if k < t.len() {
                        assert(t2[k] == t[k]);
                    }
                }
            }
        }
    }
}

/// The table of a vector of entries.
pub open spec fn table_of(entries: Seq<(NamePath, Variable)>) -> Table {
    entries.map_values(|e: (NamePath, Variable)| (e.0@, e.1))
}

/// The place of the entry for `name`, if there is one.
fn table_find(entries: &Vec<(NamePath, Variable)>, name: &NamePath) -> (r: Option<usize>)
    ensures
        r matches Some(i) ==> i < entries@.len() && entries@[i as int].0@ == name@,
        r is None ==> !table_has(table_of(entries@), name@),
{
    let mut i: usize = 0;
    while i < entries.len()
        invariant
            i <= entries@.len(),
            forall|k: int| 0 <= k < i ==> (#[trigger] entries@[k]).0@ != name@,
        decreases entries@.len() - i,
    {
        if entries[i].0.eq_path(name) {
            return Some(i);
        }
        i = i + 1;
    }
    proof {
        let t = table_of(entries@);
        assert forall|k: int| 0 <= k < t.len() implies (#[trigger] t[k]).0 != name@ by {
            assert(entries@[k].0@ != name@);
        }
    }
    None
}

/// Binds `name` to `v` in the entries.
fn table_put(entries: &mut Vec<(NamePath, Variable)>, name: NamePath, v: Variable)
    requires
        table_unique(table_of(old(entries)@)),
    ensures
        table_of(final(entries)@) == table_insert(table_of(old(entries)@), name@, v),
{
    let ghost t = table_of(entries@);
    let ghost key = name@;
    match table_find(entries, &name) {
        Some(i) => {
            proof {
                assert(t[i as int].0 == key);
                lemma_table_entry(t, key, i as int);
            }
            entries.set(i, (name, v));
            assert(table_of(entries@) =~= t.update(i as int, (key, v)));
        },
        None => {
            entries.push((name, v));
            assert(table_of(entries@) =~= t.push((key, v)));
        },
    }
}

/// The variable of `name` in the entries, if they have one.
fn table_lookup(entries: &Vec<(NamePath, Variable)>, name: &NamePath) -> (r: Option<Variable>)
    requires
        table_unique(table_of(entries@)),
    ensures
        r == table_get(table_of(entries@), name@),
{
    match table_find(entries, name) {
        Some(i) => {
            proof {
                assert(table_of(entries@)[i as int].0 == name@);
                lemma_table_entry(table_of(entries@), name@, i as int);
            }
            Some(entries[i].1)
        },
        None => None,
    }
}

/// The path of the namespaces `nss`, outermost first.
pub open spec fn ns_path(nss: Seq<Seq<u16>>) -> Seq<u16>
    decreases nss.len(),
{
    if nss.len() == 0 {
        Seq::empty()
    } else {
        append_spec(ns_path(nss.drop_last()), nss.last())
    }
}

/// How many of the enclosing namespaces prefix `name`: a name with more segments
/// already names some of them.
pub open spec fn prefix_len(ns_count: nat, name: Seq<u16>) -> nat {
    let k = segment_count_spec(name);
    if k == 0 {
        ns_count
    } else if k - 1 >= ns_count {
        0
    } else {
        (ns_count - (k - 1)) as nat
    }
}

/// The name at the root of `name` written inside the namespaces `nss`.
pub open spec fn resolve_spec(nss: Seq<Seq<u16>>, name: Seq<u16>) -> Seq<u16> {
    append_spec(ns_path(nss.take(prefix_len(nss.len(), name) as int)), name)
}

/// The scopes as the contracts see them.
pub ghost struct ScopesView {
    /// The variables at the root, namespace members under their full names.
    pub root: Table,
    /// The names of the enclosing namespaces, outermost first.
    pub namespaces: Seq<Seq<u16>>,
    /// The variables of the enclosing blocks, outermost first.
    pub blocks: Seq<Table>,
}

/// The variable of `name` in the first of the blocks from the `i`-th on that has it.
pub open spec fn first_block(blocks: Seq<Table>, name: Seq<u16>, i: int) -> Option<Variable>
    decreases blocks.len() - i,
{
    if i < 0 || i >= blocks.len() {
        None
    } else if table_has(blocks[i], name) {
        table_get(blocks[i], name)
    } else {
        first_block(blocks, name, i + 1)
    }
}

/// The variable that `name` refers to: that of the first block, outermost first, that has
/// it; else, inside a namespace, the root entry of the resolved name; else the root entry.
pub open spec fn lookup_spec(v: ScopesView, name: Seq<u16>) -> Option<Variable> {
    if first_block(v.blocks, name, 0) is Some {
        first_block(v.blocks, name, 0)
    } else if v.namespaces.len() > 0 && table_has(v.root, resolve_spec(v.namespaces, name)) {
        table_get(v.root, resolve_spec(v.namespaces, name))
    } else {
        table_get(v.root, name)
    }
}

/// A block that has the name gives a variable.
pub proof fn lemma_first_block_some(blocks: Seq<Table>, name: Seq<u16>, i: int, k: int)
    requires
        0 <= i <= k < blocks.len(),
        table_has(blocks[k], name),
    ensures
        first_block(blocks, name, i) is Some,
    decreases k - i,
{
    if !table_has(blocks[i], name) {
        lemma_first_block_some(blocks, name, i + 1, k);
    }
}

/// The scopes with `name` bound to `var`: in the innermost block, else at the root under
/// the name resolved in the enclosing namespaces.
pub open spec fn add_spec(v: ScopesView, name: Seq<u16>, var: Variable) -> ScopesView {
    if v.blocks.len() > 0 {
        ScopesView {
            blocks: v.blocks.update(
                v.blocks.len() - 1,
                table_insert(v.blocks.last(), name, var),
            ),
            ..v
        }
    } else if v.namespaces.len() == 0 {
        ScopesView { root: table_insert(v.root, name, var), ..v }
    } else {
        ScopesView { root: table_insert(v.root, resolve_spec(v.namespaces, name), var), ..v }
    }
}

/// The code units of `<root>`.
pub open spec fn root_name() -> Seq<u16> {
    seq![60u16, 114u16, 111u16, 111u16, 116u16, 62u16]
}

/// The code units of `<anonymous>`.
pub open spec fn anonymous_name() -> Seq<u16> {
    seq![60u16, 97u16, 110u16, 111u16, 110u16, 121u16, 109u16, 111u16, 117u16, 115u16, 62u16]
}

/// The name of the innermost scope.
pub open spec fn scope_name_spec(v: ScopesView) -> Seq<u16> {
    if v.namespaces.len() == 0 && v.blocks.len() == 0 {
        root_name()
    } else {
        anonymous_name()
    }
}

/// The message for a name that no scope has.
pub open spec fn no_such_variable(name: Seq<u16>, scope: Seq<u16>) -> Seq<char> {
    "No such variable '"@ + utf16_decode_lossy(name) + "' in scope '"@ + utf16_decode_lossy(scope)
        + "'"@
}

/// The message for an assignment to an immutable variable.
pub open spec fn immutable_variable(name: Seq<u16>) -> Seq<char> {
    "Cannot assign to an immutable variable "@ + utf16_decode_lossy(name) + "."@
}

/// The scopes that the translator tracks: the root with the namespace members, the
/// enclosing namespaces, and the enclosing blocks.
pub struct Scopes {
    root: Vec<(NamePath, Variable)>,
    namespaces: Vec<Utf16Str>,
    blocks: Vec<Vec<(NamePath, Variable)>>,
}

impl View for Scopes {
    type V = ScopesView;

    closed spec fn view(&self) -> ScopesView {
        ScopesView {
            root: table_of(self.root@),
            namespaces: self.namespaces@.map_values(|s: Utf16Str| s@),
            blocks: self.blocks@.map_values(|b: Vec<(NamePath, Variable)>| table_of(b@)),
        }
    }
}

/// Whether every table of the scopes has unique names.
pub open spec fn scopes_wf(v: ScopesView) -> bool {
    &&& table_unique(v.root)
    &&& forall|i: int| 0 <= i < v.blocks.len() ==> table_unique(#[trigger] v.blocks[i])
}

impl Scopes {
    /// Scopes with nothing in them.
    pub fn new() -> (r: Scopes)
        ensures
            r@.root.len() == 0,
            r@.namespaces.len() == 0,
            r@.blocks.len() == 0,
            scopes_wf(r@),
    {
        let r = Scopes { root: Vec::new(), namespaces: Vec::new(), blocks: Vec::new() };
        assert(r@.root =~= Seq::<(Seq<u16>, Variable)>::empty());
        r
    }

    /// Whether no namespace or block encloses the current place.
    pub fn is_root(&self) -> (r: bool)
        ensures
            r == (self@.namespaces.len() == 0 && self@.blocks.len() == 0),
    {
        self.namespaces.len() == 0 && self.blocks.len() == 0
    }

    /// Whether a namespace encloses the current place.
    pub fn is_namespace(&self) -> (r: bool)
        ensures
            r == (self@.namespaces.len() > 0),
    {
        self.namespaces.len() > 0
    }

    /// The name of the innermost scope: `<root>` or `<anonymous>`.
    pub fn current_scope_name(&self) -> (r: Utf16Str)
        ensures
            r@ == scope_name_spec(self@),
    {
        if self.is_root() {
            let units: [u16; 6] = [60u16, 114u16, 111u16, 111u16, 116u16, 62u16];
            let r = Utf16Str::new(&units);
            assert(r@ =~= root_name());
            r
        } else {
            let units: [u16; 11] = [
                60u16,
                97u16,
                110u16,
                111u16,
                110u16,
                121u16,
                109u16,
                111u16,
                117u16,
                115u16,
                62u16,
            ];
            let r = Utf16Str::new(&units);
            assert(r@ =~= anonymous_name());
            r
        }
    }

    /// Enters the namespace `name`.
    pub fn push_namespace_scope(&mut self, name: &Utf16Str)
        requires
            scopes_wf(old(self)@),
        ensures
            final(self)@ == (ScopesView { namespaces: old(self)@.namespaces.push(name@), ..old(self)@ }),
            scopes_wf(final(self)@),
    {
        self.namespaces.push(name.copy());
        assert(self@.namespaces =~= old(self)@.namespaces.push(name@));
    }

    /// Enters a block.
    pub fn push_block_scope(&mut self)
        requires
            scopes_wf(old(self)@),
        ensures
            final(self)@ == (ScopesView { blocks: old(self)@.blocks.push(Seq::empty()), ..old(self)@ }),
            scopes_wf(final(self)@),
    {
        let block: Vec<(NamePath, Variable)> = Vec::new();
        assert(table_of(block@) =~= Seq::<(Seq<u16>, Variable)>::empty());
        self.blocks.push(block);
        assert(self@.blocks =~= old(self)@.blocks.push(Seq::empty()));
    }

    /// Leaves the innermost block, or, where there is none, the innermost namespace.
    /// There must be one of them.
    pub fn drop_local_scope(&mut self)
        requires
            old(self)@.blocks.len() > 0 || old(self)@.namespaces.len() > 0,
            scopes_wf(old(self)@),
        ensures
            old(self)@.blocks.len() > 0 ==> final(self)@ == (ScopesView {
                blocks: old(self)@.blocks.drop_last(),
                ..old(self)@
            }),
            old(self)@.blocks.len() == 0 ==> final(self)@ == (ScopesView {
                namespaces: old(self)@.namespaces.drop_last(),
                ..old(self)@
            }),
            scopes_wf(final(self)@),
    {
        if self.blocks.len() > 0 {
            self.blocks.pop();
            assert(self@.blocks =~= old(self)@.blocks.drop_last());
        } else {
            self.namespaces.pop();
            assert(self@.namespaces =~= old(self)@.namespaces.drop_last());
        }
    }

    /// The name at the root of `name` written inside the enclosing namespaces.
    pub fn resolve(&self, name: &NamePath) -> (r: NamePath)
        requires
            name@.len() < usize::MAX,
        ensures
            r@ == resolve_spec(self@.namespaces, name@),
    {
        let ghost nss = self@.namespaces;
        let k = name.segment_count();
        let n = self.namespaces.len();
        let take = if k == 0 {
            n
        } else if k - 1 >= n {
            0
        } else {
            n - (k - 1)
        };
        let mut result = NamePath::new();
        let mut i: usize = 0;
        while i < take
            invariant
                i <= take,
                take <= n,
                n == nss.len(),
                nss == self@.namespaces,
                result@ == ns_path(nss.take(i as int)),
            decreases take - i,
        {
            result.append(&self.namespaces[i]);
            proof {
                assert(nss.take(i + 1).drop_last() =~= nss.take(i as int));
            }
            i = i + 1;
        }
        result.append_path(name);
        result
    }

    /// The variable that `name` refers to (see [`lookup_spec`]).
    pub fn get(&self, name: &NamePath) -> (r: Option<Variable>)
        requires
            scopes_wf(self@),
            name@.len() < usize::MAX,
        ensures
            r == lookup_spec(self@, name@),
    {
        let ghost v = self@;
        let mut i: usize = 0;
        while i < self.blocks.len()
            invariant
                i <= v.blocks.len(),
                v == self@,
                scopes_wf(v),
                first_block(v.blocks, name@, 0) == first_block(v.blocks, name@, i as int),
            decreases v.blocks.len() - i,
        {
            assert(table_of(self.blocks@[i as int]@) == v.blocks[i as int]);
            match table_lookup(&self.blocks[i], name) {
                Some(var) => {
                    return Some(var);
                },
                None => {},
            }
            i = i + 1;
        }
        if self.is_namespace() {
            let resolved = self.resolve(name);
            match table_lookup(&self.root, &resolved) {
                Some(var) => {
                    return Some(var);
                },
                None => {},
            }
        }
        table_lookup(&self.root, name)
    }

    /// Whether `name` refers to a variable.
    pub fn is_defined(&self, name: &NamePath) -> (r: bool)
        requires
            scopes_wf(self@),
            name@.len() < usize::MAX,
        ensures
            r == (lookup_spec(self@, name@) is Some),
    {
        self.get(name).is_some()
    }

    /// Binds `name` to `variable` (see [`add_spec`]).
    pub fn add(&mut self, name: &NamePath, variable: Variable)
        requires
            scopes_wf(old(self)@),
            name@.len() < usize::MAX,
        ensures
            final(self)@ == add_spec(old(self)@, name@, variable),
            scopes_wf(final(self)@),
    {
        let ghost v = self@;
        let n = self.blocks.len();
        if n > 0 {
            let mut block = self.blocks.pop().unwrap();
            assert(table_of(block@) == v.blocks.last());
            proof {
                lemma_table_insert(table_of(block@), name@, variable);
            }
            table_put(&mut block, name.copy(), variable);
            self.blocks.push(block);
            assert(self@.blocks =~= add_spec(v, name@, variable).blocks);
        } else if self.namespaces.len() == 0 {
            proof {
                lemma_table_insert(v.root, name@, variable);
            }
            table_put(&mut self.root, name.copy(), variable);
        } else {
            let resolved = self.resolve(name);
            proof {
                lemma_table_insert(v.root, resolved@, variable);
            }
            table_put(&mut self.root, resolved, variable);
        }
    }

    /// Binds `name` to `variable` at the root, whatever encloses the current place.
    pub fn add_root(&mut self, name: NamePath, variable: Variable)
        requires
            scopes_wf(old(self)@),
        ensures
            final(self)@ == (ScopesView { root: table_insert(old(self)@.root, name@, variable), ..old(self)@ }),
            scopes_wf(final(self)@),
    {
        proof {
            lemma_table_insert(self@.root, name@, variable);
        }
        table_put(&mut self.root, name, variable);
    }

    /// The register of the variable that an assignment to `name` writes: an error where no
    /// variable has that name or where it is immutable.
    pub fn assign(&self, name: &NamePath) -> (r: Result<Register, AiScriptBasicError>)
        requires
            scopes_wf(self@),
            name@.len() < usize::MAX,
        ensures
            match lookup_spec(self@, name@) {
                Some(var) => if var.is_mutable {
                    r == Ok::<Register, AiScriptBasicError>(var.register)
                } else {
                    r matches Err(e) && e.kind == AiScriptBasicErrorKind::Runtime && e.pos is None
                        && e.message@ == immutable_variable(name@)
                },
                None => r matches Err(e) && e.kind == AiScriptBasicErrorKind::Runtime && e.pos
                    is None && e.message@ == no_such_variable(name@, scope_name_spec(self@)),
            },
    {
        match self.get(name) {
            Some(var) => {
                if var.is_mutable {
                    Ok(var.register)
                } else {
                    let mut message = "Cannot assign to an immutable variable ".to_owned();
                    let text = name.to_display_string();
                    message.append(text.as_str());
                    message.append(".");
                    Err(AiScriptBasicError::new(AiScriptBasicErrorKind::Runtime, message, None))
                }
            },
            None => {
                let scope = self.current_scope_name();
                Err(AiScriptBasicError::new(
                    AiScriptBasicErrorKind::Runtime,
                    no_such_variable_message(name, &scope),
                    None,
                ))
            },
        }
    }
}

/// The message for a name that no scope has.
pub fn no_such_variable_message(name: &NamePath, scope: &Utf16Str) -> (r: String)
    ensures
        r@ == no_such_variable(name@, scope@),
{
    let mut message = "No such variable '".to_owned();
    let text = name.to_display_string();
    message.append(text.as_str());
    message.append("' in scope '");
    let scope_text = scope.to_display_string();
    message.append(scope_text.as_str());
    message.append("'");
    message
}

} // verus!
