//! The compile-time scope chain: nested symbol tables with shadowed name
//! resolution. Each concrete scope owns a mapping from name to variable and
//! holds a read-only reference to its enclosing scope; resolution looks the
//! local mapping up first and on a miss delegates to the parent. The root
//! scope has no parent and reports a miss as an `UnresolvedSymbol` error
//! value, never a crash.

use vstd::prelude::*;

verus! {

/// Storage shape of a value: a name for the type and its size in bytes.
/// Immutable once created.
#[derive(Debug, PartialEq, Eq)]
pub struct VarType {
    pub name: String,
    pub size: usize,
}

impl Clone for VarType {
    fn clone(&self) -> (r: Self)
        ensures
            r == *self,
    {
        VarType { name: self.name.clone(), size: self.size }
    }
}

/// A value baked into the program image.
#[derive(Debug)]
pub struct Constant {
    pub var_type: VarType,
    pub exported: bool,
    pub data: Vec<u8>,
}

impl Constant {
    pub fn new(exported: bool, var_type: VarType, data: Vec<u8>) -> (r: Self)
        ensures
            r.exported == exported,
            r.var_type == var_type,
            r.data == data,
    {
        Constant { var_type, exported, data }
    }
}

/// A callable producing a value of `var_type`.
#[derive(Debug)]
pub struct Function {
    pub var_type: VarType,
    pub exported: bool,
    pub params: Vec<VarType>,
    pub instructions: Vec<u8>,
}

impl Function {
    pub fn new(exported: bool, var_type: VarType, params: Vec<VarType>, instructions: Vec<u8>) -> (r:
        Self)
        ensures
            r.exported == exported,
            r.var_type == var_type,
            r.params == params,
            r.instructions == instructions,
    {
        Function { var_type, exported, params, instructions }
    }
}

/// A value computed by running an initializer, no parameters.
#[derive(Debug)]
pub struct Default {
    pub var_type: VarType,
    pub exported: bool,
    pub instructions: Vec<u8>,
}

impl Default {
    pub fn new(exported: bool, var_type: VarType, instructions: Vec<u8>) -> (r: Self)
        ensures
            r.exported == exported,
            r.var_type == var_type,
            r.instructions == instructions,
    {
        Default { var_type, exported, instructions }
    }
}

/// An entry point with no declared return type; it produces no value.
#[derive(Debug)]
pub struct Process {
    pub exported: bool,
    pub params: Vec<VarType>,
    pub instructions: Vec<u8>,
}

impl Process {
    pub fn new(exported: bool, params: Vec<VarType>, instructions: Vec<u8>) -> (r: Self)
        ensures
            r.exported == exported,
            r.params == params,
            r.instructions == instructions,
    {
        Process { exported, params, instructions }
    }
}

/// A named entity as the compiler sees it. Every variant but `Process`
/// carries exactly one `VarType` describing its value.
#[derive(Debug)]
pub enum Variable {
    Constant(Constant),
    Function(Function),
    Default(Default),
    Process(Process),
}

/// The `VarType` a variable's value has, or `None` for a `Process`, which
/// produces no value.
pub open spec fn var_type_of(v: Variable) -> Option<VarType> {
    match v {
        Variable::Constant(c) => Some(c.var_type),
        Variable::Function(f) => Some(f.var_type),
        Variable::Default(d) => Some(d.var_type),
        Variable::Process(_) => None,
    }
}

/// What resolving a name yields: the nearest definition's type, the marker
/// that the nearest definition is a `Process` and has no type to give, or
/// that no definition exists anywhere along the chain.
pub ghost enum Lookup {
    Found(VarType),
    NoValue,
    Unresolved,
}

/// The resolution a single definition provides.
pub open spec fn lookup_of(v: Variable) -> Lookup {
    match var_type_of(v) {
        Some(t) => Lookup::Found(t),
        None => Lookup::NoValue,
    }
}

/// A compile-time error, reported to the surrounding compiler rather than
/// aborting the process.
#[derive(Debug, PartialEq, Eq)]
pub enum ResolveError {
    /// The name has no definition anywhere along the context chain.
    UnresolvedSymbol { name: String },
}

/// One scope's own mapping from name to variable: an association list whose
/// keys are unique, so a redefinition overwrites in place.
struct SymbolTable {
    entries: Vec<(String, Variable)>,
}

/// The keys of `entries` are pairwise distinct.
spec fn unique_keys(entries: Seq<(String, Variable)>) -> bool {
    forall|i: int, j: int|
        0 <= i < j < entries.len() ==> (#[trigger] entries[i]).0@ != (#[trigger] entries[j]).0@
}

/// The mapping an association list denotes; later entries would win, and
/// with unique keys the order cannot matter.
spec fn map_of(entries: Seq<(String, Variable)>) -> Map<Seq<char>, Variable>
    decreases entries.len(),
{
    if entries.len() == 0 {
        Map::empty()
    } else {
        map_of(entries.drop_last()).insert(entries.last().0@, entries.last().1)
    }
}

/// A key is in the denoted mapping exactly when some entry bears it.
proof fn lemma_map_of_contains(entries: Seq<(String, Variable)>, k: Seq<char>)
    ensures
        map_of(entries).contains_key(k) <==> exists|i: int|
            0 <= i < entries.len() && (#[trigger] entries[i]).0@ == k,
    decreases entries.len(),
{
    if entries.len() == 0 {
    } else {
        let prefix = entries.drop_last();
        lemma_map_of_contains(prefix, k);
        if entries.last().0@ == k {
            assert((entries[entries.len() - 1]).0@ == k);
        } else {
            if exists|i: int| 0 <= i < entries.len() && (#[trigger] entries[i]).0@ == k {
                let i = choose|i: int| 0 <= i < entries.len() && (#[trigger] entries[i]).0@ == k;
                assert((prefix[i]).0@ == k);
            }
            if map_of(entries).contains_key(k) {
                let i = choose|i: int| 0 <= i < prefix.len() && (#[trigger] prefix[i]).0@ == k;
                assert((entries[i]).0@ == k);
            }
        }
    }
}

/// Dropping the last entry keeps the keys pairwise distinct.
proof fn lemma_unique_prefix(entries: Seq<(String, Variable)>)
    requires
        unique_keys(entries),
        entries.len() > 0,
    ensures
        unique_keys(entries.drop_last()),
{
    let prefix = entries.drop_last();
    assert forall|i: int, j: int| 0 <= i < j < prefix.len() implies (#[trigger] prefix[i]).0@ != (
    #[trigger] prefix[j]).0@ by {
        assert(prefix[i] == entries[i]);
        assert(prefix[j] == entries[j]);
    }
}

/// With unique keys, the entry bearing a key gives that key's value in the
/// denoted mapping.
proof fn lemma_map_of_get(entries: Seq<(String, Variable)>, i: int)
    requires
        unique_keys(entries),
        0 <= i < entries.len(),
    ensures
        map_of(entries).contains_key((entries[i]).0@),
        map_of(entries)[(entries[i]).0@] == (entries[i]).1,
    decreases entries.len(),
{
    let k = (entries[i]).0@;
    if i == entries.len() - 1 {
    } else {
        let prefix = entries.drop_last();
        lemma_unique_prefix(entries);
        assert(prefix[i] == entries[i]);
        lemma_map_of_get(prefix, i);
        assert((entries[entries.len() - 1]).0@ != k);
    }
}

/// Overwriting the entry that bears a key denotes the same mapping as a map
/// insert at that key.
proof fn lemma_map_of_update(entries: Seq<(String, Variable)>, i: int, e: (String, Variable))
    requires
        unique_keys(entries),
        0 <= i < entries.len(),
        e.0@ == (entries[i]).0@,
    ensures
        map_of(entries.update(i, e)) == map_of(entries).insert(e.0@, e.1),
    decreases entries.len(),
{
    let k = e.0@;
    let u = entries.update(i, e);
    if i == entries.len() - 1 {
        assert(u.drop_last() =~= entries.drop_last());
        assert(u.last() == e);
        assert(map_of(entries.drop_last()).insert(k, entries.last().1).insert(k, e.1)
            =~= map_of(entries.drop_last()).insert(k, e.1));
    } else {
        let prefix = entries.drop_last();
        assert(u.drop_last() =~= prefix.update(i, e));
        assert(u.last() == entries.last());
        lemma_unique_prefix(entries);
        assert(prefix[i] == entries[i]);
        lemma_map_of_update(prefix, i, e);
        assert((entries[entries.len() - 1]).0@ != k);
        assert(map_of(prefix).insert(k, e.1).insert(entries.last().0@, entries.last().1)
            =~= map_of(prefix).insert(entries.last().0@, entries.last().1).insert(k, e.1));
    }
}

impl SymbolTable {
    /// The mapping this table holds.
    spec fn view(&self) -> Map<Seq<char>, Variable> {
        map_of(self.entries@)
    }

    spec fn wf(&self) -> bool {
        unique_keys(self.entries@)
    }

    fn new() -> (r: Self)
        ensures
            r.wf(),
            r.view() == Map::<Seq<char>, Variable>::empty(),
    {
        SymbolTable { entries: Vec::new() }
    }

    /// The stored variable bearing `name`, if any.
    fn find(&self, name: &String) -> (r: Option<&Variable>)
        requires
            self.wf(),
        ensures
            match r {
                Some(v) => self.view().contains_key(name@) && *v == self.view()[name@],
                None => !self.view().contains_key(name@),
            },
    {
        let mut i: usize = 0;
        while i < self.entries.len()
            invariant
                self.wf(),
                i <= self.entries@.len(),
                forall|j: int| 0 <= j < i ==> (#[trigger] self.entries@[j]).0@ != name@,
            decreases self.entries@.len() - i,
        {
            if self.entries[i].0 == *name {
                proof {
                    lemma_map_of_get(self.entries@, i as int);
                }
                return Some(&self.entries[i].1);
            }
            i = i + 1;
        }
        proof {
            lemma_map_of_contains(self.entries@, name@);
        }
        None
    }

    /// Inserts or overwrites; names are unique within one scope.
    fn insert(&mut self, name: String, variable: Variable)
        requires
            old(self).wf(),
        ensures
            final(self).wf(),
            final(self).view() == old(self).view().insert(name@, variable),
    {
        let mut i: usize = 0;
        while i < self.entries.len()
            invariant
                self.wf(),
                i <= self.entries@.len(),
                self.entries@ == old(self).entries@,
                forall|j: int| 0 <= j < i ==> (#[trigger] self.entries@[j]).0@ != name@,
            decreases self.entries@.len() - i,
        {
            if self.entries[i].0 == *(&name) {
                proof {
                    lemma_map_of_update(self.entries@, i as int, (name, variable));
                }
                let ghost before = self.entries@;
                self.entries.set(i, (name, variable));
                proof {
                    assert forall|a: int, b: int|
                        0 <= a < b < self.entries@.len() implies (#[trigger] self.entries@[a]).0@
                        != (#[trigger] self.entries@[b]).0@ by {
                        if a != i && b != i {
                            assert(self.entries@[a] == before[a]);
                            assert(self.entries@[b] == before[b]);
                        }
                    }
                }
                return;
            }
            i = i + 1;
        }
        let ghost before = self.entries@;
        self.entries.push((name, variable));
        proof {
            assert(self.entries@.drop_last() =~= before);
            assert forall|a: int, b: int|
                0 <= a < b < self.entries@.len() implies (#[trigger] self.entries@[a]).0@ != (
            #[trigger] self.entries@[b]).0@ by {
                if b != self.entries@.len() - 1 {
                    assert(self.entries@[a] == before[a]);
                    assert(self.entries@[b] == before[b]);
                } else {
                    assert(self.entries@[a] == before[a]);
                }
            }
        }
    }
}

/// A scope: define a name locally, and resolve a name by innermost-first
/// search along the chain of enclosing scopes.
pub trait Context: Sized {
    /// The scope's own table and every enclosing scope's are well formed.
    spec fn wf(&self) -> bool;

    /// The local mapping alone, without the enclosing scopes.
    spec fn local(&self) -> Map<Seq<char>, Variable>;

    /// Full chained resolution: the nearest definition wins.
    spec fn lookup(&self, name: Seq<char>) -> Lookup;

    /// Inserts or overwrites in the local mapping; always succeeds, and never
    /// touches an enclosing scope (shadowing, not conflict).
    fn def_var(&mut self, name: String, variable: Variable)
        requires
            old(self).wf(),
        ensures
            final(self).wf(),
            final(self).local() == old(self).local().insert(name@, variable),
            final(self).lookup(name@) == lookup_of(variable),
            forall|m: Seq<char>| m != name@ ==> #[trigger] final(self).lookup(m) == old(
                self,
            ).lookup(m),
    ;

    /// The type of the nearest definition of `name`: `Ok(Some(t))` for a
    /// definition with a value of type `t`, `Ok(None)` for a `Process`
    /// definition, and `Err(UnresolvedSymbol)` carrying the offending name
    /// when no definition exists anywhere along the chain.
    fn get_type(&self, name: String) -> (r: Result<Option<VarType>, ResolveError>)
        requires
            self.wf(),
        ensures
            match r {
                Ok(Some(t)) => self.lookup(name@) == Lookup::Found(t),
                Ok(None) => self.lookup(name@) == Lookup::NoValue,
                Err(ResolveError::UnresolvedSymbol { name: missing }) => self.lookup(name@)
                    == Lookup::Unresolved && missing@ == name@,
            },
    ;
}

/// The root scope, one per compilation unit: no parent, so a miss here is a
/// resolution failure.
pub struct FileContext {
    table: SymbolTable,
}

impl FileContext {
    pub fn new() -> (r: Self)
        ensures
            r.wf(),
            r.local() == Map::<Seq<char>, Variable>::empty(),
            forall|m: Seq<char>| #[trigger] r.lookup(m) == Lookup::Unresolved,
    {
        FileContext { table: SymbolTable::new() }
    }
}

impl Context for FileContext {
    closed spec fn wf(&self) -> bool {
        self.table.wf()
    }

    closed spec fn local(&self) -> Map<Seq<char>, Variable> {
        self.table.view()
    }

    closed spec fn lookup(&self, name: Seq<char>) -> Lookup {
        if self.local().contains_key(name) {
            lookup_of(self.local()[name])
        } else {
            Lookup::Unresolved
        }
    }

    fn def_var(&mut self, name: String, variable: Variable) {
        self.table.insert(name, variable);
    }

    fn get_type(&self, name: String) -> (r: Result<Option<VarType>, ResolveError>) {
        match self.table.find(&name) {
            Some(v) => match v {
                Variable::Constant(c) => Ok(Some(c.var_type.clone())),
                Variable::Function(f) => Ok(Some(f.var_type.clone())),
                Variable::Default(d) => Ok(Some(d.var_type.clone())),
                Variable::Process(_) => Ok(None),
            },
            None => Err(ResolveError::UnresolvedSymbol { name }),
        }
    }
}

/// Scope introduced by entering a function body; the parent is whichever
/// scope was active at the call site, consulted but never owned.
pub struct FunctionContext<'a, PCT: Context> {
    parent: &'a PCT,
    table: SymbolTable,
}

impl<'a, PCT: Context> FunctionContext<'a, PCT> {
    /// The enclosing scope.
    pub closed spec fn spec_parent(&self) -> PCT {
        *self.parent
    }

    pub fn new(parent: &'a PCT) -> (r: Self)
        ensures
            parent.wf() ==> r.wf(),
            r.spec_parent() == *parent,
            r.local() == Map::<Seq<char>, Variable>::empty(),
    {
        FunctionContext { parent, table: SymbolTable::new() }
    }
}

impl<'a, PCT: Context> Context for FunctionContext<'a, PCT> {
    closed spec fn wf(&self) -> bool {
        self.table.wf() && self.spec_parent().wf()
    }

    closed spec fn local(&self) -> Map<Seq<char>, Variable> {
        self.table.view()
    }

    closed spec fn lookup(&self, name: Seq<char>) -> Lookup {
        if self.local().contains_key(name) {
            lookup_of(self.local()[name])
        } else {
            self.spec_parent().lookup(name)
        }
    }

    fn def_var(&mut self, name: String, variable: Variable) {
        self.table.insert(name, variable);
    }

    fn get_type(&self, name: String) -> (r: Result<Option<VarType>, ResolveError>) {
        match self.table.find(&name) {
            Some(v) => match v {
                Variable::Constant(c) => Ok(Some(c.var_type.clone())),
                Variable::Function(f) => Ok(Some(f.var_type.clone())),
                Variable::Default(d) => Ok(Some(d.var_type.clone())),
                Variable::Process(_) => Ok(None),
            },
            None => self.parent.get_type(name),
        }
    }
}

/// Scope introduced by entering a process body.
pub struct ProcessContext<'a, PCT: Context> {
    parent: &'a PCT,
    table: SymbolTable,
}

impl<'a, PCT: Context> ProcessContext<'a, PCT> {
    /// The enclosing scope.
    pub closed spec fn spec_parent(&self) -> PCT {
        *self.parent
    }

    pub fn new(parent: &'a PCT) -> (r: Self)
        ensures
            parent.wf() ==> r.wf(),
            r.spec_parent() == *parent,
            r.local() == Map::<Seq<char>, Variable>::empty(),
    {
        ProcessContext { parent, table: SymbolTable::new() }
    }
}

impl<'a, PCT: Context> Context for ProcessContext<'a, PCT> {
    closed spec fn wf(&self) -> bool {
        self.table.wf() && self.spec_parent().wf()
    }

    closed spec fn local(&self) -> Map<Seq<char>, Variable> {
        self.table.view()
    }

    closed spec fn lookup(&self, name: Seq<char>) -> Lookup {
        if self.local().contains_key(name) {
            lookup_of(self.local()[name])
        } else {
            self.spec_parent().lookup(name)
        }
    }

    fn def_var(&mut self, name: String, variable: Variable) {
        self.table.insert(name, variable);
    }

    fn get_type(&self, name: String) -> (r: Result<Option<VarType>, ResolveError>) {
        match self.table.find(&name) {
            Some(v) => match v {
                Variable::Constant(c) => Ok(Some(c.var_type.clone())),
                Variable::Function(f) => Ok(Some(f.var_type.clone())),
                Variable::Default(d) => Ok(Some(d.var_type.clone())),
                Variable::Process(_) => Ok(None),
            },
            None => self.parent.get_type(name),
        }
    }
}

/// Nested block scope. `contained` marks whether the block may leak new
/// definitions into its parent, a design hook not exercised further.
pub struct SubContext<'a, PCT: Context> {
    parent: &'a PCT,
    contained: bool,
    table: SymbolTable,
}

impl<'a, PCT: Context> SubContext<'a, PCT> {
    /// The enclosing scope.
    pub closed spec fn spec_parent(&self) -> PCT {
        *self.parent
    }

    /// Whether this block may leak new definitions into its parent.
    pub closed spec fn spec_contained(&self) -> bool {
        self.contained
    }

    pub fn new(parent: &'a PCT) -> (r: Self)
        ensures
            parent.wf() ==> r.wf(),
            r.spec_parent() == *parent,
            r.local() == Map::<Seq<char>, Variable>::empty(),
            r.spec_contained() == false,
    {
        SubContext { parent, contained: false, table: SymbolTable::new() }
    }
}

impl<'a, PCT: Context> Context for SubContext<'a, PCT> {
    closed spec fn wf(&self) -> bool {
        self.table.wf() && self.spec_parent().wf()
    }

    closed spec fn local(&self) -> Map<Seq<char>, Variable> {
        self.table.view()
    }

    closed spec fn lookup(&self, name: Seq<char>) -> Lookup {
        if self.local().contains_key(name) {
            lookup_of(self.local()[name])
        } else {
            self.spec_parent().lookup(name)
        }
    }

    fn def_var(&mut self, name: String, variable: Variable) {
        self.table.insert(name, variable);
    }

    fn get_type(&self, name: String) -> (r: Result<Option<VarType>, ResolveError>) {
        match self.table.find(&name) {
            Some(v) => match v {
                Variable::Constant(c) => Ok(Some(c.var_type.clone())),
                Variable::Function(f) => Ok(Some(f.var_type.clone())),
                Variable::Default(d) => Ok(Some(d.var_type.clone())),
                Variable::Process(_) => Ok(None),
            },
            None => self.parent.get_type(name),
        }
    }
}

/// Shadowing: a name defined in an inner block scope resolves there to the
/// inner definition, whatever the enclosing scopes bind it to; the enclosing
/// scope, asked alone, still gives its own resolution unchanged.
pub proof fn lemma_inner_definition_shadows<PCT: Context>(ctx: SubContext<'_, PCT>, name: Seq<char>)
    requires
        ctx.local().contains_key(name),
    ensures
        ctx.lookup(name) == lookup_of(ctx.local()[name]),
{
}

/// Delegation: a name with no local definition in a block scope resolves to
/// whatever the enclosing scope resolves it to.
pub proof fn lemma_miss_delegates_to_parent<PCT: Context>(ctx: SubContext<'_, PCT>, name: Seq<char>)
    requires
        !ctx.local().contains_key(name),
    ensures
        ctx.lookup(name) == ctx.spec_parent().lookup(name),
{
}

/// The same shadowing law for a function body scope.
pub proof fn lemma_function_scope_shadows<PCT: Context>(
    ctx: FunctionContext<'_, PCT>,
    name: Seq<char>,
)
    requires
        ctx.local().contains_key(name),
    ensures
        ctx.lookup(name) == lookup_of(ctx.local()[name]),
{
}

/// The same delegation law for a function body scope.
pub proof fn lemma_function_scope_delegates<PCT: Context>(
    ctx: FunctionContext<'_, PCT>,
    name: Seq<char>,
)
    requires
        !ctx.local().contains_key(name),
    ensures
        ctx.lookup(name) == ctx.spec_parent().lookup(name),
{
}

/// The same shadowing law for a process body scope.
pub proof fn lemma_process_scope_shadows<PCT: Context>(
    ctx: ProcessContext<'_, PCT>,
    name: Seq<char>,
)
    requires
        ctx.local().contains_key(name),
    ensures
        ctx.lookup(name) == lookup_of(ctx.local()[name]),
{
}

/// The same delegation law for a process body scope.
pub proof fn lemma_process_scope_delegates<PCT: Context>(
    ctx: ProcessContext<'_, PCT>,
    name: Seq<char>,
)
    requires
        !ctx.local().contains_key(name),
    ensures
        ctx.lookup(name) == ctx.spec_parent().lookup(name),
{
}

/// At the root there is nothing to delegate to: a name with no definition in
/// the file scope is unresolved outright.
pub proof fn lemma_root_miss_is_unresolved(ctx: FileContext, name: Seq<char>)
    requires
        !ctx.local().contains_key(name),
    ensures
        ctx.lookup(name) == Lookup::Unresolved,
{
}

} // verus!
