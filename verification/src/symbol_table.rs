//! The table of names: an arena of nested scopes. Scopes that were left stay
//! in the arena and keep their index.

use vstd::prelude::*;
use vstd::string::*;
use crate::ast::{FunctionDecl, FunctionDeclView, Type};
use crate::text::join3;

verus! {

/// What a name stands for.
#[derive(Debug)]
pub enum Symbol {
    Variable { name: String, type_: Type, defined: bool },
    Function { declaration: FunctionDecl },
}

/// The value of a symbol.
pub enum SymbolView {
    Variable { name: Seq<char>, type_: Type, defined: bool },
    Function { declaration: FunctionDeclView },
}

impl View for Symbol {
    type V = SymbolView;

    open spec fn view(&self) -> SymbolView {
        match self {
            Symbol::Variable { name, type_, defined } => SymbolView::Variable {
                name: name@,
                type_: *type_,
                defined: *defined,
            },
            Symbol::Function { declaration } => SymbolView::Function { declaration: declaration@ },
        }
    }
}

impl Symbol {
    /// A copy with the same value.
    pub fn duplicate(&self) -> (r: Symbol)
        ensures
            r@ == self@,
    {
        match self {
            Symbol::Variable { name, type_, defined } => Symbol::Variable {
                name: name.clone(),
                type_: *type_,
                defined: *defined,
            },
            Symbol::Function { declaration } => Symbol::Function {
                declaration: declaration.duplicate(),
            },
        }
    }
}

/// One scope: its names, each with its symbol, and the scope around it.
#[derive(Debug)]
pub struct Scope {
    names: Vec<String>,
    symbols: Vec<Symbol>,
    parent: Option<usize>,
}

/// The value of a scope: a finite map from names to symbols, and the index
/// of the enclosing scope.
pub struct ScopeView {
    pub symbols: Map<Seq<char>, SymbolView>,
    pub parent: Option<int>,
}

/// The map that a list of names and the list of their symbols stand for.
pub open spec fn bindings(names: Seq<String>, symbols: Seq<Symbol>) -> Map<Seq<char>, SymbolView>
    decreases names.len(),
{
    if names.len() == 0 || symbols.len() != names.len() {
        Map::empty()
    } else {
        bindings(names.drop_last(), symbols.drop_last()).insert(names.last()@, symbols.last()@)
    }
}

/// No name occurs twice.
pub open spec fn distinct_names(names: Seq<String>) -> bool {
    forall|i: int, j: int| 0 <= i < j < names.len() ==> names[i]@ != names[j]@
}

proof fn lemma_bindings_absent(names: Seq<String>, symbols: Seq<Symbol>, key: Seq<char>)
    requires
        names.len() == symbols.len(),
        forall|i: int| 0 <= i < names.len() ==> names[i]@ != key,
    ensures
        !bindings(names, symbols).contains_key(key),
    decreases names.len(),
{
    if names.len() > 0 {
        lemma_bindings_absent(names.drop_last(), symbols.drop_last(), key);
    }
}

proof fn lemma_bindings_present(names: Seq<String>, symbols: Seq<Symbol>, i: int)
    requires
        names.len() == symbols.len(),
        distinct_names(names),
        0 <= i < names.len(),
    ensures
        bindings(names, symbols).contains_key(names[i]@),
        bindings(names, symbols)[names[i]@] == symbols[i]@,
    decreases names.len(),
{
    if i < names.len() - 1 {
        lemma_bindings_present(names.drop_last(), symbols.drop_last(), i);
    }
}

proof fn lemma_bindings_update(names: Seq<String>, symbols: Seq<Symbol>, i: int, s: Symbol)
    requires
        names.len() == symbols.len(),
        distinct_names(names),
        0 <= i < names.len(),
    ensures
        bindings(names, symbols.update(i, s)) == bindings(names, symbols).insert(names[i]@, s@),
    decreases names.len(),
{
    let updated = symbols.update(i, s);
    if i < names.len() - 1 {
        lemma_bindings_update(names.drop_last(), symbols.drop_last(), i, s);
        assert(updated.drop_last() =~= symbols.drop_last().update(i, s));
        assert(bindings(names, updated) =~= bindings(names, symbols).insert(names[i]@, s@));
    } else {
        assert(updated.drop_last() =~= symbols.drop_last());
        assert(bindings(names, updated) =~= bindings(names, symbols).insert(names[i]@, s@));
    }
}

impl View for Scope {
    type V = ScopeView;

    closed spec fn view(&self) -> ScopeView {
        ScopeView {
            symbols: bindings(self.names@, self.symbols@),
            parent: match self.parent {
                Some(p) => Some(p as int),
                None => None,
            },
        }
    }
}

impl Scope {
    /// Each name has its symbol, and no name occurs twice.
    pub closed spec fn wf(&self) -> bool {
        &&& self.names@.len() == self.symbols@.len()
        &&& distinct_names(self.names@)
    }

    fn with_parent(parent: Option<usize>) -> (r: Scope)
        ensures
            r.wf(),
            r@ == (ScopeView {
                symbols: Map::empty(),
                parent: match parent {
                    Some(p) => Some(p as int),
                    None => None,
                },
            }),
    {
        Scope { names: Vec::new(), symbols: Vec::new(), parent }
    }

    /// The position of `key` among the names of this scope.
    fn find(&self, key: &String) -> (r: Option<usize>)
        requires
            self.wf(),
        ensures
            match r {
                Some(i) => i < self.symbols@.len() && self@.symbols.contains_key(key@)
                    && self@.symbols[key@] == self.symbols@[i as int]@
                    && self.names@[i as int]@ == key@,
                None => !self@.symbols.contains_key(key@),
            },
    {
        let mut i: usize = 0;
        while i < self.names.len()
            invariant
                self.wf(),
                i <= self.names@.len(),
                forall|k: int| 0 <= k < i ==> self.names@[k]@ != key@,
            decreases self.names@.len() - i,
        {
            if self.names[i] == *key {
                proof {
                    lemma_bindings_present(self.names@, self.symbols@, i as int);
                }
                return Some(i);
            }
            i += 1;
        }
        proof {
            lemma_bindings_absent(self.names@, self.symbols@, key@);
        }
        None
    }

    fn duplicate(&self) -> (r: Scope)
        requires
            self.wf(),
        ensures
            r.wf(),
            r@ == self@,
    {
        let mut names: Vec<String> = Vec::new();
        let mut symbols: Vec<Symbol> = Vec::new();
        let mut i: usize = 0;
        while i < self.names.len()
            invariant
                self.wf(),
                i <= self.names@.len(),
                names@.len() == i,
                symbols@.len() == i,
                forall|k: int| 0 <= k < i ==> names@[k]@ == self.names@[k]@,
                forall|k: int| 0 <= k < i ==> symbols@[k]@ == self.symbols@[k]@,
                bindings(names@, symbols@) == bindings(
                    self.names@.take(i as int),
                    self.symbols@.take(i as int),
                ),
            decreases self.names@.len() - i,
        {
            let ghost n0 = names@;
            let ghost s0 = symbols@;
            names.push(self.names[i].clone());
            symbols.push(self.symbols[i].duplicate());
            proof {
                assert(names@.drop_last() =~= n0);
                assert(symbols@.drop_last() =~= s0);
                assert(self.names@.take(i + 1).drop_last() =~= self.names@.take(i as int));
                assert(self.symbols@.take(i + 1).drop_last() =~= self.symbols@.take(i as int));
            }
            i += 1;
        }
        proof {
            assert(self.names@.take(i as int) =~= self.names@);
            assert(self.symbols@.take(i as int) =~= self.symbols@);
        }
        Scope { names, symbols, parent: self.parent }
    }
}

/// The table: every scope that was ever entered, and the index of the one
/// that names are now declared in.
#[derive(Debug)]
pub struct SymbolTable {
    scopes: Vec<Scope>,
    current_scope: usize,
}

/// The value of a table.
pub struct SymbolTableView {
    pub scopes: Seq<ScopeView>,
    pub current_scope: int,
}

impl SymbolTableView {
    /// The current scope exists, and each scope's parent came before it.
    pub open spec fn wf(self) -> bool {
        &&& 0 <= self.current_scope < self.scopes.len()
        &&& forall|i: int|
            0 <= i < self.scopes.len() ==> match (#[trigger] self.scopes[i]).parent {
                Some(p) => 0 <= p < i,
                None => true,
            }
    }

    /// The table with the global scope alone, empty.
    pub open spec fn initial() -> SymbolTableView {
        SymbolTableView {
            scopes: seq![ScopeView { symbols: Map::empty(), parent: None }],
            current_scope: 0,
        }
    }

    /// The symbol that `name` resolves to from scope `idx` outward: the
    /// innermost declaration wins.
    pub open spec fn resolve(self, idx: int, name: Seq<char>) -> Option<SymbolView>
        decreases idx,
    {
        if idx < 0 || idx >= self.scopes.len() {
            None
        } else if self.scopes[idx].symbols.contains_key(name) {
            Some(self.scopes[idx].symbols[name])
        } else {
            match self.scopes[idx].parent {
                Some(p) => if 0 <= p < idx {
                    self.resolve(p, name)
                } else {
                    None
                },
                None => None,
            }
        }
    }

    /// The symbol that `name` resolves to from the current scope.
    pub open spec fn lookup(self, name: Seq<char>) -> Option<SymbolView> {
        self.resolve(self.current_scope, name)
    }

    /// The symbol that the current scope itself declares under `name`.
    pub open spec fn lookup_current(self, name: Seq<char>) -> Option<SymbolView> {
        if self.scopes[self.current_scope].symbols.contains_key(name) {
            Some(self.scopes[self.current_scope].symbols[name])
        } else {
            None
        }
    }

    /// The table after a new, empty scope was opened inside the current one.
    pub open spec fn entered(self) -> SymbolTableView {
        SymbolTableView {
            scopes: self.scopes.push(
                ScopeView { symbols: Map::empty(), parent: Some(self.current_scope) },
            ),
            current_scope: self.scopes.len() as int,
        }
    }

    /// The table after the current scope was left: the cursor is on its
    /// parent; at the global scope nothing changes.
    pub open spec fn exited(self) -> SymbolTableView {
        match self.scopes[self.current_scope].parent {
            Some(p) => SymbolTableView { scopes: self.scopes, current_scope: p },
            None => self,
        }
    }

    /// The table with scope `idx` binding `name` to `symbol`.
    pub open spec fn bound(self, idx: int, name: Seq<char>, symbol: SymbolView) -> SymbolTableView {
        SymbolTableView {
            scopes: self.scopes.update(
                idx,
                ScopeView {
                    symbols: self.scopes[idx].symbols.insert(name, symbol),
                    parent: self.scopes[idx].parent,
                },
            ),
            current_scope: self.current_scope,
        }
    }

    /// The table after `name` was declared in the current scope.
    pub open spec fn inserted(self, name: Seq<char>, symbol: SymbolView) -> SymbolTableView {
        self.bound(self.current_scope, name, symbol)
    }

    /// Whether the current scope can take a declaration of `name`.
    pub open spec fn can_insert(self, name: Seq<char>) -> bool {
        !self.scopes[self.current_scope].symbols.contains_key(name)
    }

    /// The innermost scope, from `idx` outward, in which `name` is a variable.
    pub open spec fn variable_scope(self, idx: int, name: Seq<char>) -> Option<int>
        decreases idx,
    {
        if idx < 0 || idx >= self.scopes.len() {
            None
        } else if self.scopes[idx].symbols.contains_key(name)
            && self.scopes[idx].symbols[name] is Variable {
            Some(idx)
        } else {
            match self.scopes[idx].parent {
                Some(p) => if 0 <= p < idx {
                    self.variable_scope(p, name)
                } else {
                    None
                },
                None => None,
            }
        }
    }

    /// The table after the variable in scope `idx` was marked as defined.
    pub open spec fn marked_defined(self, idx: int, name: Seq<char>) -> SymbolTableView {
        let s = self.scopes[idx].symbols[name];
        self.bound(
            idx,
            name,
            SymbolView::Variable { name: s->Variable_name, type_: s->Variable_type_, defined: true },
        )
    }
}

/// The text of the diagnostic for a name declared twice in one scope.
pub open spec fn duplicate_symbol_message(name: Seq<char>) -> Seq<char> {
    "Símbolo '"@ + name + "' já declarado neste escopo"@
}

/// The text of the diagnostic for a variable that no scope declares.
pub open spec fn variable_not_found_message(name: Seq<char>) -> Seq<char> {
    "Variável '"@ + name + "' não encontrada"@
}

impl View for SymbolTable {
    type V = SymbolTableView;

    closed spec fn view(&self) -> SymbolTableView {
        SymbolTableView {
            scopes: self.scopes@.map_values(|s: Scope| s@),
            current_scope: self.current_scope as int,
        }
    }
}

impl SymbolTable {
    /// The table is well formed: so is its value, and so is each scope.
    pub closed spec fn wf(&self) -> bool {
        &&& self@.wf()
        &&& forall|i: int| 0 <= i < self.scopes@.len() ==> (#[trigger] self.scopes@[i]).wf()
    }

    /// A well-formed table has a well-formed value.
    pub proof fn lemma_wf_view(&self)
        requires
            self.wf(),
        ensures
            self@.wf(),
    {
    }

    pub fn new() -> (r: SymbolTable)
        ensures
            r.wf(),
            r@ == SymbolTableView::initial(),
    {
        let mut scopes: Vec<Scope> = Vec::new();
        scopes.push(Scope::with_parent(None));
        let r = SymbolTable { scopes, current_scope: 0 };
        assert(r@.scopes =~= SymbolTableView::initial().scopes);
        r
    }

    /// Opens a new scope inside the current one and moves into it.
    pub fn enter_scope(&mut self)
        requires
            old(self).wf(),
        ensures
            final(self).wf(),
            final(self)@ == old(self)@.entered(),
    {
        let new_scope = Scope::with_parent(Some(self.current_scope));
        self.scopes.push(new_scope);
        self.current_scope = self.scopes.len() - 1;
        assert(self@.scopes =~= old(self)@.entered().scopes);
    }

    /// Moves back to the parent of the current scope; the scope that is
    /// left stays in the table.
    pub fn exit_scope(&mut self)
        requires
            old(self).wf(),
        ensures
            final(self).wf(),
            final(self)@ == old(self)@.exited(),
    {
        assert(self@.scopes[self.current_scope as int] == self.scopes@[self.current_scope as int]@);
        if let Some(parent) = self.scopes[self.current_scope].parent {
            self.current_scope = parent;
        }
    }

    /// Declares `name` in the current scope, unless that scope has it.
    pub fn insert_symbol(&mut self, name: String, symbol: Symbol) -> (r: Result<(), String>)
        requires
            old(self).wf(),
        ensures
            final(self).wf(),
            r is Ok <==> old(self)@.can_insert(name@),
            r is Ok ==> final(self)@ == old(self)@.inserted(name@, symbol@),
            r is Err ==> final(self)@ == old(self)@ && r->Err_0@ == duplicate_symbol_message(name@),
    {
        let c = self.current_scope;
        match self.scopes[c].find(&name) {
            Some(_) => Err(join3("Símbolo '", name.as_str(), "' já declarado neste escopo")),
            None => {
                let ghost n0 = self.scopes@[c as int].names@;
                let ghost s0 = self.scopes@[c as int].symbols@;
                proof {
                    assert forall|i: int| 0 <= i < n0.len() implies n0[i]@ != name@ by {
                        if n0[i]@ == name@ {
                            lemma_bindings_present(n0, s0, i);
                        }
                    }
                }
                self.scopes[c].names.push(name);
                self.scopes[c].symbols.push(symbol);
                proof {
                    assert(self.scopes@[c as int].names@.drop_last() =~= n0);
                    assert(self.scopes@[c as int].symbols@.drop_last() =~= s0);
                    assert(self@.scopes =~= old(self)@.inserted(name@, symbol@).scopes);
                }
                Ok(())
            },
        }
    }

    /// The symbol that `name` resolves to: the current scope first, then
    /// each enclosing scope in turn.
    pub fn lookup(&self, name: &str) -> (r: Option<&Symbol>)
        requires
            self.wf(),
        ensures
            match r {
                Some(s) => self@.lookup(name@) == Some(s@),
                None => self@.lookup(name@) is None,
            },
    {
        let key = String::from_str(name);
        let mut idx = self.current_scope;
        loop
            invariant
                self.wf(),
                key@ == name@,
                idx < self.scopes@.len(),
                self@.resolve(idx as int, key@) == self@.lookup(key@),
            decreases idx,
        {
            match self.scopes[idx].find(&key) {
                Some(i) => {
                    return Some(&self.scopes[idx].symbols[i]);
                },
                None => match self.scopes[idx].parent {
                    Some(p) => {
                        idx = p;
                    },
                    None => {
                        return None;
                    },
                },
            }
        }
    }

    /// The symbol that the current scope itself declares under `name`.
    pub fn lookup_current_scope(&self, name: &str) -> (r: Option<&Symbol>)
        requires
            self.wf(),
        ensures
            match r {
                Some(s) => self@.lookup_current(name@) == Some(s@),
                None => self@.lookup_current(name@) is None,
            },
    {
        let key = String::from_str(name);
        match self.scopes[self.current_scope].find(&key) {
            Some(i) => Some(&self.scopes[self.current_scope].symbols[i]),
            None => None,
        }
    }

    /// Marks as defined the innermost variable called `name`.
    pub fn update_variable_definition(&mut self, name: &str) -> (r: Result<(), String>)
        requires
            old(self).wf(),
        ensures
            final(self).wf(),
            r is Ok <==> old(self)@.variable_scope(old(self)@.current_scope, name@) is Some,
            r is Ok ==> final(self)@ == old(self)@.marked_defined(
                old(self)@.variable_scope(old(self)@.current_scope, name@)->0,
                name@,
            ),
            r is Err ==> final(self)@ == old(self)@ && r->Err_0@ == variable_not_found_message(name@),
    {
        let key = String::from_str(name);
        let mut idx = self.current_scope;
        loop
            invariant
                self.wf(),
                *self == *old(self),
                key@ == name@,
                idx < self.scopes@.len(),
                self@.variable_scope(idx as int, key@) == self@.variable_scope(
                    self@.current_scope,
                    key@,
                ),
            decreases idx,
        {
            let found = self.scopes[idx].find(&key);
            if let Some(i) = found {
                if let Symbol::Variable { name: n, type_, defined: _ } = &self.scopes[idx].symbols[i] {
                    let updated = Symbol::Variable { name: n.clone(), type_: *type_, defined: true };
                    proof {
                        lemma_bindings_update(
                            self.scopes@[idx as int].names@,
                            self.scopes@[idx as int].symbols@,
                            i as int,
                            updated,
                        );
                    }
                    self.scopes[idx].symbols[i] = updated;
                    proof {
                        assert(self@.scopes =~= old(self)@.marked_defined(idx as int, key@).scopes);
                    }
                    return Ok(());
                }
            }
            match self.scopes[idx].parent {
                Some(p) => {
                    idx = p;
                },
                None => {
                    return Err(join3("Variável '", name, "' não encontrada"));
                },
            }
        }
    }

    /// A copy with the same value.
    pub fn duplicate(&self) -> (r: SymbolTable)
        requires
            self.wf(),
        ensures
            r.wf(),
            r@ == self@,
    {
        let mut scopes: Vec<Scope> = Vec::new();
        let mut i: usize = 0;
        while i < self.scopes.len()
            invariant
                self.wf(),
                i <= self.scopes@.len(),
                scopes@.len() == i,
                forall|k: int| 0 <= k < i ==> (#[trigger] scopes@[k]).wf(),
                forall|k: int| 0 <= k < i ==> scopes@[k]@ == self.scopes@[k]@,
            decreases self.scopes@.len() - i,
        {
            scopes.push(self.scopes[i].duplicate());
            i += 1;
        }
        let r = SymbolTable { scopes, current_scope: self.current_scope };
        assert(r@.scopes =~= self@.scopes);
        r
    }
}

} // verus!
