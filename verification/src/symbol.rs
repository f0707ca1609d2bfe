//! Symbol tables with nested scopes.
use vstd::prelude::*;
use crate::ast::Span;
use crate::parser::common::ParserContext;

verus! {

/// The kind of a symbol.
#[derive(Debug, Clone, Copy, PartialEq, Eq, Structural)]
pub enum SymbolKind {
    Variable,
    Function,
    Type,
    Parameter,
}

/// The kind of a type definition.
#[derive(Debug, Clone, Copy, PartialEq, Eq, Structural)]
pub enum TypeKind {
    Struct,
    Enum,
    Trait,
    TypeAlias,
}

/// Details of a type definition.
#[derive(Debug, Clone, PartialEq)]
pub struct TypeInfo {
    /// The kind of the type (struct, enum, trait, alias).
    pub kind: TypeKind,
    /// The type parameters of a generic type.
    pub type_parameters: Vec<String>,
    /// The fields of a record type.
    pub fields: Option<Vec<(String, crate::ast::Type)>>,
    /// The variants of an enum type.
    pub variants: Option<Vec<crate::ast::EnumVariant>>,
    /// The super trait of a trait.
    pub super_trait: Option<crate::ast::Type>,
    /// The type that an alias names.
    pub aliased_type: Option<crate::ast::Type>,
}

/// The kind of a scope.
#[derive(Debug, Clone, Copy, PartialEq, Eq, Structural)]
pub enum ScopeKind {
    Global,
    Module,
    Function,
    Block,
    Loop,
}

/// A symbol and what is known of it.
#[derive(Debug, Clone, PartialEq)]
pub struct Symbol {
    pub name: String,
    pub kind: SymbolKind,
    pub type_annotation: Option<crate::ast::Type>,
    pub declaration_span: Span,
    pub is_mutable: bool,
    pub type_info: Option<TypeInfo>,
    pub is_used: bool,
}

/// A scope: its symbols, its kind, and the enclosing scope.
///
/// No two symbols of one scope have the same name.
#[derive(Debug)]
pub struct SymbolTable {
    symbols: Vec<Symbol>,
    parent: Option<Box<SymbolTable>>,
    scope_kind: ScopeKind,
}

/// No two symbols of the sequence have the same name.
pub open spec fn distinct_names(syms: Seq<Symbol>) -> bool {
    forall|i: int, j: int|
        0 <= i < syms.len() && 0 <= j < syms.len() && i != j ==> #[trigger] syms[i].name@
            != #[trigger] syms[j].name@
}

/// Some symbol of the sequence has the name.
pub open spec fn has_name(syms: Seq<Symbol>, name: Seq<char>) -> bool {
    exists|i: int| 0 <= i < syms.len() && #[trigger] syms[i].name@ == name
}

/// The symbol of the sequence with the name, if any.
pub open spec fn find_local(syms: Seq<Symbol>, name: Seq<char>) -> Option<Symbol> {
    if has_name(syms, name) {
        Some(syms[choose|i: int| 0 <= i < syms.len() && #[trigger] syms[i].name@ == name])
    } else {
        None
    }
}

/// The value behind an optional reference.
pub open spec fn deref_opt<T>(r: Option<&T>) -> Option<T> {
    match r {
        Some(x) => Some(*x),
        None => None,
    }
}

/// The symbol with `is_used` set.
pub open spec fn used(s: Symbol) -> Symbol {
    Symbol { is_used: true, ..s }
}

/// The symbols with those of the given name marked as used.
pub open spec fn mark_named(syms: Seq<Symbol>, name: Seq<char>) -> Seq<Symbol> {
    Seq::new(syms.len(), |i: int| if syms[i].name@ == name { used(syms[i]) } else { syms[i] })
}

/// The symbols that are not used, in order.
pub open spec fn unused_of(syms: Seq<Symbol>) -> Seq<Symbol> {
    syms.filter(|s: Symbol| !s.is_used)
}

/// The symbols of the given kind, in order.
pub open spec fn of_kind(syms: Seq<Symbol>, kind: SymbolKind) -> Seq<Symbol> {
    syms.filter(|s: Symbol| s.kind == kind)
}

/// Filtering a prefix one element longer adds that element when it passes.
pub proof fn lemma_filter_take_step<A>(s: Seq<A>, i: int, pred: spec_fn(A) -> bool)
    requires
        0 <= i < s.len(),
    ensures
        s.take(i + 1).filter(pred) == if pred(s[i]) {
            s.take(i).filter(pred).push(s[i])
        } else {
            s.take(i).filter(pred)
        },
{
    reveal_with_fuel(Seq::<_>::filter, 1);
    assert(s.take(i + 1).drop_last() =~= s.take(i));
}

/// The index of the one symbol with the given name, in a sequence of distinct names.
pub proof fn lemma_find_local_index(syms: Seq<Symbol>, name: Seq<char>, i: int)
    requires
        distinct_names(syms),
        0 <= i < syms.len(),
        syms[i].name@ == name,
    ensures
        find_local(syms, name) == Some(syms[i]),
{
    let k = choose|k: int| 0 <= k < syms.len() && #[trigger] syms[k].name@ == name;
    assert(syms[k].name@ == syms[i].name@);
}

impl SymbolTable {
    /// Well-formedness: in this scope and every enclosing one, no two symbols have the
    /// same name.
    pub closed spec fn wf(self) -> bool
        decreases self,
    {
        &&& distinct_names(self.symbols@)
        &&& match self.parent {
            Some(p) => p.wf(),
            None => true,
        }
    }

    /// The symbols of this scope, in the order they were added.
    pub closed spec fn symbols(self) -> Seq<Symbol> {
        self.symbols@
    }

    /// The enclosing scope.
    pub closed spec fn parent_scope(self) -> Option<SymbolTable> {
        match self.parent {
            Some(p) => Some(*p),
            None => None,
        }
    }

    /// The kind of this scope.
    pub closed spec fn kind(self) -> ScopeKind {
        self.scope_kind
    }

    /// The number of enclosing scopes.
    pub closed spec fn depth(self) -> nat
        decreases self,
    {
        match self.parent {
            Some(p) => 1 + p.depth(),
            None => 0,
        }
    }

    /// The symbol that a name resolves to: in this scope, else in the enclosing ones.
    pub closed spec fn resolve(self, name: Seq<char>) -> Option<Symbol>
        decreases self,
    {
        if has_name(self.symbols@, name) {
            find_local(self.symbols@, name)
        } else {
            match self.parent {
                Some(p) => p.resolve(name),
                None => None,
            }
        }
    }

    /// A well-formed scope has symbols of distinct names, and its enclosing scope is
    /// well formed.
    pub proof fn lemma_wf(self)
        requires
            self.wf(),
        ensures
            distinct_names(self.symbols()),
            self.parent_scope() matches Some(p) ==> p.wf(),
    {
    }

    /// `new` is `old` with the symbol that `name` resolves to marked as used: in the
    /// scope that has the name, that symbol (the only one of that name) is marked and
    /// nothing else changes; the scopes that lack it keep their symbols and kind.
    pub open spec fn marks_used(old: SymbolTable, new: SymbolTable, name: Seq<char>) -> bool
        decreases old.depth(),
    {
        &&& new.kind() == old.kind()
        &&& if has_name(old.symbols(), name) {
            &&& new.parent_scope() == old.parent_scope()
            &&& new.symbols() == mark_named(old.symbols(), name)
        } else {
            &&& new.symbols() == old.symbols()
            &&& match (old.parent_scope(), new.parent_scope()) {
                (Some(p), Some(q)) => {
                    proof {
                        old.lemma_depth_parent();
                    }
                    SymbolTable::marks_used(p, q, name)
                },
                (None, None) => true,
                _ => false,
            }
        }
    }

    /// A new scope of the given kind, with no symbols and no enclosing scope.
    pub fn new(scope_kind: ScopeKind) -> (t: SymbolTable)
        ensures
            t.symbols() == Seq::<Symbol>::empty(),
            t.parent_scope() is None,
            t.kind() == scope_kind,
            t.wf(),
    {
        SymbolTable { symbols: Vec::new(), parent: None, scope_kind }
    }

    /// A new scope of the given kind inside `parent`, with no symbols.
    pub fn with_parent(scope_kind: ScopeKind, parent: SymbolTable) -> (t: SymbolTable)
        requires
            parent.wf(),
        ensures
            t.wf(),
            t.symbols() == Seq::<Symbol>::empty(),
            t.parent_scope() == Some(parent),
            t.kind() == scope_kind,
    {
        SymbolTable { symbols: Vec::new(), parent: Some(Box::new(parent)), scope_kind }
    }

    /// The index of the symbol of this scope with the given name.
    fn find_index(&self, name: &String) -> (r: Option<usize>)
        ensures
            match r {
                Some(i) => i < self.symbols@.len() && self.symbols@[i as int].name@ == name@,
                None => !has_name(self.symbols@, name@),
            },
    {
        let mut i: usize = 0;
        while i < self.symbols.len()
            invariant
                i <= self.symbols@.len(),
                forall|j: int| 0 <= j < i ==> #[trigger] self.symbols@[j].name@ != name@,
            decreases self.symbols@.len() - i,
        {
            if self.symbols[i].name == *name {
                return Some(i);
            }
            i = i + 1;
        }
        None
    }

    /// Adds a symbol to this scope. Fails, changing nothing, when the scope already
    /// has a symbol of that name.
    pub fn add_symbol(&mut self, symbol: Symbol) -> (added: bool)
        requires
            old(self).wf(),
        ensures
            final(self).wf(),
            added == !has_name(old(self).symbols(), symbol.name@),
            added ==> final(self).symbols() == old(self).symbols().push(symbol),
            !added ==> final(self).symbols() == old(self).symbols(),
            final(self).parent_scope() == old(self).parent_scope(),
            final(self).kind() == old(self).kind(),
    {
        match self.find_index(&symbol.name) {
            Some(_) => false,
            None => {
                let ghost old_syms = self.symbols@;
                proof {
                    assert forall|i: int, j: int|
                        0 <= i < old_syms.push(symbol).len() && 0 <= j < old_syms.push(symbol).len()
                            && i != j implies #[trigger] old_syms.push(symbol)[i].name@
                        != #[trigger] old_syms.push(symbol)[j].name@ by {
                        if i == old_syms.len() {
                            assert(old_syms[j].name@ != symbol.name@);
                        } else if j == old_syms.len() {
                            assert(old_syms[i].name@ != symbol.name@);
                        }
                    }
                }
                self.symbols.push(symbol);
                true
            },
        }
    }

    /// The symbol of this scope with the given name.
    pub fn lookup_symbol(&self, name: &str) -> (r: Option<&Symbol>)
        requires
            self.wf(),
        ensures
            deref_opt(r) == find_local(self.symbols(), name@),
    {
        let key = String::from_str(name);
        match self.find_index(&key) {
            Some(i) => {
                proof {
                    lemma_find_local_index(self.symbols@, name@, i as int);
                }
                Some(&self.symbols[i])
            },
            None => None,
        }
    }

    /// The symbol that the name resolves to: in this scope, else in the enclosing ones.
    pub fn lookup_symbol_recursive(&self, name: &str) -> (r: Option<&Symbol>)
        requires
            self.wf(),
        ensures
            deref_opt(r) == self.resolve(name@),
        decreases self,
    {
        let key = String::from_str(name);
        match self.find_index(&key) {
            Some(i) => {
                proof {
                    lemma_find_local_index(self.symbols@, name@, i as int);
                }
                Some(&self.symbols[i])
            },
            None => match &self.parent {
                Some(p) => p.lookup_symbol_recursive(name),
                None => None,
            },
        }
    }

    /// The depth of a scope is one more than that of its enclosing scope.
    pub proof fn lemma_depth_parent(&self)
        ensures
            match self.parent_scope() {
                Some(p) => self.depth() == 1 + p.depth(),
                None => self.depth() == 0,
            },
    {
    }

    /// The enclosing scope, or this scope when there is none.
    pub fn into_enclosing(self) -> (r: SymbolTable)
        requires
            self.wf(),
        ensures
            r.wf(),
            r == match self.parent_scope() {
                Some(p) => p,
                None => self,
            },
    {
        match self.parent {
            Some(p) => *p,
            None => self,
        }
    }

    /// The kind of this scope.
    pub fn scope_kind(&self) -> (k: ScopeKind)
        ensures
            k == self.kind(),
    {
        self.scope_kind
    }

    /// The enclosing scope.
    pub fn parent(&self) -> (p: Option<&SymbolTable>)
        ensures
            deref_opt(p) == self.parent_scope(),
    {
        match &self.parent {
            Some(p) => Some(&**p),
            None => None,
        }
    }

    /// Marks the symbol that the name resolves to as used. Returns whether there was one.
    pub fn mark_symbol_used(&mut self, name: &str) -> (found: bool)
        requires
            old(self).wf(),
        ensures
            final(self).wf(),
            found == old(self).resolve(name@) is Some,
            SymbolTable::marks_used(*old(self), *final(self), name@),
            final(self).depth() == old(self).depth(),
        decreases old(self).depth(),
    {
        let key = String::from_str(name);
        match self.find_index(&key) {
            Some(i) => {
                let mut s = self.symbols.remove(i);
                s.is_used = true;
                let ghost old_syms = old(self).symbols@;
                self.symbols.insert(i, s);
                proof {
                    assert(self.symbols@ =~= old_syms.update(i as int, used(old_syms[i as int])));
                    assert forall|k: int| 0 <= k < old_syms.len() implies #[trigger] mark_named(old_syms, name@)[k]
                        == old_syms.update(i as int, used(old_syms[i as int]))[k] by {
                        if k != i {
                            assert(old_syms[k].name@ != old_syms[i as int].name@);
                        }
                    }
                    assert(mark_named(old_syms, name@) =~= old_syms.update(i as int, used(old_syms[i as int])));
                    assert forall|a: int, b: int|
                        0 <= a < self.symbols@.len() && 0 <= b < self.symbols@.len() && a != b
                            implies #[trigger] self.symbols@[a].name@ != #[trigger] self.symbols@[b].name@ by {
                        assert(old_syms[a].name@ != old_syms[b].name@);
                    }
                }
                true
            },
            None => {
                match self.parent.take() {
                    Some(mut p) => {
                        let found = p.mark_symbol_used(name);
                        self.parent = Some(p);
                        found
                    },
                    None => false,
                }
            },
        }
    }

    /// The symbols of this scope that are not used, in the order they were added.
    pub fn find_unused_symbols(&self) -> (r: Vec<&Symbol>)
        ensures
            r@.len() == unused_of(self.symbols()).len(),
            forall|i: int| 0 <= i < r@.len() ==> *r@[i] == unused_of(self.symbols())[i],
    {
        let mut r: Vec<&Symbol> = Vec::new();
        let mut i: usize = 0;
        while i < self.symbols.len()
            invariant
                i <= self.symbols@.len(),
                r@.len() == unused_of(self.symbols@.take(i as int)).len(),
                forall|k: int| 0 <= k < r@.len() ==> *r@[k] == unused_of(self.symbols@.take(i as int))[k],
            decreases self.symbols@.len() - i,
        {
            proof {
                lemma_filter_take_step(self.symbols@, i as int, |s: Symbol| !s.is_used);
            }
            if !self.symbols[i].is_used {
                r.push(&self.symbols[i]);
            }
            i = i + 1;
        }
        assert(self.symbols@.take(i as int) =~= self.symbols@);
        r
    }

    /// The symbols of this scope of the given kind, in the order they were added.
    pub fn find_symbols_by_kind(&self, kind: SymbolKind) -> (r: Vec<&Symbol>)
        ensures
            r@.len() == of_kind(self.symbols(), kind).len(),
            forall|i: int| 0 <= i < r@.len() ==> *r@[i] == of_kind(self.symbols(), kind)[i],
    {
        let mut r: Vec<&Symbol> = Vec::new();
        let mut i: usize = 0;
        while i < self.symbols.len()
            invariant
                i <= self.symbols@.len(),
                r@.len() == of_kind(self.symbols@.take(i as int), kind).len(),
                forall|k: int| 0 <= k < r@.len() ==> *r@[k] == of_kind(self.symbols@.take(i as int), kind)[k],
            decreases self.symbols@.len() - i,
        {
            proof {
                lemma_filter_take_step(self.symbols@, i as int, |s: Symbol| s.kind == kind);
            }
            if self.symbols[i].kind == kind {
                r.push(&self.symbols[i]);
            }
            i = i + 1;
        }
        assert(self.symbols@.take(i as int) =~= self.symbols@);
        r
    }

    /// All symbols of this scope, in the order they were added; in a well-formed scope
    /// their names are distinct.
    pub fn get_all_symbols(&self) -> (r: Vec<&Symbol>)
        ensures
            r@.len() == self.symbols().len(),
            self.wf() ==> distinct_names(self.symbols()),
            forall|i: int| 0 <= i < r@.len() ==> *r@[i] == self.symbols()[i],
    {
        let mut r: Vec<&Symbol> = Vec::new();
        let mut i: usize = 0;
        while i < self.symbols.len()
            invariant
                i <= self.symbols@.len(),
                r@.len() == i,
                forall|k: int| 0 <= k < i ==> *r@[k] == self.symbols@[k],
            decreases self.symbols@.len() - i,
        {
            r.push(&self.symbols[i]);
            i = i + 1;
        }
        r
    }
}

/// Registers a type symbol (not mutable, not used, with no annotation) in the current
/// scope of the context. Returns whether it was added.
pub fn register_type_symbol(
    ctx: &mut ParserContext,
    name: &str,
    kind: TypeKind,
    type_parameters: Vec<String>,
    span: Span,
) -> (added: bool)
    requires
        old(ctx).scope().wf(),
    ensures
        final(ctx).scope().wf(),
        added == !has_name(old(ctx).scope().symbols(), name@),
        added ==> {
            let s = final(ctx).scope().symbols().last();
            &&& final(ctx).scope().symbols() == old(ctx).scope().symbols().push(s)
            &&& s.name@ == name@
            &&& s.kind == SymbolKind::Type
            &&& s.type_annotation is None
            &&& s.declaration_span == span
            &&& !s.is_mutable
            &&& !s.is_used
            &&& s.type_info matches Some(info) && info.kind == kind && info.type_parameters
                == type_parameters && info.fields is None && info.variants is None
                && info.super_trait is None && info.aliased_type is None
        },
        !added ==> final(ctx).scope().symbols() == old(ctx).scope().symbols(),
        final(ctx).scope().parent_scope() == old(ctx).scope().parent_scope(),
        final(ctx).scope().kind() == old(ctx).scope().kind(),
        final(ctx).original_input == old(ctx).original_input,
        final(ctx).filename == old(ctx).filename,
{
    let symbol = Symbol {
        name: String::from_str(name),
        kind: SymbolKind::Type,
        type_annotation: None,
        declaration_span: span,
        is_mutable: false,
        type_info: Some(
            TypeInfo {
                kind,
                type_parameters,
                fields: None,
                variants: None,
                super_trait: None,
                aliased_type: None,
            },
        ),
        is_used: false,
    };
    ctx.add_symbol(symbol)
}

// ---------------------------------------------------------------------------
// Laws of scopes.
// ---------------------------------------------------------------------------

/// A symbol added under a name that its scope does not have yet is what the name is
/// then found as in that scope, the names stay distinct, and a second symbol of that
/// name would be refused.
pub proof fn law_add_then_lookup(syms: Seq<Symbol>, s: Symbol)
    requires
        distinct_names(syms),
        !has_name(syms, s.name@),
    ensures
        distinct_names(syms.push(s)),
        find_local(syms.push(s), s.name@) == Some(s),
        has_name(syms.push(s), s.name@),
{
    let t = syms.push(s);
    assert forall|i: int, j: int|
        0 <= i < t.len() && 0 <= j < t.len() && i != j implies #[trigger] t[i].name@
        != #[trigger] t[j].name@ by {
        if i == syms.len() {
            assert(syms[j].name@ != s.name@);
        } else if j == syms.len() {
            assert(syms[i].name@ != s.name@);
        }
    }
    assert(t[syms.len() as int] == s);
    lemma_find_local_index(t, s.name@, syms.len() as int);
}

/// A scope looks a name up among its own symbols first; only a name it lacks is looked
/// up in the enclosing scope, and with no enclosing scope it is not found.
pub proof fn law_resolve_inner_first(t: SymbolTable, name: Seq<char>)
    ensures
        has_name(t.symbols(), name) ==> t.resolve(name) == find_local(t.symbols(), name),
        !has_name(t.symbols(), name) ==> t.resolve(name) == match t.parent_scope() {
            Some(p) => p.resolve(name),
            None => None,
        },
{
}

/// What a name resolves to is a symbol of that name, from the scope or an enclosing one.
pub proof fn law_resolve_finds_name(t: SymbolTable, name: Seq<char>)
    ensures
        t.resolve(name) matches Some(s) ==> s.name@ == name,
    decreases t,
{
    if has_name(t.symbols@, name) {
        let k = choose|k: int| 0 <= k < t.symbols@.len() && #[trigger] t.symbols@[k].name@ == name;
        assert(t.symbols@[k].name@ == name);
    } else {
        match t.parent {
            Some(p) => law_resolve_finds_name(*p, name),
            None => {},
        }
    }
}

/// Marking an unused symbol of a scope as used removes exactly one symbol from the
/// unused ones; marking a used one changes nothing there.
pub proof fn law_mark_used_unused_count(syms: Seq<Symbol>, i: int)
    requires
        0 <= i < syms.len(),
    ensures
        unused_of(syms.update(i, used(syms[i]))).len() == unused_of(syms).len() - if syms[i].is_used {
            0int
        } else {
            1int
        },
{
    let pred = |s: Symbol| !s.is_used;
    let a = syms.take(i);
    let b = syms.skip(i + 1);
    assert(syms =~= a + seq![syms[i]] + b);
    assert(syms.update(i, used(syms[i])) =~= a + seq![used(syms[i])] + b);
    Seq::filter_distributes_over_add(a + seq![syms[i]], b, pred);
    Seq::filter_distributes_over_add(a, seq![syms[i]], pred);
    Seq::filter_distributes_over_add(a + seq![used(syms[i])], b, pred);
    Seq::filter_distributes_over_add(a, seq![used(syms[i])], pred);
    reveal_with_fuel(Seq::<_>::filter, 2);
    assert(seq![used(syms[i])].drop_last() =~= Seq::<Symbol>::empty());
    assert(seq![syms[i]].drop_last() =~= Seq::<Symbol>::empty());
}

/// Adding a symbol under a new name changes what no other name is found as in that
/// scope.
pub proof fn law_add_keeps_other_lookups(syms: Seq<Symbol>, s: Symbol, name: Seq<char>)
    requires
        distinct_names(syms),
        !has_name(syms, s.name@),
        name != s.name@,
    ensures
        find_local(syms.push(s), name) == find_local(syms, name),
        has_name(syms.push(s), name) == has_name(syms, name),
{
    law_add_then_lookup(syms, s);
    let t = syms.push(s);
    if has_name(syms, name) {
        let k = choose|k: int| 0 <= k < syms.len() && #[trigger] syms[k].name@ == name;
        assert(t[k] == syms[k]);
        lemma_find_local_index(syms, name, k);
        lemma_find_local_index(t, name, k);
    } else {
        assert forall|k: int| 0 <= k < t.len() implies #[trigger] t[k].name@ != name by {
            if k < syms.len() {
                assert(t[k] == syms[k]);
            }
        }
    }
}

/// Marking the symbol of a name as used leaves the names distinct, makes the name found
/// as that symbol marked used, and changes what no other name is found as.
pub proof fn law_mark_used_lookup(syms: Seq<Symbol>, name: Seq<char>, other: Seq<char>)
    requires
        distinct_names(syms),
        has_name(syms, name),
    ensures
        distinct_names(mark_named(syms, name)),
        find_local(mark_named(syms, name), name) == Some(used(find_local(syms, name)->0)),
        other != name ==> find_local(mark_named(syms, name), other) == find_local(syms, other),
        unused_of(mark_named(syms, name)).len() == unused_of(syms).len() - if find_local(syms, name)->0.is_used {
            0int
        } else {
            1int
        },
{
    let m = mark_named(syms, name);
    let i = choose|i: int| 0 <= i < syms.len() && #[trigger] syms[i].name@ == name;
    assert forall|k: int| 0 <= k < syms.len() implies #[trigger] m[k] == syms.update(i, used(syms[i]))[k] by {
        if k != i {
            assert(syms[k].name@ != syms[i].name@);
        }
    }
    assert(m =~= syms.update(i, used(syms[i])));
    assert forall|a: int, b: int| 0 <= a < m.len() && 0 <= b < m.len() && a != b implies #[trigger] m[a].name@
        != #[trigger] m[b].name@ by {
        assert(syms[a].name@ != syms[b].name@);
    }
    lemma_find_local_index(syms, name, i);
    lemma_find_local_index(m, name, i);
    if other != name && has_name(syms, other) {
        let k = choose|k: int| 0 <= k < syms.len() && #[trigger] syms[k].name@ == other;
        assert(m[k] == syms[k]);
        lemma_find_local_index(syms, other, k);
        lemma_find_local_index(m, other, k);
    } else if other != name {
        assert forall|k: int| 0 <= k < m.len() implies #[trigger] m[k].name@ != other by {
            assert(m[k].name@ == syms[k].name@);
        }
    }
    law_mark_used_unused_count(syms, i);
}

/// Exiting a scope `j` times: each exit returns to the enclosing scope, or stays in a
/// scope without one.
pub open spec fn exit_scopes(t: SymbolTable, j: nat) -> SymbolTable
    decreases j,
{
    if j == 0 {
        t
    } else {
        exit_scopes(
            match t.parent_scope() {
                Some(p) => p,
                None => t,
            },
            (j - 1) as nat,
        )
    }
}

/// Whether each scope of `ts` was entered from the one before it.
pub open spec fn entered_chain(ts: Seq<SymbolTable>) -> bool {
    forall|i: int| 0 <= i < ts.len() - 1 ==> #[trigger] ts[i + 1].parent_scope() == Some(ts[i])
}

/// After entering `m` scopes from a scope `ts[0]`, the depth has grown by `m`; exiting
/// `j <= m` of them returns to the scope entered `m - j` times, whose depth has grown
/// by `m - j`. From a new context (depth 0) the depth is `m - j`.
pub proof fn law_scope_depth(ts: Seq<SymbolTable>, j: nat)
    requires
        ts.len() >= 1,
        entered_chain(ts),
        j < ts.len(),
    ensures
        forall|i: int| 0 <= i < ts.len() ==> #[trigger] ts[i].depth() == ts[0].depth() + i,
        exit_scopes(ts.last(), j) == ts[ts.len() - 1 - j],
        exit_scopes(ts.last(), j).depth() == ts[0].depth() + (ts.len() - 1 - j),
    decreases j,
{
    assert forall|i: int| 0 <= i < ts.len() implies #[trigger] ts[i].depth() == ts[0].depth() + i by {
        lemma_chain_depth(ts, i);
    }
    if j > 0 {
        let n = ts.len() - 1;
        assert(ts[(n - 1) + 1].parent_scope() == Some(ts[n - 1]));
        reveal_with_fuel(exit_scopes, 2);
        let shorter = ts.take(n);
        assert(shorter.last() == ts[n - 1]);
        assert forall|i: int| 0 <= i < shorter.len() - 1 implies #[trigger] shorter[i + 1].parent_scope() == Some(shorter[i]) by {
            assert(ts[i + 1].parent_scope() == Some(ts[i]));
        }
        law_scope_depth(shorter, (j - 1) as nat);
        assert(shorter[shorter.len() - 1 - (j - 1)] == ts[ts.len() - 1 - j]);
    }
}

/// The depth along a chain of entered scopes.
proof fn lemma_chain_depth(ts: Seq<SymbolTable>, i: int)
    requires
        entered_chain(ts),
        0 <= i < ts.len(),
    ensures
        ts[i].depth() == ts[0].depth() + i,
    decreases i,
{
    if i > 0 {
        lemma_chain_depth(ts, i - 1);
        assert(ts[(i - 1) + 1].parent_scope() == Some(ts[i - 1]));
        ts[i].lemma_depth_parent();
    }
}

/// Symbols added to a scope entered from `outer` do not outlive it: after any number of
/// additions (each keeping the enclosing scope, as `add_symbol` does), exiting returns
/// to `outer`, so every name is looked up as it was before the scope was entered.
pub proof fn law_exit_after_adds(outer: SymbolTable, ts: Seq<SymbolTable>, name: Seq<char>)
    requires
        ts.len() >= 1,
        ts[0].parent_scope() == Some(outer),
        forall|i: int| 0 <= i < ts.len() - 1 ==> #[trigger] ts[i + 1].parent_scope() == ts[i].parent_scope(),
    ensures
        exit_scopes(ts.last(), 1) == outer,
        exit_scopes(ts.last(), 1).resolve(name) == outer.resolve(name),
{
    lemma_same_parent(outer, ts, ts.len() - 1);
    reveal_with_fuel(exit_scopes, 2);
}

/// Every scope of the run has `outer` as its enclosing scope.
proof fn lemma_same_parent(outer: SymbolTable, ts: Seq<SymbolTable>, i: int)
    requires
        ts.len() >= 1,
        ts[0].parent_scope() == Some(outer),
        forall|k: int| 0 <= k < ts.len() - 1 ==> #[trigger] ts[k + 1].parent_scope() == ts[k].parent_scope(),
        0 <= i < ts.len(),
    ensures
        ts[i].parent_scope() == Some(outer),
    decreases i,
{
    if i > 0 {
        lemma_same_parent(outer, ts, i - 1);
        assert(ts[(i - 1) + 1].parent_scope() == ts[i - 1].parent_scope());
    }
}

/// Marking keeps the names of the symbols.
proof fn lemma_mark_named_names(syms: Seq<Symbol>, name: Seq<char>, other: Seq<char>)
    ensures
        mark_named(syms, name).len() == syms.len(),
        forall|i: int| 0 <= i < syms.len() ==> #[trigger] mark_named(syms, name)[i].name@ == syms[i].name@,
        has_name(mark_named(syms, name), other) == has_name(syms, other),
{
    let m = mark_named(syms, name);
    if has_name(syms, other) {
        let k = choose|k: int| 0 <= k < syms.len() && #[trigger] syms[k].name@ == other;
        assert(m[k].name@ == other);
    }
    if has_name(m, other) {
        let k = choose|k: int| 0 <= k < m.len() && #[trigger] m[k].name@ == other;
        assert(syms[k].name@ == other);
    }
}

/// Two tables hold the same scopes: at every level the same symbols and kind.
pub open spec fn same_scopes(a: SymbolTable, b: SymbolTable) -> bool
    decreases a.depth(),
{
    &&& a.symbols() == b.symbols()
    &&& a.kind() == b.kind()
    &&& match (a.parent_scope(), b.parent_scope()) {
        (Some(p), Some(q)) => {
            proof {
                a.lemma_depth_parent();
            }
            same_scopes(p, q)
        },
        (None, None) => true,
        _ => false,
    }
}

/// Tables that hold the same scopes resolve every name alike.
pub proof fn law_same_scopes_resolve(a: SymbolTable, b: SymbolTable, name: Seq<char>)
    requires
        same_scopes(a, b),
    ensures
        a.resolve(name) == b.resolve(name),
    decreases a.depth(),
{
    if !has_name(a.symbols@, name) {
        match (a.parent, b.parent) {
            (Some(p), Some(q)) => {
                a.lemma_depth_parent();
                law_same_scopes_resolve(*p, *q, name);
            },
            _ => {},
        }
    }
}

/// Marking a name that was marked already changes nothing, and a name resolves after
/// marking exactly when it did before: a second `mark_symbol_used` of the same name
/// returns the same result as the first and leaves the table with the same scopes as
/// the first left it.
pub proof fn law_mark_used_idempotent(t0: SymbolTable, t1: SymbolTable, t2: SymbolTable, name: Seq<char>)
    requires
        SymbolTable::marks_used(t0, t1, name),
        SymbolTable::marks_used(t1, t2, name),
    ensures
        t1.resolve(name) is Some <==> t0.resolve(name) is Some,
        same_scopes(t2, t1),
    decreases t0.depth(),
{
    lemma_mark_named_names(t0.symbols@, name, name);
    if has_name(t0.symbols@, name) {
        lemma_mark_named_names(t1.symbols@, name, name);
        assert(mark_named(t1.symbols@, name) =~= t1.symbols@);
        lemma_same_scopes_refl_parent(t1);
    } else {
        match (t0.parent, t1.parent, t2.parent) {
            (Some(p0), Some(p1), Some(p2)) => {
                t0.lemma_depth_parent();
                t2.lemma_depth_parent();
                law_mark_used_idempotent(*p0, *p1, *p2, name);
            },
            _ => {},
        }
    }
}

/// A table holds the same scopes as itself.
proof fn lemma_same_scopes_refl_parent(t: SymbolTable)
    ensures
        same_scopes(t, t),
    decreases t.depth(),
{
    match t.parent {
        Some(p) => {
            t.lemma_depth_parent();
            lemma_same_scopes_refl_parent(*p);
        },
        None => {},
    }
}

/// The symbols of a sequence, sorted by their four kinds, are all of its symbols: the
/// lists by kind have lengths that add up to the whole, and no symbol is in two lists.
pub proof fn law_kinds_partition(syms: Seq<Symbol>)
    ensures
        of_kind(syms, SymbolKind::Variable).len() + of_kind(syms, SymbolKind::Function).len()
            + of_kind(syms, SymbolKind::Type).len() + of_kind(syms, SymbolKind::Parameter).len()
            == syms.len(),
        forall|k: SymbolKind, i: int| 0 <= i < of_kind(syms, k).len() ==> (#[trigger] of_kind(syms, k)[i]).kind == k,
    decreases syms.len(),
{
    if syms.len() > 0 {
        let n = syms.len() - 1;
        law_kinds_partition(syms.take(n));
        lemma_filter_take_step(syms, n, |s: Symbol| s.kind == SymbolKind::Variable);
        lemma_filter_take_step(syms, n, |s: Symbol| s.kind == SymbolKind::Function);
        lemma_filter_take_step(syms, n, |s: Symbol| s.kind == SymbolKind::Type);
        lemma_filter_take_step(syms, n, |s: Symbol| s.kind == SymbolKind::Parameter);
        assert(syms.take(n + 1) =~= syms);
    }
    assert forall|k: SymbolKind, i: int| 0 <= i < of_kind(syms, k).len() implies (#[trigger] of_kind(syms, k)[i]).kind == k by {
        let pred = |s: Symbol| s.kind == k;
        Seq::filter_lemma(syms, pred);
        assert(pred(syms.filter(pred)[i]));
    }
}

/// In a scope whose symbols were all added unused (as a new scope after successful
/// additions of unused symbols), every symbol is unused: there are as many unused
/// symbols as symbols, in the same order.
pub proof fn law_added_unused_count(syms: Seq<Symbol>)
    requires
        forall|i: int| 0 <= i < syms.len() ==> !(#[trigger] syms[i]).is_used,
    ensures
        unused_of(syms) == syms,
        unused_of(syms).len() == syms.len(),
    decreases syms.len(),
{
    if syms.len() > 0 {
        let n = syms.len() - 1;
        law_added_unused_count(syms.take(n));
        lemma_filter_take_step(syms, n, |s: Symbol| !s.is_used);
        assert(syms.take(n).push(syms[n]) =~= syms);
        assert(syms.take(n + 1) =~= syms);
    } else {
        reveal_with_fuel(Seq::<_>::filter, 1);
        assert(unused_of(syms) =~= syms);
    }
}

/// Entering a new, empty scope changes no lookup: every name resolves in it as it did
/// in the scope it was entered from.
pub proof fn law_enter_keeps_lookups(outer: SymbolTable, inner: SymbolTable, name: Seq<char>)
    requires
        inner.symbols() == Seq::<Symbol>::empty(),
        inner.parent_scope() == Some(outer),
    ensures
        inner.resolve(name) == outer.resolve(name),
        inner.depth() == outer.depth() + 1,
{
    inner.lemma_depth_parent();
}

} // verus!
