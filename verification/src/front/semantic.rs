//! The symbol table and scopes used by semantic analysis.
use vstd::prelude::*;

use crate::front::ast::Ast;
use crate::front::nodes::statement::stmts_check;
use crate::front::nodes::types::{FunctionType, SpecType, StructType, Type};
use crate::front::token::Position;
use crate::middle::ir::entry_lookup;
use crate::text::same_text;

verus! {

/// What a name stands for.
#[derive(Debug)]
pub enum Symbol {
    Variable(Type),
    Function(FunctionType),
    Struct(StructType),
}

/// The mathematical value of a [`Symbol`]: the kind, with the type as a value.
pub enum SpecSymbol {
    Variable(SpecType),
    Function(SpecType),
    Struct(SpecType),
}

impl View for Symbol {
    type V = SpecSymbol;

    open spec fn view(&self) -> SpecSymbol {
        match self {
            Symbol::Variable(t) => SpecSymbol::Variable(t@),
            Symbol::Function(f) => SpecSymbol::Function(f@),
            Symbol::Struct(s) => SpecSymbol::Struct(s@),
        }
    }
}

impl Clone for Symbol {
    fn clone(&self) -> (r: Self)
        ensures
            r@ == self@,
    {
        match self {
            Symbol::Variable(t) => Symbol::Variable(t.clone()),
            Symbol::Function(f) => Symbol::Function(f.clone()),
            Symbol::Struct(s) => Symbol::Struct(s.clone()),
        }
    }
}

/// The mathematical value of a [`SemanticContext`]: the symbols with their
/// positions (the last entry of a name wins), the names declared in each open
/// scope (innermost last), and the return type of the function being analyzed.
pub struct SpecContext {
    pub table: Seq<(Seq<char>, (SpecSymbol, Position))>,
    pub scopes: Seq<Seq<Seq<char>>>,
    pub ret: Option<SpecType>,
}

pub open spec fn table_view(v: Seq<(String, (Symbol, Position))>) -> Seq<(Seq<char>, (SpecSymbol, Position))> {
    v.map_values(|e: (String, (Symbol, Position))| (e.0@, (e.1.0@, e.1.1)))
}

pub open spec fn scopes_view(v: Seq<Vec<String>>) -> Seq<Seq<Seq<char>>> {
    v.map_values(|s: Vec<String>| s@.map_values(|n: String| n@))
}

pub open spec fn opt_type_view(t: Option<Type>) -> Option<SpecType> {
    match t {
        Some(t) => Some(t@),
        None => None,
    }
}

/// Whether some open scope declares `id`.
pub open spec fn in_scope(scopes: Seq<Seq<Seq<char>>>, id: Seq<char>) -> bool {
    exists|j: int| 0 <= j < scopes.len() && (#[trigger] scopes[j]).contains(id)
}

/// What `lookup` finds for a name: its symbol when some open scope declares it.
pub open spec fn lookup_spec(c: SpecContext, id: Seq<char>) -> Option<(SpecSymbol, Position)> {
    if in_scope(c.scopes, id) {
        entry_lookup(c.table, id)
    } else {
        None
    }
}

/// The context after declaring `id`: it maps to the symbol, and the innermost
/// scope (if any is open) declares it.
pub open spec fn add_symbol_spec(c: SpecContext, id: Seq<char>, sym: (SpecSymbol, Position)) -> SpecContext {
    SpecContext {
        table: c.table.push((id, sym)),
        scopes: if c.scopes.len() == 0 {
            c.scopes
        } else if c.scopes.last().contains(id) {
            c.scopes
        } else {
            c.scopes.update(c.scopes.len() - 1, c.scopes.last().push(id))
        },
        ret: c.ret,
    }
}

pub open spec fn enter_scope_spec(c: SpecContext) -> SpecContext {
    SpecContext { scopes: c.scopes.push(Seq::empty()), ..c }
}

pub open spec fn exit_scope_spec(c: SpecContext) -> SpecContext {
    SpecContext { scopes: if c.scopes.len() == 0 { c.scopes } else { c.scopes.drop_last() }, ..c }
}

pub open spec fn set_return_spec(c: SpecContext, r: Option<SpecType>) -> SpecContext {
    SpecContext { ret: r, ..c }
}

/// The symbol table of semantic analysis: every declared name with its symbol
/// and position, the names declared in each open scope, and the return type
/// of the function being analyzed.
pub struct SemanticContext {
    pub symbol_table: Vec<(String, (Symbol, Position))>,
    pub current_scope: Vec<Vec<String>>,
    pub current_function_return: Option<Type>,
    /// Set when the analysis meets what it cannot check yet: a `break` or a
    /// `continue`, or the type of an undeclared name or of a call of
    /// something that is not a function. The outcome is then not meaningful.
    pub halted: bool,
}

impl View for SemanticContext {
    type V = SpecContext;

    open spec fn view(&self) -> SpecContext {
        SpecContext {
            table: table_view(self.symbol_table@),
            scopes: scopes_view(self.current_scope@),
            ret: opt_type_view(self.current_function_return),
        }
    }
}

fn names_contain(names: &Vec<String>, id: &str) -> (r: bool)
    ensures
        r == names@.map_values(|n: String| n@).contains(id@),
{
    let ghost nv = names@.map_values(|n: String| n@);
    let mut i: usize = 0;
    while i < names.len()
        invariant
            i <= names.len(),
            nv == names@.map_values(|n: String| n@),
            forall|j: int| 0 <= j < i ==> nv[j] != id@,
        decreases names.len() - i,
    {
        if same_text(names[i].as_str(), id) {
            assert(nv[i as int] == id@);
            return true;
        }
        i += 1;
    }
    false
}

fn find_symbol(v: &Vec<(String, (Symbol, Position))>, k: &str) -> (r: Option<usize>)
    ensures
        match r {
            None => entry_lookup(table_view(v@), k@) is None,
            Some(i) => i < v.len() && entry_lookup(table_view(v@), k@) == Some((v@[i as int].1.0@, v@[i as int].1.1)),
        },
{
    let mut i = v.len();
    assert(v@.take(i as int) =~= v@);
    while i > 0
        invariant
            i <= v.len(),
            entry_lookup(table_view(v@), k@) == entry_lookup(table_view(v@.take(i as int)), k@),
        decreases i,
    {
        assert(table_view(v@.take(i as int)).drop_last() =~= table_view(v@.take(i - 1)));
        assert(table_view(v@.take(i as int)).last() == (v@[i - 1].0@, (v@[i - 1].1.0@, v@[i - 1].1.1)));
        if same_text(v[i - 1].0.as_str(), k) {
            return Some(i - 1);
        }
        i -= 1;
    }
    assert(table_view(v@.take(0)) =~= Seq::<(Seq<char>, (SpecSymbol, Position))>::empty());
    None
}

impl SemanticContext {
    /// A context with one open (global) scope, no symbols, and no function being analyzed.
    pub fn new() -> (c: Self)
        ensures
            c@.table.len() == 0,
            c@.scopes == seq![Seq::<Seq<char>>::empty()],
            c@.ret is None,
            !c.halted,
    {
        let mut scopes: Vec<Vec<String>> = Vec::new();
        scopes.push(Vec::new());
        let c = SemanticContext { symbol_table: Vec::new(), current_scope: scopes, current_function_return: None, halted: false };
        assert(c@.table =~= Seq::<(Seq<char>, (SpecSymbol, Position))>::empty());
        assert(c@.scopes =~~= seq![Seq::<Seq<char>>::empty()]);
        c
    }

    /// Opens a new innermost scope.
    pub fn enter_scope(&mut self)
        ensures
            final(self)@ == enter_scope_spec(old(self)@),
            final(self).halted == old(self).halted,
    {
        self.current_scope.push(Vec::new());
        assert(final(self)@.scopes =~~= old(self)@.scopes.push(Seq::empty()));
    }

    /// Closes the innermost scope, if any is open. Its names stay in the
    /// symbol table but are no longer found by `lookup`.
    pub fn exit_scope(&mut self)
        ensures
            final(self)@ == exit_scope_spec(old(self)@),
            final(self).halted == old(self).halted,
    {
        let _ = self.current_scope.pop();
        assert(final(self)@.scopes =~= exit_scope_spec(old(self)@).scopes);
    }

    /// Declares `id` as `symbol` in the innermost scope.
    pub fn add_symbol(&mut self, id: &str, symbol: (Symbol, Position))
        ensures
            final(self)@ == add_symbol_spec(old(self)@, id@, (symbol.0@, symbol.1)),
            final(self).halted == old(self).halted,
    {
        let ghost c = self@;
        self.symbol_table.push((String::from_str(id), symbol));
        assert(self@.table =~= c.table.push((id@, (symbol.0@, symbol.1))));
        let n = self.current_scope.len();
        if n > 0 {
            if !names_contain(&self.current_scope[n - 1], id) {
                let mut last = self.current_scope.pop().unwrap();
                last.push(String::from_str(id));
                assert(last@.map_values(|n: String| n@) =~= c.scopes.last().push(id@));
                self.current_scope.push(last);
                assert(self@.scopes =~~= c.scopes.update(c.scopes.len() - 1, c.scopes.last().push(id@)));
            }
        }
    }

    /// The symbol of `id` when some open scope declares it.
    pub fn lookup(&self, id: &str) -> (r: Option<&(Symbol, Position)>)
        ensures
            match r {
                Some(e) => lookup_spec(self@, id@) == Some((e.0@, e.1)),
                None => lookup_spec(self@, id@) is None,
            },
    {
        let ghost sv = scopes_view(self.current_scope@);
        let mut k = self.current_scope.len();
        while k > 0
            invariant
                k <= self.current_scope.len(),
                sv == scopes_view(self.current_scope@),
                forall|j: int| k <= j < sv.len() ==> !(#[trigger] sv[j]).contains(id@),
            decreases k,
        {
            if names_contain(&self.current_scope[k - 1], id) {
                assert(sv[k - 1].contains(id@));
                return match find_symbol(&self.symbol_table, id) {
                    Some(i) => Some(&self.symbol_table[i].1),
                    None => None,
                };
            }
            k -= 1;
        }
        None
    }
}

pub struct SemanticAnalyzer {
    ast: Box<Ast>,
}

impl SemanticAnalyzer {
    /// The analyzer of a tree.
    pub closed spec fn tree(&self) -> Ast {
        *self.ast
    }

    pub fn new(ast: Box<Ast>) -> (a: SemanticAnalyzer)
        ensures
            a.tree() == *ast,
    {
        SemanticAnalyzer { ast }
    }

    /// Analyzes the tree's definitions in order; hands the tree back when
    /// they are all accepted, else the first error.
    pub fn analyze(self, ctx: &mut SemanticContext) -> (r: Result<Box<Ast>, String>)
        requires
            !old(ctx).halted,
        ensures
            final(ctx).halted == (stmts_check(self.tree()@, old(ctx)@) is None),
            final(ctx).halted ==> r is Err,
            !final(ctx).halted ==> match r {
                Ok(a) => *a == self.tree() && stmts_check(self.tree()@, old(ctx)@) == Some((final(ctx)@, Ok::<(), Seq<char>>(()))),
                Err(m) => stmts_check(self.tree()@, old(ctx)@) == Some((final(ctx)@, Err::<(), Seq<char>>(m@))),
            },
    {
        self.ast.analyze(ctx)?;
        Ok(self.ast)
    }
}

} // verus!

verus! {

// ---------------------------------------------------------------------------
// Laws of the symbol table
// ---------------------------------------------------------------------------

proof fn lemma_entry_lookup_push<V>(v: Seq<(Seq<char>, V)>, k: Seq<char>, x: V, o: Seq<char>)
    ensures
        entry_lookup(v.push((k, x)), k) == Some(x),
        o != k ==> entry_lookup(v.push((k, x)), o) == entry_lookup(v, o),
{
    assert(v.push((k, x)).drop_last() =~= v);
}

/// A name just declared, while a scope is open, is found with its symbol.
pub proof fn law_lookup_after_add(c: SpecContext, id: Seq<char>, sym: (SpecSymbol, Position))
    requires
        c.scopes.len() > 0,
    ensures
        lookup_spec(add_symbol_spec(c, id, sym), id) == Some(sym),
{
    let c2 = add_symbol_spec(c, id, sym);
    lemma_entry_lookup_push(c.table, id, sym, id);
    let j = c.scopes.len() - 1;
    assert(c2.scopes[j].contains(id)) by {
        if !c.scopes.last().contains(id) {
            assert(c2.scopes[j] == c.scopes.last().push(id));
            assert(c2.scopes[j][c.scopes.last().len() as int] == id);
        }
    }
}

/// Declaring a name does not change what any other name is found with.
pub proof fn law_add_keeps_other_names(c: SpecContext, id: Seq<char>, sym: (SpecSymbol, Position), other: Seq<char>)
    requires
        other != id,
    ensures
        lookup_spec(add_symbol_spec(c, id, sym), other) == lookup_spec(c, other),
{
    let c2 = add_symbol_spec(c, id, sym);
    lemma_entry_lookup_push(c.table, id, sym, other);
    if c.scopes.len() > 0 && !c.scopes.last().contains(id) {
        let j = c.scopes.len() - 1;
        assert(c2.scopes[j] == c.scopes.last().push(id));
        assert forall|k: int| 0 <= k < c.scopes.len() implies (#[trigger] c2.scopes[k]).contains(other) == c.scopes[k].contains(
            other,
        ) by {
            if k == j {
                if c.scopes[k].contains(other) {
                    let w = choose|w: int| 0 <= w < c.scopes[k].len() && c.scopes[k][w] == other;
                    assert(c2.scopes[k][w] == other);
                }
                if c2.scopes[k].contains(other) {
                    let w = choose|w: int| 0 <= w < c2.scopes[k].len() && c2.scopes[k][w] == other;
                    assert(c.scopes[k][w] == other);
                }
            }
        }
        if in_scope(c.scopes, other) {
            let k = choose|k: int| 0 <= k < c.scopes.len() && (#[trigger] c.scopes[k]).contains(other);
            assert(c2.scopes[k].contains(other));
        }
        if in_scope(c2.scopes, other) {
            let k = choose|k: int| 0 <= k < c2.scopes.len() && (#[trigger] c2.scopes[k]).contains(other);
            assert(c.scopes[k].contains(other));
        }
    }
}

/// Closing a scope just opened gives back the context.
pub proof fn law_exit_undoes_enter(c: SpecContext)
    ensures
        exit_scope_spec(enter_scope_spec(c)) == c,
{
    assert(enter_scope_spec(c).scopes.drop_last() =~= c.scopes);
}

/// A name declared in a scope that is then closed is not found any more,
/// unless an enclosing scope declared it before.
pub proof fn law_scoped_name_disappears(c: SpecContext, id: Seq<char>, sym: (SpecSymbol, Position))
    requires
        !in_scope(c.scopes, id),
    ensures
        lookup_spec(exit_scope_spec(add_symbol_spec(enter_scope_spec(c), id, sym)), id) is None,
{
    let c1 = enter_scope_spec(c);
    let c2 = add_symbol_spec(c1, id, sym);
    let c3 = exit_scope_spec(c2);
    assert(c2.scopes.len() == c1.scopes.len());
    assert(c3.scopes =~= c.scopes) by {
        assert forall|k: int| 0 <= k < c.scopes.len() implies c3.scopes[k] == c.scopes[k] by {
            assert(c2.scopes[k] == c1.scopes[k]);
        }
    }
}

} // verus!
