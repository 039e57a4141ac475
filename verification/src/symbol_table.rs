use crate::error::Error;
use crate::text::spec_nat_str;
use crate::text::str_eq;
use crate::text::usize_to_string;
use vstd::prelude::*;
use vstd::string::StringExecFns;

verus! {

/// The type of a symbol: the return type of a function or the type of a
/// variable or parameter.
#[derive(Debug, Copy, Clone, PartialEq, Eq, Structural)]
pub enum SymbolType {
    Void,
    Boolean,
    Integer,
    Float,
    String,
}

/// The class of a symbol: functions (with their parameter list), function
/// parameters, and plain variables.
#[derive(Debug)]
pub enum SymbolClass {
    Function { parameters: Vec<Symbol> },
    Parameter,
    Variable,
}

/// A symbol in the symbol table: a name, a monotonically assigned id, a type,
/// and a class.  Equality compares name, type and class, never the id.
#[derive(Debug)]
pub struct Symbol {
    pub name: String,
    pub id: usize,
    pub symbol_type: SymbolType,
    pub symbol_class: SymbolClass,
}

fn clone_params(ps: &Vec<Symbol>) -> (r: Vec<Symbol>)
    ensures
        r@.len() == ps@.len(),
        spec_params_eq(r@, ps@, 0),
    decreases ps@, 0int,
{
    let mut r: Vec<Symbol> = Vec::new();
    let mut i: usize = 0;
    while i < ps.len()
        invariant
            i <= ps@.len(),
            r@.len() == i,
            forall|k: int| 0 <= k < i ==> spec_sym_eq(#[trigger] r@[k], ps@[k]),
        decreases ps@.len() - i,
    {
        r.push(clone_symbol(&ps[i]));
        i += 1;
    }
    proof {
        lemma_params_eq_pointwise(r@, ps@, 0);
    }
    r
}

fn clone_class(c: &SymbolClass) -> (r: SymbolClass)
    ensures
        spec_class_eq(r, *c),
    decreases *c, 1int,
{
    match c {
        SymbolClass::Function { parameters } => SymbolClass::Function {
            parameters: clone_params(parameters),
        },
        SymbolClass::Parameter => SymbolClass::Parameter,
        SymbolClass::Variable => SymbolClass::Variable,
    }
}

fn clone_symbol(s: &Symbol) -> (r: Symbol)
    ensures
        spec_sym_eq(r, *s),
        r.id == s.id,
    decreases *s, 2int,
{
    Symbol {
        name: s.name.clone(),
        id: s.id,
        symbol_type: s.symbol_type,
        symbol_class: clone_class(&s.symbol_class),
    }
}

impl Clone for Symbol {
    /// A deep copy: equal to the original under symbol equality, with the
    /// same id.
    fn clone(&self) -> (r: Self)
        ensures
            spec_sym_eq(r, *self),
            r.id == self.id,
    {
        clone_symbol(self)
    }
}

impl Clone for SymbolClass {
    /// A deep copy, equal to the original under class equality.
    fn clone(&self) -> (r: Self)
        ensures
            spec_class_eq(r, *self),
    {
        clone_class(self)
    }
}

/// Pointwise symbol equality of two sequences gives the recursive
/// parameter-list equality.
proof fn lemma_params_eq_pointwise(a: Seq<Symbol>, b: Seq<Symbol>, i: int)
    requires
        a.len() == b.len(),
        0 <= i <= a.len(),
        forall|k: int| 0 <= k < a.len() ==> spec_sym_eq(#[trigger] a[k], b[k]),
    ensures
        spec_params_eq(a, b, i),
    decreases a.len() - i,
{
    if i < a.len() {
        lemma_params_eq_pointwise(a, b, i + 1);
    }
}

/// Symbol equality disregarding ids: names, types and classes agree.
pub open spec fn spec_sym_eq(a: Symbol, b: Symbol) -> bool
    decreases a, 0int,
{
    &&& a.name@ == b.name@
    &&& a.symbol_type == b.symbol_type
    &&& spec_class_eq(a.symbol_class, b.symbol_class)
}

/// Class equality: same variant, and for functions the parameter lists are
/// element-wise equal (again disregarding ids).
pub open spec fn spec_class_eq(a: SymbolClass, b: SymbolClass) -> bool
    decreases a, 0int,
{
    match (a, b) {
        (SymbolClass::Function { parameters: pa }, SymbolClass::Function { parameters: pb }) => {
            pa@.len() == pb@.len() && spec_params_eq(pa@, pb@, 0)
        },
        (SymbolClass::Parameter, SymbolClass::Parameter) => true,
        (SymbolClass::Variable, SymbolClass::Variable) => true,
        _ => false,
    }
}

/// Element-wise symbol equality of two parameter lists from position `i` on.
pub open spec fn spec_params_eq(pa: Seq<Symbol>, pb: Seq<Symbol>, i: int) -> bool
    decreases pa, pa.len() - i,
{
    i >= pa.len() || i < 0 || (spec_sym_eq(pa[i], pb[i]) && spec_params_eq(pa, pb, i + 1))
}

fn eq_params(pa: &Vec<Symbol>, pb: &Vec<Symbol>, i: usize) -> (r: bool)
    requires
        pa@.len() == pb@.len(),
        i <= pa@.len(),
    ensures
        r == spec_params_eq(pa@, pb@, i as int),
    decreases pa@, pa@.len() - i,
{
    if i >= pa.len() {
        true
    } else {
        if eq_symbol(&pa[i], &pb[i]) {
            eq_params(pa, pb, i + 1)
        } else {
            false
        }
    }
}

fn eq_class(a: &SymbolClass, b: &SymbolClass) -> (r: bool)
    ensures
        r == spec_class_eq(*a, *b),
    decreases *a, 0int,
{
    match (a, b) {
        (SymbolClass::Function { parameters: pa }, SymbolClass::Function { parameters: pb }) => {
            pa.len() == pb.len() && eq_params(pa, pb, 0)
        },
        (SymbolClass::Parameter, SymbolClass::Parameter) => true,
        (SymbolClass::Variable, SymbolClass::Variable) => true,
        _ => false,
    }
}

fn eq_symbol(a: &Symbol, b: &Symbol) -> (r: bool)
    ensures
        r == spec_sym_eq(*a, *b),
    decreases *a, 0int,
{
    str_eq(a.name.as_str(), b.name.as_str()) && a.symbol_type == b.symbol_type && eq_class(
        &a.symbol_class,
        &b.symbol_class,
    )
}

impl PartialEq for Symbol {
    fn eq(&self, other: &Symbol) -> (r: bool) {
        eq_symbol(self, other)
    }
}

impl vstd::std_specs::cmp::PartialEqSpecImpl for Symbol {
    open spec fn obeys_eq_spec() -> bool {
        true
    }

    open spec fn eq_spec(&self, other: &Symbol) -> bool {
        spec_sym_eq(*self, *other)
    }
}

impl Symbol {
    /// Whether the symbol names a function.
    pub fn is_function(&self) -> (r: bool)
        ensures
            r == (self.symbol_class is Function),
    {
        match self.symbol_class {
            SymbolClass::Function { .. } => true,
            _ => false,
        }
    }
}

/// Whether some symbol in the scope carries the given name.
pub open spec fn scope_contains_name(s: Seq<Symbol>, name: Seq<char>) -> bool {
    exists|j: int| 0 <= j < s.len() && s[j].name@ == name
}

/// Whether all names in the scope are pairwise distinct.
pub open spec fn distinct_names(s: Seq<Symbol>) -> bool {
    forall|j: int, k: int| 0 <= j < k < s.len() ==> s[j].name@ != s[k].name@
}

/// The total number of symbols over a sequence of scopes.
pub open spec fn total_symbols(ss: Seq<Seq<Symbol>>) -> int
    decreases ss.len(),
{
    if ss.len() == 0 {
        0
    } else {
        total_symbols(ss.drop_last()) + ss.last().len()
    }
}

/// The number of function symbols in a scope.
pub open spec fn count_functions(s: Seq<Symbol>) -> int
    decreases s.len(),
{
    if s.len() == 0 {
        0
    } else {
        count_functions(s.drop_last()) + if s.last().symbol_class is Function {
            1int
        } else {
            0int
        }
    }
}

/// Innermost-first lookup of a name: the position of the first binding found
/// when scanning from the current scope outwards.
pub open spec fn spec_lookup(ss: Seq<Seq<Symbol>>, name: Seq<char>) -> Option<(int, int)>
    decreases ss.len(),
{
    if ss.len() == 0 {
        None
    } else {
        match spec_find_name(ss.last(), name, 0) {
            Some(j) => Some((ss.len() - 1, j)),
            None => spec_lookup(ss.drop_last(), name),
        }
    }
}

/// The position of the first symbol with the given name in a scope, scanning
/// front to back from position `i`.
pub open spec fn spec_find_name(s: Seq<Symbol>, name: Seq<char>, i: int) -> Option<int>
    decreases s.len() - i,
{
    if i < 0 || i >= s.len() {
        None
    } else if s[i].name@ == name {
        Some(i)
    } else {
        spec_find_name(s, name, i + 1)
    }
}

/// The position of the first symbol with the given id, scanning scopes
/// innermost first and each scope front to back.
pub open spec fn spec_find_id(ss: Seq<Seq<Symbol>>, id: usize) -> Option<(int, int)>
    decreases ss.len(),
{
    if ss.len() == 0 {
        None
    } else {
        match spec_find_id_in(ss.last(), id, 0) {
            Some(j) => Some((ss.len() - 1, j)),
            None => spec_find_id(ss.drop_last(), id),
        }
    }
}

/// The position of the first symbol with the given id in a scope from
/// position `i` on.
pub open spec fn spec_find_id_in(s: Seq<Symbol>, id: usize, i: int) -> Option<int>
    decreases s.len() - i,
{
    if i < 0 || i >= s.len() {
        None
    } else if s[i].id == id {
        Some(i)
    } else {
        spec_find_id_in(s, id, i + 1)
    }
}

/// The rendering of a symbol in diagnostics: its name, id, type and class.
pub open spec fn spec_symbol_text(s: Symbol) -> Seq<char>
    decreases s, 1int,
{
    "Symbol(name: "@ + s.name@ + ", id: "@ + spec_nat_str(s.id as int) + ", type: "@
        + crate::syntax_c1::spec_type_name(s.symbol_type) + ", class: "@ + spec_class_text(
        s.symbol_class,
    ) + ")"@
}

/// The rendering of a symbol class: its variant, and for functions the
/// bracketed list of its parameters.
pub open spec fn spec_class_text(c: SymbolClass) -> Seq<char>
    decreases c, 0int,
{
    match c {
        SymbolClass::Function { parameters } => "Function { parameters: ["@ + spec_params_text(
            parameters@,
            0,
        ) + "] }"@,
        SymbolClass::Parameter => "Parameter"@,
        SymbolClass::Variable => "Variable"@,
    }
}

/// The renderings of the parameters from position `i` on, separated by
/// commas.
pub open spec fn spec_params_text(ps: Seq<Symbol>, i: int) -> Seq<char>
    decreases ps, ps.len() - i,
{
    if i < 0 || i >= ps.len() {
        Seq::<char>::empty()
    } else if i == ps.len() - 1 {
        spec_symbol_fields_text(ps[i])
    } else {
        spec_symbol_fields_text(ps[i]) + ", "@ + spec_params_text(ps, i + 1)
    }
}

/// The field-by-field rendering of a nested symbol, with its name quoted.
pub open spec fn spec_symbol_fields_text(s: Symbol) -> Seq<char>
    decreases s, 1int,
{
    "Symbol { name: \""@ + s.name@ + "\", id: "@ + spec_nat_str(s.id as int)
        + ", symbol_type: "@ + crate::syntax_c1::spec_type_name(s.symbol_type)
        + ", symbol_class: "@ + spec_class_text(s.symbol_class) + " }"@
}

/// Appends the rendering of a symbol class.
fn class_text_into(c: &SymbolClass, out: &mut String)
    ensures
        final(out)@ == old(out)@ + spec_class_text(*c),
    decreases *c, 0int,
{
    match c {
        SymbolClass::Function { parameters } => {
            out.append("Function { parameters: [");
            params_text_into(parameters, 0, out);
            out.append("] }");
        },
        SymbolClass::Parameter => out.append("Parameter"),
        SymbolClass::Variable => out.append("Variable"),
    }
}

/// Appends the comma-separated renderings of the parameters from `i` on.
fn params_text_into(ps: &Vec<Symbol>, i: usize, out: &mut String)
    requires
        i <= ps@.len(),
    ensures
        final(out)@ == old(out)@ + spec_params_text(ps@, i as int),
    decreases ps@, ps@.len() - i,
{
    if i < ps.len() {
        symbol_fields_text_into(&ps[i], out);
        if i + 1 < ps.len() {
            out.append(", ");
            params_text_into(ps, i + 1, out);
        }
    }
    proof {
        assert(out@ =~= old(out)@ + spec_params_text(ps@, i as int));
    }
}

/// Appends the field-by-field rendering of a nested symbol.
fn symbol_fields_text_into(s: &Symbol, out: &mut String)
    ensures
        final(out)@ == old(out)@ + spec_symbol_fields_text(*s),
    decreases *s, 1int,
{
    out.append("Symbol { name: \"");
    out.append(s.name.as_str());
    out.append("\", id: ");
    let id = usize_to_string(s.id);
    out.append(id.as_str());
    out.append(", symbol_type: ");
    out.append(crate::syntax_c1::type_name_str(s.symbol_type));
    out.append(", symbol_class: ");
    class_text_into(&s.symbol_class, out);
    out.append(" }");
    proof {
        assert(out@ =~= old(out)@ + spec_symbol_fields_text(*s));
    }
}

/// Appends the diagnostic rendering of a symbol.
fn symbol_text_into(s: &Symbol, out: &mut String)
    ensures
        final(out)@ == old(out)@ + spec_symbol_text(*s),
    decreases *s, 1int,
{
    out.append("Symbol(name: ");
    out.append(s.name.as_str());
    out.append(", id: ");
    let id = usize_to_string(s.id);
    out.append(id.as_str());
    out.append(", type: ");
    out.append(crate::syntax_c1::type_name_str(s.symbol_type));
    out.append(", class: ");
    class_text_into(&s.symbol_class, out);
    out.append(")");
    proof {
        assert(out@ =~= old(out)@ + spec_symbol_text(*s));
    }
}

/// The message reported when a symbol is declared twice in one scope: the
/// symbol's full rendering, followed by the scope count.
pub open spec fn spec_dup_msg(sym: Symbol, depth: int) -> Seq<char> {
    spec_symbol_text(sym) + " has been defined twice in the current scope ("@ + spec_nat_str(
        depth,
    ) + ")"@
}

/// A scope-aware symbol table: a stack of scopes, a symbol counter, the ids
/// of the functions in scope in declaration order, and the return type of the
/// function whose body is being parsed.
#[derive(Debug)]
pub struct SymbolTable {
    scopes: Vec<Vec<Symbol>>,
    num_symbols: usize,
    function_ids: Vec<usize>,
    function_type: Option<SymbolType>,
}

impl SymbolTable {
    /// The stack of scopes, outermost (global) first.
    pub closed spec fn scopes_view(self) -> Seq<Seq<Symbol>> {
        self.scopes@.map(|i: int, s: Vec<Symbol>| s@)
    }

    /// The number of symbols currently in the table.
    pub closed spec fn num_symbols_view(self) -> int {
        self.num_symbols as int
    }

    /// The ids of the functions in scope, oldest first.
    pub closed spec fn function_ids_view(self) -> Seq<usize> {
        self.function_ids@
    }

    /// The return type of the function being parsed, if any.
    pub closed spec fn function_type_view(self) -> Option<SymbolType> {
        self.function_type
    }

    /// Table invariant: at least the global scope exists, names are unique
    /// per scope, and the symbol counter equals the sum of the scope sizes.
    pub open spec fn wf(self) -> bool {
        &&& self.scopes_view().len() >= 1
        &&& forall|i: int|
            0 <= i < self.scopes_view().len() ==> distinct_names(#[trigger] self.scopes_view()[i])
        &&& self.num_symbols_view() == total_symbols(self.scopes_view())
    }

    /// Creates a table holding only an empty global scope.
    pub fn new() -> (r: Self)
        ensures
            r.wf(),
            r.scopes_view() =~= seq![Seq::<Symbol>::empty()],
            r.num_symbols_view() == 0,
            r.function_ids_view() =~= Seq::<usize>::empty(),
            r.function_type_view() is None,
    {
        let mut scopes: Vec<Vec<Symbol>> = Vec::new();
        scopes.push(Vec::new());
        let r = SymbolTable { scopes, num_symbols: 0, function_ids: Vec::new(), function_type: None };
        proof {
            assert(r.scopes_view() =~= seq![Seq::<Symbol>::empty()]);
            assert(r.scopes_view().drop_last() =~= Seq::<Seq<Symbol>>::empty());
            assert(total_symbols(Seq::<Seq<Symbol>>::empty()) == 0);
            assert(total_symbols(r.scopes_view()) == 0);
        }
        r
    }

    /// Creates a fresh symbol for a function with an empty parameter list.
    pub fn function_symbol(&self, name: String, symbol_type: SymbolType) -> (r: Symbol)
        ensures
            r.name == name,
            r.id == self.num_symbols_view(),
            r.symbol_type == symbol_type,
            r.symbol_class matches SymbolClass::Function { parameters } && parameters@
                =~= Seq::<Symbol>::empty(),
    {
        Symbol {
            name,
            id: self.num_symbols,
            symbol_type,
            symbol_class: SymbolClass::Function { parameters: Vec::new() },
        }
    }

    /// Creates a fresh symbol for a variable.
    pub fn variable_symbol(&self, name: String, symbol_type: SymbolType) -> (r: Symbol)
        ensures
            r.name == name,
            r.id == self.num_symbols_view(),
            r.symbol_type == symbol_type,
            r.symbol_class is Variable,
    {
        Symbol { name, id: self.num_symbols, symbol_type, symbol_class: SymbolClass::Variable }
    }

    /// Creates a fresh symbol for a function parameter.
    pub fn parameter_symbol(&self, name: String, symbol_type: SymbolType) -> (r: Symbol)
        ensures
            r.name == name,
            r.id == self.num_symbols_view(),
            r.symbol_type == symbol_type,
            r.symbol_class is Parameter,
    {
        Symbol { name, id: self.num_symbols, symbol_type, symbol_class: SymbolClass::Parameter }
    }

    /// The return type of the function whose body is being parsed, or `None`
    /// outside any function body.
    pub fn function_type(&self) -> (r: Option<SymbolType>)
        ensures
            r == self.function_type_view(),
    {
        self.function_type
    }

    /// Forgets the current function's return type; called when the parser
    /// leaves a function definition.
    pub fn clear_function_type(&mut self)
        ensures
            final(self).scopes_view() == old(self).scopes_view(),
            final(self).num_symbols_view() == old(self).num_symbols_view(),
            final(self).function_ids_view() == old(self).function_ids_view(),
            final(self).function_type_view() is None,
            old(self).wf() ==> final(self).wf(),
    {
        self.function_type = None;
    }

    /// The number of scopes currently on the stack.
    pub fn depth(&self) -> (r: usize)
        ensures
            r == self.scopes_view().len(),
    {
        self.scopes.len()
    }

    /// The number of symbols currently in the table.
    pub fn num_symbols(&self) -> (r: usize)
        ensures
            r == self.num_symbols_view(),
    {
        self.num_symbols
    }


    /// The number of symbols in the scope at the given depth, or zero for
    /// a depth that does not exist.
    pub fn scope_len(&self, i: usize) -> (r: usize)
        ensures
            r == if i < self.scopes_view().len() {
                self.scopes_view()[i as int].len()
            } else {
                0
            },
    {
        if i < self.scopes.len() {
            self.scopes[i].len()
        } else {
            0
        }
    }

    /// Looks a name up in the single scope at the given depth.
    pub fn get_in_scope(&self, i: usize, name: &str) -> (r: Option<&Symbol>)
        ensures
            i < self.scopes_view().len() ==> match spec_find_name(
                self.scopes_view()[i as int],
                name@,
                0,
            ) {
                Some(j) => r matches Some(sym) && *sym == self.scopes_view()[i as int][j],
                None => r is None,
            },
            i >= self.scopes_view().len() ==> r is None,
    {
        if i < self.scopes.len() {
            let scope = &self.scopes[i];
            match Self::find_in_scope(scope, name) {
                Some(j) => Some(&scope[j]),
                None => None,
            }
        } else {
            None
        }
    }

    /// Enters a new, empty scope.
    pub fn enter_scope(&mut self)
        ensures
            final(self).scopes_view() =~= old(self).scopes_view().push(Seq::<Symbol>::empty()),
            final(self).num_symbols_view() == old(self).num_symbols_view(),
            final(self).function_ids_view() == old(self).function_ids_view(),
            final(self).function_type_view() == old(self).function_type_view(),
            old(self).wf() ==> final(self).wf(),
    {
        self.scopes.push(Vec::new());
        proof {
            assert(self.scopes_view() =~= old(self).scopes_view().push(Seq::<Symbol>::empty()));
            if old(self).wf() {
                assert(self.scopes_view().drop_last() =~= old(self).scopes_view());
                assert(self.scopes_view().last() =~= Seq::<Symbol>::empty());
            }
        }
    }

    /// Leaves the current scope, dropping its symbols.  For every function
    /// symbol in the dropped scope one id is popped from the function id
    /// stack and the current function type is forgotten.
    pub fn leave_scope(&mut self)
        requires
            old(self).wf(),
            old(self).scopes_view().len() > 1,
        ensures
            final(self).wf(),
            final(self).scopes_view() =~= old(self).scopes_view().drop_last(),
            final(self).num_symbols_view() == old(self).num_symbols_view() - old(
                self,
            ).scopes_view().last().len(),
            ({
                let k = count_functions(old(self).scopes_view().last());
                let n = old(self).function_ids_view().len();
                &&& final(self).function_ids_view() =~= old(self).function_ids_view().take(
                    if n - k >= 0 {
                        n - k
                    } else {
                        0
                    },
                )
                &&& final(self).function_type_view() == if k > 0 {
                    None::<SymbolType>
                } else {
                    old(self).function_type_view()
                }
            }),
    {
        proof {
            lemma_total_last(self.scopes_view());
        }
        let popped = self.scopes.pop().unwrap();
        proof {
            assert(self.scopes_view() =~= old(self).scopes_view().drop_last());
            assert(popped@ == old(self).scopes_view().last());
        }
        self.num_symbols = self.num_symbols - popped.len();

        let ghost orig_ids = self.function_ids@;
        let mut i: usize = 0;
        while i < popped.len()
            invariant
                i <= popped@.len(),
                self.scopes@.map(|k: int, s: Vec<Symbol>| s@) == old(self).scopes_view().drop_last(),
                self.num_symbols as int == old(self).num_symbols_view() - popped@.len(),
                ({
                    let k = count_functions(popped@.take(i as int));
                    let n = orig_ids.len();
                    &&& self.function_ids@ =~= orig_ids.take(
                        if n - k >= 0 {
                            n - k
                        } else {
                            0
                        },
                    )
                    &&& self.function_type == if k > 0 {
                        None::<SymbolType>
                    } else {
                        old(self).function_type_view()
                    }
                }),
            decreases popped@.len() - i,
        {
            proof {
                assert(popped@.take(i + 1).drop_last() =~= popped@.take(i as int));
                assert(popped@.take(i + 1).last() == popped@[i as int]);
            }
            let ghost k0 = count_functions(popped@.take(i as int));
            let ghost n = orig_ids.len();
            proof {
                lemma_count_functions_bounds(popped@.take(i as int));
            }
            let ghost m0: int = if n - k0 >= 0 {
                n - k0
            } else {
                0
            };
            let is_fun = match popped[i].symbol_class {
                SymbolClass::Function { .. } => true,
                _ => false,
            };
            proof {
                assert(count_functions(popped@.take(i + 1)) == k0 + if is_fun {
                    1int
                } else {
                    0int
                });
            }
            if is_fun {
                let _ = self.function_ids.pop();
                self.function_type = None;
                proof {
                    let k1 = k0 + 1;
                    let m1: int = if n - k1 >= 0 {
                        n - k1
                    } else {
                        0
                    };
                    if m0 > 0 {
                        assert(orig_ids.take(m0).drop_last() =~= orig_ids.take(m0 - 1));
                        assert(m1 == m0 - 1);
                    } else {
                        assert(orig_ids.take(0int).len() == 0);
                        assert(m1 == 0);
                    }
                    assert(self.function_ids@ =~= orig_ids.take(m1));
                }
            }
            i += 1;
        }
        proof {
            assert(popped@.take(popped@.len() as int) =~= popped@);
            assert forall|k: int| 0 <= k < self.scopes_view().len() implies distinct_names(
                #[trigger] self.scopes_view()[k],
            ) by {
                assert(self.scopes_view()[k] == old(self).scopes_view()[k]);
            }
            assert(self.wf());
        }
    }

    /// Looks a name up, starting in the innermost scope and moving outwards.
    pub fn get(&self, name: &str) -> (r: Option<&Symbol>)
        ensures
            match spec_lookup(self.scopes_view(), name@) {
                Some((i, j)) => r matches Some(sym) && *sym == self.scopes_view()[i][j],
                None => r is None,
            },
    {
        let mut level: usize = self.scopes.len();
        proof {
            assert(self.scopes_view().take(level as int) =~= self.scopes_view());
        }
        while level > 0
            invariant
                level <= self.scopes@.len(),
                spec_lookup(self.scopes_view(), name@) == spec_lookup(
                    self.scopes_view().take(level as int),
                    name@,
                ),
            decreases level,
        {
            level = level - 1;
            let scope = &self.scopes[level];
            let found = Self::find_in_scope(scope, name);
            proof {
                assert(self.scopes_view().take(level + 1).last() =~= scope@);
                assert(self.scopes_view().take(level + 1).drop_last() =~= self.scopes_view().take(
                    level as int,
                ));
            }
            match found {
                Some(j) => {
                    return Some(&scope[j]);
                },
                None => (),
            }
        }
        proof {
            assert(self.scopes_view().take(0) =~= Seq::<Seq<Symbol>>::empty());
        }
        None
    }

    /// Scans one scope front to back for the first symbol with the name.
    fn find_in_scope(scope: &Vec<Symbol>, name: &str) -> (r: Option<usize>)
        ensures
            match spec_find_name(scope@, name@, 0) {
                Some(j) => r matches Some(u) && u as int == j && u < scope@.len(),
                None => r is None,
            },
    {
        let mut i: usize = 0;
        while i < scope.len()
            invariant
                i <= scope@.len(),
                spec_find_name(scope@, name@, 0) == spec_find_name(scope@, name@, i as int),
            decreases scope@.len() - i,
        {
            if str_eq(scope[i].name.as_str(), name) {
                return Some(i);
            }
            i += 1;
        }
        None
    }

    /// Scans one scope front to back for the first symbol with the id.
    fn find_id_in_scope(scope: &Vec<Symbol>, id: usize) -> (r: Option<usize>)
        ensures
            match spec_find_id_in(scope@, id, 0) {
                Some(j) => r matches Some(u) && u as int == j && u < scope@.len(),
                None => r is None,
            },
    {
        let mut i: usize = 0;
        while i < scope.len()
            invariant
                i <= scope@.len(),
                spec_find_id_in(scope@, id, 0) == spec_find_id_in(scope@, id, i as int),
            decreases scope@.len() - i,
        {
            if scope[i].id == id {
                return Some(i);
            }
            i += 1;
        }
        None
    }

    /// Finds the position of the first symbol with the id, innermost first.
    fn find_id(&self, id: usize) -> (r: Option<(usize, usize)>)
        ensures
            match spec_find_id(self.scopes_view(), id) {
                Some((i, j)) => r matches Some((ui, uj)) && ui as int == i && uj as int == j && ui
                    < self.scopes_view().len() && j < self.scopes_view()[i].len(),
                None => r is None,
            },
    {
        let mut level: usize = self.scopes.len();
        proof {
            assert(self.scopes_view().take(level as int) =~= self.scopes_view());
        }
        while level > 0
            invariant
                level <= self.scopes@.len(),
                spec_find_id(self.scopes_view(), id) == spec_find_id(
                    self.scopes_view().take(level as int),
                    id,
                ),
            decreases level,
        {
            level = level - 1;
            let scope = &self.scopes[level];
            proof {
                assert(self.scopes_view().take(level + 1).last() =~= scope@);
                assert(self.scopes_view().take(level + 1).drop_last() =~= self.scopes_view().take(
                    level as int,
                ));
            }
            match Self::find_id_in_scope(scope, id) {
                Some(j) => {
                    return Some((level, j));
                },
                None => (),
            }
        }
        proof {
            assert(self.scopes_view().take(0) =~= Seq::<Seq<Symbol>>::empty());
        }
        None
    }

    /// Declares a symbol in the current scope.
    ///
    /// Fails with a semantic diagnostic when the name is already bound in the
    /// current scope.  On success the symbol is added to the current scope
    /// and, depending on its class: a function pushes its id and sets the
    /// current function type; a parameter is also appended, by value, to the
    /// parameter list of the function named by the top of the function id
    /// stack (when that function exists).
    pub fn insert(&mut self, symbol: Symbol) -> (r: Result<(), Error>)
        requires
            old(self).wf(),
            old(self).num_symbols_view() < usize::MAX as int,
        ensures
            final(self).wf(),
            final(self).scopes_view().len() == old(self).scopes_view().len(),
            ({
                let ss = old(self).scopes_view();
                let cur = ss.last();
                if scope_contains_name(cur, symbol.name@) {
                    &&& r matches Err(e) && e matches Error::Semantic(m) && m@ == spec_dup_msg(
                        symbol,
                        ss.len() as int,
                    )
                    &&& final(self).scopes_view() == ss
                    &&& final(self).num_symbols_view() == old(self).num_symbols_view()
                    &&& final(self).function_ids_view() == old(self).function_ids_view()
                    &&& final(self).function_type_view() == old(self).function_type_view()
                } else {
                    let pushed = ss.update(ss.len() - 1, cur.push(symbol));
                    &&& r is Ok
                    &&& final(self).num_symbols_view() == old(self).num_symbols_view() + 1
                    &&& match symbol.symbol_class {
                        SymbolClass::Function { .. } => {
                            &&& final(self).scopes_view() =~= pushed
                            &&& final(self).function_ids_view() =~= old(
                                self,
                            ).function_ids_view().push(symbol.id)
                            &&& final(self).function_type_view() == Some(symbol.symbol_type)
                        },
                        SymbolClass::Variable => {
                            &&& final(self).scopes_view() =~= pushed
                            &&& final(self).function_ids_view() == old(self).function_ids_view()
                            &&& final(self).function_type_view() == old(self).function_type_view()
                        },
                        SymbolClass::Parameter => {
                            &&& final(self).function_ids_view() == old(self).function_ids_view()
                            &&& final(self).function_type_view() == old(self).function_type_view()
                            &&& if old(self).function_ids_view().len() == 0 {
                                final(self).scopes_view() =~= pushed
                            } else {
                                match spec_find_id(pushed, old(self).function_ids_view().last()) {
                                    Some((i, j)) => param_attached(
                                        pushed,
                                        final(self).scopes_view(),
                                        i,
                                        j,
                                        symbol,
                                    ),
                                    None => final(self).scopes_view() =~= pushed,
                                }
                            }
                        },
                    }
                }
            }),
    {
        let depth = self.scopes.len();
        let ghost ss = self.scopes_view();
        let current = &self.scopes[depth - 1];
        proof {
            assert(ss.last() =~= current@);
        }
        let dup = Self::find_in_scope(current, symbol.name.as_str());
        proof {
            lemma_find_name_contains(ss.last(), symbol.name@);
        }
        if dup.is_some() {
            let mut msg = String::new();
            symbol_text_into(&symbol, &mut msg);
            msg.append(" has been defined twice in the current scope (");
            let d = usize_to_string(depth);
            msg.append(d.as_str());
            msg.append(")");
            proof {
                assert(msg@ =~= spec_dup_msg(symbol, ss.len() as int));
            }
            return Err(Error::Semantic(msg));
        }

        let is_param = match symbol.symbol_class {
            SymbolClass::Parameter => true,
            _ => false,
        };
        let is_fun = match symbol.symbol_class {
            SymbolClass::Function { .. } => true,
            _ => false,
        };
        let fun_id = symbol.id;
        let fun_type = symbol.symbol_type;

        // A parameter is stored twice: in the scope and, by value, in the
        // enclosing function's parameter list.
        let param_copy: Option<Symbol> = if is_param {
            Some(
                Symbol {
                    name: symbol.name.clone(),
                    id: symbol.id,
                    symbol_type: symbol.symbol_type,
                    symbol_class: SymbolClass::Parameter,
                },
            )
        } else {
            None
        };
        proof {
            if is_param {
                assert(param_copy matches Some(p) && p == symbol);
            }
        }
        let scope_ref = &mut self.scopes[depth - 1];
        scope_ref.push(symbol);
        self.num_symbols = self.num_symbols + 1;
        let ghost pushed = self.scopes_view();
        proof {
            assert(pushed =~= ss.update(ss.len() - 1, ss.last().push(symbol)));
            lemma_total_push_last(ss, symbol);
            assert(distinct_names(pushed.last())) by {
                lemma_distinct_push(ss.last(), symbol);
                assert(pushed.last() =~= ss.last().push(symbol));
            }
            assert forall|i: int| 0 <= i < pushed.len() implies distinct_names(
                #[trigger] pushed[i],
            ) by {
                if i < pushed.len() - 1 {
                    assert(pushed[i] == ss[i]);
                }
            }
            assert(self.wf());
        }

        if is_fun {
            self.function_ids.push(fun_id);
            self.function_type = Some(fun_type);
        } else if is_param {
            if self.function_ids.len() > 0 {
                let target_id = self.function_ids[self.function_ids.len() - 1];
                match self.find_id(target_id) {
                    Some((i, j)) => {
                        let ghost before = self.scopes_view();
                        let scope_mut = &mut self.scopes[i];
                        let removed = scope_mut.remove(j);
                        let Symbol { name, id, symbol_type, symbol_class } = removed;
                        let new_class = match symbol_class {
                            SymbolClass::Function { mut parameters } => {
                                parameters.push(param_copy.unwrap());
                                SymbolClass::Function { parameters }
                            },
                            other => other,
                        };
                        scope_mut.insert(j, Symbol { name, id, symbol_type, symbol_class: new_class });
                        proof {
                            let after = self.scopes_view();
                            assert(after[i as int] =~= before[i as int].update(
                                j as int,
                                after[i as int][j as int],
                            ));
                            assert(forall|k: int|
                                0 <= k < before.len() && k != i ==> after[k] == #[trigger] before[k]);
                            lemma_total_update_elem(before, after, i as int, j as int);
                            lemma_distinct_update(
                                before[i as int],
                                after[i as int],
                                j as int,
                            );
                            assert forall|k: int| 0 <= k < after.len() implies distinct_names(
                                #[trigger] after[k],
                            ) by {
                                if k != i {
                                    assert(after[k] == before[k]);
                                }
                            }
                            assert(param_attached(before, after, i as int, j as int, symbol));
                        }
                    },
                    None => (),
                }
            }
        }
        Ok(())
    }
}

/// After attaching a parameter: the tables agree everywhere except at
/// position `(i, j)`, where the symbol keeps its name, id and type and, when
/// it is a function, gains `p` at the end of its parameter list.
pub open spec fn param_attached(
    before: Seq<Seq<Symbol>>,
    after: Seq<Seq<Symbol>>,
    i: int,
    j: int,
    p: Symbol,
) -> bool {
    &&& after.len() == before.len()
    &&& 0 <= i < before.len()
    &&& 0 <= j < before[i].len()
    &&& forall|k: int| 0 <= k < before.len() && k != i ==> after[k] == before[k]
    &&& after[i].len() == before[i].len()
    &&& forall|l: int| 0 <= l < before[i].len() && l != j ==> after[i][l] == before[i][l]
    &&& ({
        let t0 = before[i][j];
        let t1 = after[i][j];
        &&& t1.name == t0.name
        &&& t1.id == t0.id
        &&& t1.symbol_type == t0.symbol_type
        &&& match t0.symbol_class {
            SymbolClass::Function { parameters } => t1.symbol_class matches SymbolClass::Function {
                parameters: p1,
            } && p1@ =~= parameters@.push(p),
            _ => t1.symbol_class == t0.symbol_class,
        }
    })
}

impl Default for SymbolTable {
    /// The default table: one empty global scope.
    fn default() -> (r: Self)
        ensures
            r.wf(),
            r.scopes_view() =~= seq![Seq::<Symbol>::empty()],
            r.num_symbols_view() == 0,
            r.function_ids_view() =~= Seq::<usize>::empty(),
            r.function_type_view() is None,
    {
        SymbolTable::new()
    }
}

/// The function count of a scope lies between zero and the scope's size.
proof fn lemma_count_functions_bounds(s: Seq<Symbol>)
    ensures
        0 <= count_functions(s) <= s.len(),
    decreases s.len(),
{
    if s.len() > 0 {
        lemma_count_functions_bounds(s.drop_last());
    }
}

proof fn lemma_total_last(ss: Seq<Seq<Symbol>>)
    requires
        ss.len() >= 1,
    ensures
        total_symbols(ss) == total_symbols(ss.drop_last()) + ss.last().len(),
        total_symbols(ss) >= ss.last().len(),
        total_symbols(ss.drop_last()) >= 0,
    decreases ss.len(),
{
    if ss.len() == 1 {
        assert(total_symbols(ss.drop_last()) == 0);
    } else {
        lemma_total_last(ss.drop_last());
    }
}

/// Appending one symbol to the last scope raises the total by one.
proof fn lemma_total_push_last(ss: Seq<Seq<Symbol>>, symbol: Symbol)
    requires
        ss.len() >= 1,
    ensures
        total_symbols(ss.update(ss.len() - 1, ss.last().push(symbol))) == total_symbols(ss) + 1,
{
    let pushed = ss.update(ss.len() - 1, ss.last().push(symbol));
    assert(pushed.drop_last() =~= ss.drop_last());
    assert(pushed.last() =~= ss.last().push(symbol));
}

/// Updating one symbol in place keeps every scope's size and the total.
proof fn lemma_total_update_elem(
    before: Seq<Seq<Symbol>>,
    after: Seq<Seq<Symbol>>,
    i: int,
    j: int,
)
    requires
        0 <= i < before.len(),
        after.len() == before.len(),
        forall|k: int| 0 <= k < before.len() && k != i ==> after[k] == before[k],
        after[i].len() == before[i].len(),
    ensures
        total_symbols(after) == total_symbols(before),
    decreases before.len(),
{
    if before.len() > 0 {
        if i == before.len() - 1 {
            assert(after.drop_last() =~= before.drop_last());
        } else {
            lemma_total_update_elem(before.drop_last(), after.drop_last(), i, j);
        }
    }
}

/// Appending a symbol whose name is not yet bound keeps names distinct.
proof fn lemma_distinct_push(s: Seq<Symbol>, symbol: Symbol)
    requires
        distinct_names(s),
        !scope_contains_name(s, symbol.name@),
    ensures
        distinct_names(s.push(symbol)),
{
}

/// Updating a symbol in place without changing its name keeps names distinct.
proof fn lemma_distinct_update(before: Seq<Symbol>, after: Seq<Symbol>, j: int)
    requires
        distinct_names(before),
        after.len() == before.len(),
        0 <= j < before.len(),
        forall|k: int| 0 <= k < before.len() && k != j ==> after[k] == before[k],
        after[j].name@ == before[j].name@,
    ensures
        distinct_names(after),
{
    assert forall|a: int, b: int| 0 <= a < b < after.len() implies after[a].name@
        != after[b].name@ by {
        assert(before[a].name@ != before[b].name@);
    }
}

/// The first name found by the scan exists, and a failed scan means no
/// symbol in the scope has the name.
proof fn lemma_find_name_contains(s: Seq<Symbol>, name: Seq<char>)
    ensures
        spec_find_name(s, name, 0) is Some <==> scope_contains_name(s, name),
{
    lemma_find_name_contains_from(s, name, 0);
}

proof fn lemma_find_name_contains_from(s: Seq<Symbol>, name: Seq<char>, i: int)
    requires
        0 <= i <= s.len(),
    ensures
        spec_find_name(s, name, i) is Some <==> exists|j: int|
            i <= j < s.len() && s[j].name@ == name,
    decreases s.len() - i,
{
    if i < s.len() {
        lemma_find_name_contains_from(s, name, i + 1);
    }
}

} // verus!
