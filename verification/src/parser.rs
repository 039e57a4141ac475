use crate::error::AnalysisResult;
use crate::error::Error;
use crate::lexer::C1Lexer;
use crate::symbol_table::total_symbols;
use crate::symbol_table::Symbol;
use crate::symbol_table::SymbolClass;
use crate::symbol_table::SymbolTable;
use crate::symbol_table::SymbolType;
use crate::syntax_c1::spec_symbol_type;
use crate::syntax_c1::NodeValue;
use crate::syntax_tree::SyntaxTree;
use crate::text::spec_nat_str;
use crate::text::str_eq;
use crate::text::u64_to_string;
use crate::text::usize_to_string;
use crate::token::Token;
use vstd::prelude::*;
use vstd::string::StringExecFns;

verus! {

/// The effective type of a subtree: the type of its root node, so a
/// `Cast(Float)` wrapper makes its operand effectively `Float`.
pub open spec fn eff_type(t: SyntaxTree) -> SymbolType {
    spec_symbol_type(t.value)
}

/// A numeric type: integer or float.
pub open spec fn is_num(t: SymbolType) -> bool {
    t == SymbolType::Integer || t == SymbolType::Float
}

/// The common type of two numeric operands: their type when they agree,
/// `Float` when one side is promoted.
pub open spec fn join_type(a: SymbolType, b: SymbolType) -> SymbolType {
    if a == b {
        a
    } else {
        SymbolType::Float
    }
}

/// The typing constraints a single node places on its children.
///
/// Arithmetic nodes have two children whose effective types equal the
/// node's numeric type; a unary minus has one such child; a cast is always
/// to `Float` from an `Integer` child; an assignment targets a variable
/// reference and its value children have the node's type (its declaration
/// form carries the declared variable, then a reference to it under the
/// same name, then the value).  A conditional or loop node's condition
/// child is boolean; a return node's child, when present, has the node's
/// type, and a bare return is void; a print node's one argument is not
/// void.
pub open spec fn node_ok(t: SyntaxTree) -> bool {
    match t.value {
        NodeValue::Plus(ty) => bin_arith_ok(ty, t),
        NodeValue::Minus(ty) => bin_arith_ok(ty, t),
        NodeValue::Times(ty) => bin_arith_ok(ty, t),
        NodeValue::Divide(ty) => bin_arith_ok(ty, t),
        NodeValue::UMinus(ty) => t.children@.len() == 1 && is_num(ty) && eff_type(
            t.children@[0],
        ) == ty,
        NodeValue::Cast(ty) => ty == SymbolType::Float && t.children@.len() == 1 && eff_type(
            t.children@[0],
        ) == SymbolType::Integer,
        NodeValue::If => 1 <= t.children@.len() <= 3 && eff_type(t.children@[0])
            == SymbolType::Boolean,
        NodeValue::While => 1 <= t.children@.len() <= 2 && eff_type(t.children@[0])
            == SymbolType::Boolean,
        NodeValue::DoWhile => 1 <= t.children@.len() <= 2 && eff_type(t.children@.last())
            == SymbolType::Boolean,
        NodeValue::For => 3 <= t.children@.len() <= 4 && eff_type(t.children@[1])
            == SymbolType::Boolean,
        NodeValue::Return(ty) => t.children@.len() <= 1 && (t.children@.len() == 1 ==> eff_type(
            t.children@[0],
        ) == ty) && (t.children@.len() == 0 ==> ty == SymbolType::Void),
        NodeValue::Print => t.children@.len() == 1 && eff_type(t.children@[0])
            != SymbolType::Void,
        NodeValue::Assign(ty) => (t.children@.len() == 2 && (
        t.children@[0].value matches NodeValue::VariableRef(_, _)) && eff_type(t.children@[0])
            == ty && eff_type(t.children@[1]) == ty) || (t.children@.len() == 3 && (match (
        t.children@[0].value, t.children@[1].value) {
            (NodeValue::VariableDeclaration(n1), NodeValue::VariableRef(n2, _)) => n1@ == n2@,
            _ => false,
        }) && eff_type(t.children@[1]) == ty && eff_type(t.children@[2]) == ty),
        _ => true,
    }
}

/// An arithmetic node: two children of the node's numeric type.
pub open spec fn bin_arith_ok(ty: SymbolType, t: SyntaxTree) -> bool {
    &&& t.children@.len() == 2
    &&& is_num(ty)
    &&& eff_type(t.children@[0]) == ty
    &&& eff_type(t.children@[1]) == ty
}

/// Every node of the tree satisfies its typing constraints.
pub open spec fn tree_ok(t: SyntaxTree) -> bool
    decreases t,
{
    node_ok(t) && forall|i: int| 0 <= i < t.children@.len() ==> tree_ok(#[trigger] t.children@[i])
}

proof fn lemma_tree_ok(t: SyntaxTree)
    requires
        node_ok(t),
        forall|i: int| 0 <= i < t.children@.len() ==> tree_ok(#[trigger] t.children@[i]),
    ensures
        tree_ok(t),
{
}

/// The global scope declares a function `void main()` without parameters.
pub open spec fn main_ok(tab: SymbolTable) -> bool {
    exists|j: int|
        #![trigger tab.scopes_view()[0][j]]
        {
            &&& 0 <= j < tab.scopes_view()[0].len()
            &&& tab.scopes_view()[0][j].name@ == "main"@
            &&& tab.scopes_view()[0][j].symbol_type == SymbolType::Void
            &&& tab.scopes_view()[0][j].symbol_class matches SymbolClass::Function { parameters }
                && parameters@.len() == 0
        }
}

/// The diagnostics grew only at the end: the old list is a prefix of the
/// new one.
pub open spec fn errors_extended(pre: Seq<Error>, post: Seq<Error>) -> bool {
    pre.len() <= post.len() && forall|i: int| 0 <= i < pre.len() ==> #[trigger] post[i] == pre[i]
}


/// Whether `s` is a node of the tree `t`: the root itself or a node of one
/// of its children.
pub open spec fn in_tree(t: SyntaxTree, s: SyntaxTree) -> bool
    decreases t,
{
    t == s || exists|i: int| 0 <= i < t.children@.len() && in_tree(#[trigger] t.children@[i], s)
}

/// Law: in a tree that satisfies its typing constraints, every node does.
///
/// In particular, for every arithmetic node `Plus`, `Minus`, `Times`,
/// `Divide` or `UMinus` of the output tree both operand types are numeric
/// and equal the node's type after any inserted cast, and for every
/// `Assign` node the reference child's type and the value child's
/// effective type equal the node's type.
pub proof fn lemma_tree_ok_in_tree(t: SyntaxTree, s: SyntaxTree)
    requires
        tree_ok(t),
        in_tree(t, s),
    ensures
        node_ok(s),
    decreases t,
{
    if t == s {
    } else {
        let i = choose|i: int| 0 <= i < t.children@.len() && in_tree(#[trigger] t.children@[i], s);
        lemma_tree_ok_in_tree(t.children@[i], s);
    }
}

/// The parse-time state next to the token stream: the symbol table, the
/// diagnostics collected so far, and the next node id.
#[derive(Debug)]
struct Ctx {
    table: SymbolTable,
    errors: Vec<Error>,
    next_id: u64,
}

impl Ctx {
    /// The context is usable: its table is well formed.
    spec fn wf(self) -> bool {
        self.table.wf()
    }

    /// Neither the table nor the diagnostics changed.
    spec fn keeps(self, post: Ctx) -> bool {
        post.table == self.table && post.errors@ == self.errors@
    }
}

/// The kind of the token at `k`, with the end-of-input kind past the end.
spec fn spec_kind(ts: Seq<Token>, k: int) -> i32 {
    if 0 <= k < ts.len() {
        ts[k].token_type
    } else {
        crate::token::YYEOF
    }
}

/// Reads the kind of the token at `k`.
fn tok_kind(toks: &Vec<Token>, k: usize) -> (r: i32)
    ensures
        r == spec_kind(toks@, k as int),
{
    if k < toks.len() {
        toks[k].token_type
    } else {
        crate::token::YYEOF
    }
}

/// A keyword that names a type.
fn is_type_kw(k: i32) -> (r: bool)
    ensures
        r == (k == crate::token::KW_BOOLEAN || k == crate::token::KW_FLOAT || k
            == crate::token::KW_INT || k == crate::token::KW_VOID),
{
    k == crate::token::KW_BOOLEAN || k == crate::token::KW_FLOAT || k == crate::token::KW_INT || k
        == crate::token::KW_VOID
}

/// The type a type keyword names.
fn type_of_kw(k: i32) -> (r: SymbolType)
    ensures
        r == if k == crate::token::KW_BOOLEAN {
            SymbolType::Boolean
        } else if k == crate::token::KW_FLOAT {
            SymbolType::Float
        } else if k == crate::token::KW_INT {
            SymbolType::Integer
        } else {
            SymbolType::Void
        },
{
    if k == crate::token::KW_BOOLEAN {
        SymbolType::Boolean
    } else if k == crate::token::KW_FLOAT {
        SymbolType::Float
    } else if k == crate::token::KW_INT {
        SymbolType::Integer
    } else {
        SymbolType::Void
    }
}

/// Makes a childless node carrying the next free id.
fn mk_node(st: &mut Ctx, v: NodeValue) -> (r: SyntaxTree)
    ensures
        old(st).keeps(*final(st)),
        r.value == v,
        r.children@.len() == 0,
{
    let id = st.next_id;
    if st.next_id < u64::MAX {
        st.next_id = st.next_id + 1;
    }
    SyntaxTree::with_id(v, id)
}

/// Appends a semantic diagnostic.
fn push_semantic(st: &mut Ctx, msg: String)
    ensures
        final(st).table == old(st).table,
        final(st).errors@ =~= old(st).errors@.push(Error::Semantic(msg)),
{
    st.errors.push(Error::Semantic(msg));
}

/// The text of a syntactical diagnostic: the offending token's text and
/// column, and what was expected instead; or, past the end of the input,
/// just what was expected.
pub open spec fn spec_syntax_msg(ts: Seq<Token>, pos: int, expected: Seq<char>) -> Seq<char> {
    if 0 <= pos < ts.len() {
        "syntax error at column "@ + spec_nat_str(ts[pos].loc.begin as int)
            + ": unexpected token '"@ + ts[pos].text@ + "', expected "@ + expected
    } else {
        "syntax error: unexpected end of input, expected "@ + expected
    }
}

/// Appends a syntactical diagnostic naming the offending token, its column,
/// and what was expected instead.
fn push_syntax_error(st: &mut Ctx, toks: &Vec<Token>, pos: usize, expected: &str)
    ensures
        final(st).table == old(st).table,
        final(st).errors@.len() == old(st).errors@.len() + 1,
        errors_extended(old(st).errors@, final(st).errors@),
        final(st).errors@.last() matches Error::Syntactical(m) && m@ == spec_syntax_msg(
            toks@,
            pos as int,
            expected@,
        ),
{
    let mut m = String::new();
    if pos < toks.len() {
        m.append("syntax error at column ");
        let c = u64_to_string(toks[pos].loc.begin as u64);
        m.append(c.as_str());
        m.append(": unexpected token '");
        m.append(toks[pos].text.as_str());
        m.append("', expected ");
        m.append(expected);
    } else {
        m.append("syntax error: unexpected end of input, expected ");
        m.append(expected);
    }
    proof {
        assert(m@ =~= spec_syntax_msg(toks@, pos as int, expected@));
    }
    st.errors.push(Error::Syntactical(m));
    proof {
        assert(final(st).errors@.subrange(0, old(st).errors@.len() as int) =~= old(st).errors@);
    }
}

/// Declares a symbol, turning a duplicate declaration into a semantic
/// diagnostic.
fn declare(st: &mut Ctx, sym: Symbol)
    requires
        old(st).wf(),
    ensures
        final(st).wf(),
        final(st).table.scopes_view().len() == old(st).table.scopes_view().len(),
        errors_extended(old(st).errors@, final(st).errors@),
        !(sym.symbol_class is Function) ==> final(st).table.function_type_view() == old(st).table.function_type_view(),
        sym.symbol_class is Variable || sym.symbol_class is Function ==> final(st).table.function_ids_view().len() >= old(st).table.function_ids_view().len(),
{
    if st.table.num_symbols() < usize::MAX {
        match st.table.insert(sym) {
            Ok(_) => (),
            Err(e) => {
                st.errors.push(e);
                proof {
                    assert(final(st).errors@.subrange(0, old(st).errors@.len() as int) =~= old(st).errors@);
                }
            },
        }
    }
    proof {
        assert(errors_extended(old(st).errors@, st.errors@));
    }
}

/// Wraps a subtree in an implicit conversion to `Float`.
fn cast_to_float(st: &mut Ctx, sub: SyntaxTree) -> (r: SyntaxTree)
    requires
        eff_type(sub) == SymbolType::Integer,
    ensures
        old(st).keeps(*final(st)),
        r.value == NodeValue::Cast(SymbolType::Float),
        r.children@ =~= seq![sub],
        eff_type(r) == SymbolType::Float,
        tree_ok(sub) ==> tree_ok(r),
{
    let mut node = mk_node(st, NodeValue::Cast(SymbolType::Float));
    node.append(sub);
    proof {
        if tree_ok(sub) {
            lemma_tree_ok(node);
        }
    }
    node
}

/// Promotes the integer side of a numeric operand pair, returning the pair
/// with both sides at their common type.
fn promote_pair(st: &mut Ctx, l: SyntaxTree, r: SyntaxTree) -> (res: (
    SyntaxTree,
    SyntaxTree,
    SymbolType,
))
    requires
        is_num(eff_type(l)),
        is_num(eff_type(r)),
    ensures
        old(st).keeps(*final(st)),
        res.2 == join_type(eff_type(l), eff_type(r)),
        eff_type(res.0) == res.2,
        eff_type(res.1) == res.2,
        tree_ok(l) ==> tree_ok(res.0),
        tree_ok(r) ==> tree_ok(res.1),
        is_num(res.2),
{
    let lt = l.value.symbol_type();
    let rt = r.value.symbol_type();
    if lt == rt {
        (l, r, lt)
    } else if lt == SymbolType::Integer {
        let cast = cast_to_float(st, l);
        (cast, r, SymbolType::Float)
    } else {
        let cast = cast_to_float(st, r);
        (l, cast, SymbolType::Float)
    }
}

/// The arithmetic node value an operator token builds, at a given type.
pub open spec fn arith_value(op: i32, ty: SymbolType) -> NodeValue {
    if op == 43 {
        NodeValue::Plus(ty)
    } else if op == 45 {
        NodeValue::Minus(ty)
    } else if op == 42 {
        NodeValue::Times(ty)
    } else {
        NodeValue::Divide(ty)
    }
}

/// Builds an arithmetic node for `op` over two operands.
///
/// Both operands must be numeric; a mixed pair is joined by an implicit
/// cast and the node's type is the common type.  A non-numeric operand
/// yields a semantic diagnostic and a best-effort node.
fn build_arith(st: &mut Ctx, op: i32, l: SyntaxTree, r0: SyntaxTree) -> (r: SyntaxTree)
    ensures
        final(st).table == old(st).table,
        errors_extended(old(st).errors@, final(st).errors@),
        is_num(eff_type(l)) && is_num(eff_type(r0)) ==> {
            let ty = join_type(eff_type(l), eff_type(r0));
            &&& final(st).errors@ == old(st).errors@
            &&& r.value == arith_value(op, ty)
            &&& r.children@.len() == 2
            &&& eff_type(r.children@[0]) == ty
            &&& eff_type(r.children@[1]) == ty
        },
        !(is_num(eff_type(l)) && is_num(eff_type(r0))) ==> ({
            &&& final(st).errors@.len() == old(st).errors@.len() + 1
            &&& final(st).errors@.last() matches Error::Semantic(m) && m@
                == "operands of an arithmetic operator must be numeric"@
        }),
        (final(st).errors@.len() == old(st).errors@.len() && tree_ok(l) && tree_ok(r0))
            ==> tree_ok(r),
{
    let lt = l.value.symbol_type();
    let rt = r0.value.symbol_type();
    let l_num = lt == SymbolType::Integer || lt == SymbolType::Float;
    let r_num = rt == SymbolType::Integer || rt == SymbolType::Float;
    if l_num && r_num {
        let (l2, r2, ty) = promote_pair(st, l, r0);
        let v = if op == 43 {
            NodeValue::Plus(ty)
        } else if op == 45 {
            NodeValue::Minus(ty)
        } else if op == 42 {
            NodeValue::Times(ty)
        } else {
            NodeValue::Divide(ty)
        };
        let mut node = mk_node(st, v);
        node.append(l2);
        node.append(r2);
        proof {
            if tree_ok(l) && tree_ok(r0) {
                lemma_tree_ok(node);
            }
        }
        node
    } else {
        push_semantic(st, String::from_str("operands of an arithmetic operator must be numeric"));
        let v = if op == 43 {
            NodeValue::Plus(lt)
        } else if op == 45 {
            NodeValue::Minus(lt)
        } else if op == 42 {
            NodeValue::Times(lt)
        } else {
            NodeValue::Divide(lt)
        };
        let mut node = mk_node(st, v);
        node.append(l);
        node.append(r0);
        node
    }
}

/// The comparison node value an operator token builds.
pub open spec fn cmp_value(op: i32) -> NodeValue {
    if op == crate::token::EQ {
        NodeValue::Eq
    } else if op == crate::token::NEQ {
        NodeValue::Neq
    } else if op == crate::token::LEQ {
        NodeValue::Leq
    } else if op == crate::token::GEQ {
        NodeValue::Geq
    } else if op == crate::token::LSS {
        NodeValue::Lst
    } else {
        NodeValue::Grt
    }
}

/// Builds a relational node (`<`, `>`, `<=`, `>=`): both operands must be
/// numeric, a mixed pair is joined by a cast, and the result is boolean.
fn build_relational(st: &mut Ctx, op: i32, l: SyntaxTree, r0: SyntaxTree) -> (r: SyntaxTree)
    ensures
        final(st).table == old(st).table,
        errors_extended(old(st).errors@, final(st).errors@),
        eff_type(r) == SymbolType::Boolean,
        is_num(eff_type(l)) && is_num(eff_type(r0)) ==> final(st).errors@ == old(st).errors@
            && r.value == cmp_value(op) && r.children@.len() == 2 && eff_type(r.children@[0])
            == eff_type(r.children@[1]) && is_num(eff_type(r.children@[0])),
        !(is_num(eff_type(l)) && is_num(eff_type(r0))) ==> ({
            &&& final(st).errors@.len() == old(st).errors@.len() + 1
            &&& final(st).errors@.last() matches Error::Semantic(m) && m@
                == "operands of a comparison must be numeric"@
        }),
        (final(st).errors@.len() == old(st).errors@.len() && tree_ok(l) && tree_ok(r0))
            ==> tree_ok(r),
{
    let lt = l.value.symbol_type();
    let rt = r0.value.symbol_type();
    let l_num = lt == SymbolType::Integer || lt == SymbolType::Float;
    let r_num = rt == SymbolType::Integer || rt == SymbolType::Float;
    let v = if op == crate::token::EQ {
        NodeValue::Eq
    } else if op == crate::token::NEQ {
        NodeValue::Neq
    } else if op == crate::token::LEQ {
        NodeValue::Leq
    } else if op == crate::token::GEQ {
        NodeValue::Geq
    } else if op == crate::token::LSS {
        NodeValue::Lst
    } else {
        NodeValue::Grt
    };
    if l_num && r_num {
        let (l2, r2, _ty) = promote_pair(st, l, r0);
        let mut node = mk_node(st, v);
        node.append(l2);
        node.append(r2);
        proof {
            if tree_ok(l) && tree_ok(r0) {
                lemma_tree_ok(node);
            }
        }
        node
    } else {
        push_semantic(st, String::from_str("operands of a comparison must be numeric"));
        let mut node = mk_node(st, v);
        node.append(l);
        node.append(r0);
        node
    }
}

/// Builds an equality node (`==`, `!=`): numeric operands are joined by a
/// cast, two booleans compare directly, strings and everything else are
/// rejected.  The result is boolean.
fn build_equality(st: &mut Ctx, op: i32, l: SyntaxTree, r0: SyntaxTree) -> (r: SyntaxTree)
    ensures
        final(st).table == old(st).table,
        errors_extended(old(st).errors@, final(st).errors@),
        eff_type(r) == SymbolType::Boolean,
        is_num(eff_type(l)) && is_num(eff_type(r0)) ==> final(st).errors@ == old(st).errors@,
        eff_type(l) == SymbolType::Boolean && eff_type(r0) == SymbolType::Boolean ==> final(st).errors@ == old(st).errors@,
        !(is_num(eff_type(l)) && is_num(eff_type(r0))) && !(eff_type(l) == SymbolType::Boolean
            && eff_type(r0) == SymbolType::Boolean) ==> ({
            &&& final(st).errors@.len() == old(st).errors@.len() + 1
            &&& final(st).errors@.last() matches Error::Semantic(m) && m@
                == "operands of an equality must both be numeric or both boolean"@
        }),
        (final(st).errors@.len() == old(st).errors@.len() && tree_ok(l) && tree_ok(r0))
            ==> tree_ok(r),
{
    let lt = l.value.symbol_type();
    let rt = r0.value.symbol_type();
    let l_num = lt == SymbolType::Integer || lt == SymbolType::Float;
    let r_num = rt == SymbolType::Integer || rt == SymbolType::Float;
    let v = if op == crate::token::EQ {
        NodeValue::Eq
    } else {
        NodeValue::Neq
    };
    if l_num && r_num {
        let (l2, r2, _ty) = promote_pair(st, l, r0);
        let mut node = mk_node(st, v);
        node.append(l2);
        node.append(r2);
        proof {
            if tree_ok(l) && tree_ok(r0) {
                lemma_tree_ok(node);
            }
        }
        node
    } else {
        if !(lt == SymbolType::Boolean && rt == SymbolType::Boolean) {
            push_semantic(
                st,
                String::from_str("operands of an equality must both be numeric or both boolean"),
            );
        }
        let mut node = mk_node(st, v);
        node.append(l);
        node.append(r0);
        proof {
            if tree_ok(l) && tree_ok(r0) {
                lemma_tree_ok(node);
            }
        }
        node
    }
}

/// Builds a logical node (`&&`, `||`): both operands must be boolean, and
/// the result is boolean.
fn build_logical(st: &mut Ctx, op: i32, l: SyntaxTree, r0: SyntaxTree) -> (r: SyntaxTree)
    ensures
        final(st).table == old(st).table,
        errors_extended(old(st).errors@, final(st).errors@),
        eff_type(r) == SymbolType::Boolean,
        eff_type(l) == SymbolType::Boolean && eff_type(r0) == SymbolType::Boolean ==> final(st).errors@ == old(st).errors@,
        !(eff_type(l) == SymbolType::Boolean && eff_type(r0) == SymbolType::Boolean) ==> ({
            &&& final(st).errors@.len() == old(st).errors@.len() + 1
            &&& final(st).errors@.last() matches Error::Semantic(m) && m@
                == "operands of a logical operator must be boolean"@
        }),
        (final(st).errors@.len() == old(st).errors@.len() && tree_ok(l) && tree_ok(r0))
            ==> tree_ok(r),
{
    let lt = l.value.symbol_type();
    let rt = r0.value.symbol_type();
    if !(lt == SymbolType::Boolean && rt == SymbolType::Boolean) {
        push_semantic(st, String::from_str("operands of a logical operator must be boolean"));
    }
    let v = if op == crate::token::AND {
        NodeValue::LogAnd
    } else {
        NodeValue::LogOr
    };
    let mut node = mk_node(st, v);
    node.append(l);
    node.append(r0);
    proof {
        if tree_ok(l) && tree_ok(r0) {
            lemma_tree_ok(node);
        }
    }
    node
}


/// The left-to-right decimal value of the digits in `s[i..end)` on top of
/// `acc`, saturating at the largest representable literal.
pub open spec fn spec_int_sat(s: Seq<char>, i: int, end: int, acc: int) -> int
    decreases end - i,
{
    if i >= end || i < 0 {
        acc
    } else {
        let next = acc * 10 + (s[i] as u32 - 48);
        spec_int_sat(
            s,
            i + 1,
            end,
            if next > i32::MAX as int {
                i32::MAX as int
            } else {
                next
            },
        )
    }
}

/// Reads the numeric value of the leading decimal digits of a literal's
/// text, saturating at the largest representable value.
fn parse_int_text(s: &str) -> (r: i32)
    ensures
        r >= 0,
        r as int == spec_int_sat(s@, 0, crate::lexer::digits_end(s@, 0), 0),
{
    let ghost de = crate::lexer::digits_end(s@, 0);
    let n = s.unicode_len();
    let mut i: usize = 0;
    let mut acc: i64 = 0;
    while i < n
        invariant
            0 <= acc <= i32::MAX as i64,
            i <= n,
            n as int == s@.len(),
            de == crate::lexer::digits_end(s@, i as int),
            spec_int_sat(s@, 0, de, 0) == spec_int_sat(s@, i as int, de, acc as int),
        ensures
            0 <= acc <= i32::MAX as i64,
            de == i as int,
            spec_int_sat(s@, 0, de, 0) == spec_int_sat(s@, i as int, de, acc as int),
        decreases n - i,
    {
        let c = s.get_char(i);
        if '0' <= c && c <= '9' {
            proof {
                assert(crate::lexer::digits_end(s@, i as int) == crate::lexer::digits_end(
                    s@,
                    i as int + 1,
                ));
                crate::lexer::lemma_digits_end_lower(s@, i as int + 1);
            }
            let d: i64 = ((c as u32) - 48) as i64;
            let next: i64 = acc * 10 + d;
            acc = if next > i32::MAX as i64 {
                i32::MAX as i64
            } else {
                next
            };
            i += 1;
        } else {
            proof {
                assert(de == i as int);
            }
            break;
        }
    }
    proof {
        assert(de == i as int);
        assert(spec_int_sat(s@, i as int, de, acc as int) == acc as int);
    }
    acc as i32
}

/// Builds a reference to the named variable, resolved against the table:
/// the node's type is the innermost binding's type.  An undeclared name or
/// a function name used as a value is a semantic error with a best-effort
/// node.
fn var_ref(st: &mut Ctx, name: String) -> (r: SyntaxTree)
    requires
        old(st).wf(),
    ensures
        final(st).wf(),
        final(st).table == old(st).table,
        errors_extended(old(st).errors@, final(st).errors@),
        tree_ok(r),
        r.value matches NodeValue::VariableRef(n2, _) && n2@ == name@,
        match crate::symbol_table::spec_lookup(old(st).table.scopes_view(), name@) {
            Some((i, j)) => {
                let sym = old(st).table.scopes_view()[i][j];
                if sym.symbol_class is Function {
                    final(st).errors@.len() == old(st).errors@.len() + 1 && (final(st).errors@.last() matches Error::Semantic(m) && m@ == "function "@ + name@
                        + " used as a variable"@)
                } else {
                    final(st).errors@ == old(st).errors@ && r.value == NodeValue::VariableRef(
                        name,
                        sym.symbol_type,
                    )
                }
            },
            None => final(st).errors@.len() == old(st).errors@.len() + 1 && (final(st).errors@.last() matches Error::Semantic(m) && m@ == "undeclared identifier "@
                + name@),
        },
{
    let looked: Option<(SymbolType, bool)> = match st.table.get(name.as_str()) {
        Some(sym) => Some((sym.symbol_type, sym.is_function())),
        None => None,
    };
    match looked {
        None => {
            let mut m = String::from_str("undeclared identifier ");
            m.append(name.as_str());
            proof {
                assert(m@ =~= "undeclared identifier "@ + name@);
            }
            push_semantic(st, m);
            let node = mk_node(st, NodeValue::VariableRef(name, SymbolType::Integer));
            proof {
                lemma_tree_ok(node);
            }
            node
        },
        Some((t, true)) => {
            let mut m = String::from_str("function ");
            m.append(name.as_str());
            m.append(" used as a variable");
            proof {
                assert(m@ =~= "function "@ + name@ + " used as a variable"@);
            }
            push_semantic(st, m);
            let node = mk_node(st, NodeValue::VariableRef(name, t));
            proof {
                lemma_tree_ok(node);
            }
            node
        },
        Some((t, false)) => {
            let node = mk_node(st, NodeValue::VariableRef(name, t));
            proof {
                lemma_tree_ok(node);
            }
            node
        },
    }
}

/// Conforms an argument or assigned value to an expected type: equal types
/// pass, an integer is promoted where a float is expected, and everything
/// else is a semantic error carrying the given message.
fn conform(st: &mut Ctx, value: SyntaxTree, expected: SymbolType, msg: &str) -> (r: SyntaxTree)
    ensures
        final(st).table == old(st).table,
        errors_extended(old(st).errors@, final(st).errors@),
        eff_type(value) == expected ==> final(st).errors@ == old(st).errors@ && r == value,
        eff_type(value) == SymbolType::Integer && expected == SymbolType::Float ==> (final(st).errors@ == old(st).errors@ && eff_type(r) == SymbolType::Float),
        !(eff_type(value) == expected) && !(eff_type(value) == SymbolType::Integer && expected
            == SymbolType::Float) ==> ({
            &&& final(st).errors@.len() == old(st).errors@.len() + 1
            &&& final(st).errors@.last() matches Error::Semantic(m) && m@ == msg@
        }),
        final(st).errors@.len() == old(st).errors@.len() ==> eff_type(r) == expected,
        final(st).errors@.len() == old(st).errors@.len() ==> (tree_ok(value) ==> tree_ok(r)),
        tree_ok(value) ==> tree_ok(r),
{
    let vt = value.value.symbol_type();
    if vt == expected {
        value
    } else if vt == SymbolType::Integer && expected == SymbolType::Float {
        cast_to_float(st, value)
    } else {
        push_semantic(st, String::from_str(msg));
        value
    }
}

/// Parses a primary expression: a literal, a variable reference, a
/// function call, or a parenthesized assignment expression.
fn parse_primary(toks: &Vec<Token>, pos: usize, st: &mut Ctx) -> (r: (usize, Option<SyntaxTree>))
    requires
        pos as int <= toks@.len(),
        toks@.len() <= usize::MAX as int,
        old(st).wf(),
    ensures
        final(st).wf(),
        pos <= r.0,
        r.0 as int <= toks@.len(),
        errors_extended(old(st).errors@, final(st).errors@),
        final(st).table == old(st).table,
        r.1 matches Some(t) ==> r.0 > pos,
        r.1 matches Some(t) ==> (final(st).errors@.len() == old(st).errors@.len() ==> tree_ok(t)),
        spec_kind(toks@, pos as int) == crate::token::CONST_INT ==> ({
            &&& final(st).errors@ == old(st).errors@
            &&& r.0 == pos + 1
            &&& r.1 matches Some(t) && t.children@.len() == 0 && (
            t.value matches NodeValue::Integer(v) && v as int == spec_int_sat(
                toks@[pos as int].text@,
                0,
                crate::lexer::digits_end(toks@[pos as int].text@, 0),
                0,
            ))
        }),
        spec_kind(toks@, pos as int) == crate::token::CONST_FLOAT ==> ({
            &&& final(st).errors@ == old(st).errors@
            &&& r.0 == pos + 1
            &&& r.1 matches Some(t) && t.children@.len() == 0 && (
            t.value matches NodeValue::Float(x) && x@ == toks@[pos as int].text@)
        }),
        spec_kind(toks@, pos as int) == crate::token::CONST_BOOLEAN ==> ({
            &&& final(st).errors@ == old(st).errors@
            &&& r.0 == pos + 1
            &&& r.1 matches Some(t) && t.children@.len() == 0 && (
            t.value matches NodeValue::Boolean(b) && b == (toks@[pos as int].text@ == "true"@))
        }),
        spec_kind(toks@, pos as int) == crate::token::CONST_STRING ==> ({
            &&& final(st).errors@ == old(st).errors@
            &&& r.0 == pos + 1
            &&& r.1 matches Some(t) && t.children@.len() == 0 && (
            t.value matches NodeValue::String(x) && x@ == toks@[pos as int].text@)
        }),
    decreases toks@.len() - pos, 1int,
{
    let k = tok_kind(toks, pos);
    if k == crate::token::CONST_INT {
        let v = parse_int_text(toks[pos].text.as_str());
        let node = mk_node(st, NodeValue::Integer(v));
        proof {
            lemma_tree_ok(node);
        }
        (pos + 1, Some(node))
    } else if k == crate::token::CONST_FLOAT {
        let node = mk_node(st, NodeValue::Float(toks[pos].text.clone()));
        proof {
            lemma_tree_ok(node);
        }
        (pos + 1, Some(node))
    } else if k == crate::token::CONST_BOOLEAN {
        let v = str_eq(toks[pos].text.as_str(), "true");
        let node = mk_node(st, NodeValue::Boolean(v));
        proof {
            lemma_tree_ok(node);
        }
        (pos + 1, Some(node))
    } else if k == crate::token::CONST_STRING {
        let node = mk_node(st, NodeValue::String(toks[pos].text.clone()));
        proof {
            lemma_tree_ok(node);
        }
        (pos + 1, Some(node))
    } else if k == crate::token::ID {
        if tok_kind(toks, pos + 1) == 40 {
            parse_call(toks, pos, st)
        } else {
            let name = toks[pos].text.clone();
            let node = var_ref(st, name);
            (pos + 1, Some(node))
        }
    } else if k == 40 {
        let (p2, inner) = parse_assignment(toks, pos + 1, st);
        match inner {
            None => (p2, None),
            Some(t) => {
                if tok_kind(toks, p2) == 41 {
                    (p2 + 1, Some(t))
                } else {
                    push_syntax_error(st, toks, p2, "')'");
                    (p2, None)
                }
            },
        }
    } else {
        push_syntax_error(st, toks, pos, "an expression");
        (pos, None)
    }
}

/// Parses a function call `name ( arguments )`.
///
/// The callee must be a function known at the call site; the argument count
/// must match its parameter count; each argument must have the parameter's
/// type, up to an implicit promotion.  When no diagnostic is raised, the
/// call node carries the callee's return type and its argument sequence has
/// exactly as many children as the callee has parameters.
fn parse_call(toks: &Vec<Token>, pos: usize, st: &mut Ctx) -> (r: (usize, Option<SyntaxTree>))
    requires
        pos as int <= toks@.len(),
        toks@.len() <= usize::MAX as int,
        old(st).wf(),
        spec_kind(toks@, pos as int) == crate::token::ID,
        spec_kind(toks@, pos as int + 1) == 40,
    ensures
        final(st).wf(),
        pos <= r.0,
        r.0 as int <= toks@.len(),
        errors_extended(old(st).errors@, final(st).errors@),
        final(st).table == old(st).table,
        r.1 matches Some(t) ==> r.0 > pos,
        r.1 matches Some(t) ==> (final(st).errors@.len() == old(st).errors@.len() ==> tree_ok(t)),
        r.1 matches Some(t) ==> t.children@.len() == 1 && (t.value matches NodeValue::FunctionCall(
            n2,
            _,
        ) && n2@ == toks@[pos as int].text@),
        r.1 matches Some(t) ==> (match crate::symbol_table::spec_lookup(
            old(st).table.scopes_view(),
            toks@[pos as int].text@,
        ) {
            Some((i, j)) => {
                let sym = old(st).table.scopes_view()[i][j];
                sym.symbol_class matches SymbolClass::Function { parameters } ==> (
                t.children@[0].children@.len() != parameters@.len() ==> ({
                    &&& final(st).errors@.last() matches Error::Semantic(m)
                    &&& m@ == "wrong number of arguments to "@ + toks@[pos as int].text@
                        + " (expected "@ + spec_nat_str(parameters@.len() as int) + ", got "@
                        + spec_nat_str(t.children@[0].children@.len() as int) + ")"@
                }))
            },
            None => true,
        }),
        r.1 matches Some(t) ==> (final(st).errors@.len() == old(st).errors@.len() ==> (
        match crate::symbol_table::spec_lookup(
            old(st).table.scopes_view(),
            toks@[pos as int].text@,
        ) {
            Some((i, j)) => {
                let sym = old(st).table.scopes_view()[i][j];
                sym.symbol_class matches SymbolClass::Function { parameters } ==> {
                    &&& t.value matches NodeValue::FunctionCall(n2, ty) && n2@
                        == toks@[pos as int].text@ && ty == sym.symbol_type
                    &&& t.children@.len() == 1
                    &&& t.children@[0].children@.len() == parameters@.len()
                }
            },
            None => false,
        })),
    decreases toks@.len() - pos, 0int,
{
    let ghost e0 = st.errors@.len();
    let name = toks[pos].text.clone();
    let mut ptypes: Vec<SymbolType> = Vec::new();
    let mut rtype = SymbolType::Void;
    let mut found = false;
    let mut callable = false;
    match st.table.get(name.as_str()) {
        Some(sym) => {
            found = true;
            rtype = sym.symbol_type;
            match &sym.symbol_class {
                SymbolClass::Function { parameters } => {
                    callable = true;
                    let mut k: usize = 0;
                    while k < parameters.len()
                        invariant
                            k <= parameters@.len(),
                            ptypes@.len() == k,
                        decreases parameters@.len() - k,
                    {
                        ptypes.push(parameters[k].symbol_type);
                        k += 1;
                    }
                    proof {
                        assert(ptypes@.len() == parameters@.len());
                    }
                },
                _ => (),
            }
        },
        None => (),
    }
    if !found {
        let mut m = String::from_str("undeclared identifier ");
        m.append(name.as_str());
        push_semantic(st, m);
    } else if !callable {
        let mut m = name.clone();
        m.append(" is not a function");
        push_semantic(st, m);
    }
    let ghost e1 = st.errors@.len();

    let mut seq_node = mk_node(st, NodeValue::Sequence);
    let mut p = pos + 2;
    if tok_kind(toks, p) != 41 {
        loop
            invariant
                pos + 2 <= p,
                p as int <= toks@.len(),
                toks@.len() <= usize::MAX as int,
                st.wf(),
                st.table == old(st).table,
                errors_extended(old(st).errors@, st.errors@),
                st.errors@.len() >= e1,
                e1 >= e0,
                seq_node.value == NodeValue::Sequence,
                st.errors@.len() == e0 ==> tree_ok(seq_node),
            decreases toks@.len() - p,
        {
            let ghost e_start = st.errors@.len();
            let ghost seq_start = seq_node;
            let (p2, arg) = parse_assignment(toks, p, st);
            let ghost e_mid = st.errors@.len();
            match arg {
                None => {
                    return (p2, None);
                },
                Some(a) => {
                    let idx = seq_node.children.len();
                    let a2 = if idx < ptypes.len() {
                        conform(st, a, ptypes[idx], "type mismatch in a call argument")
                    } else {
                        a
                    };
                    seq_node.append(a2);
                    proof {
                        if st.errors@.len() == e0 {
                            assert(e_start == e0 && e_mid == e0);
                            assert(tree_ok(a));
                            assert(tree_ok(a2));
                            assert(tree_ok(seq_start));
                            assert forall|i: int|
                                0 <= i < seq_node.children@.len() implies tree_ok(
                                #[trigger] seq_node.children@[i],
                            ) by {
                                if i < seq_node.children@.len() - 1 {
                                    assert(seq_node.children@[i] == seq_start.children@[i]);
                                }
                            }
                            lemma_tree_ok(seq_node);
                        }
                    }
                    p = p2;
                },
            }
            if tok_kind(toks, p) == 44 {
                p = p + 1;
            } else {
                break;
            }
        }
    }
    if tok_kind(toks, p) != 41 {
        push_syntax_error(st, toks, p, "')'");
        return (p, None);
    }
    let p_end = p + 1;

    let count = seq_node.children.len();
    if callable && count != ptypes.len() {
        let mut m = String::from_str("wrong number of arguments to ");
        m.append(name.as_str());
        m.append(" (expected ");
        let exp = usize_to_string(ptypes.len());
        m.append(exp.as_str());
        m.append(", got ");
        let got = usize_to_string(count);
        m.append(got.as_str());
        m.append(")");
        proof {
            assert(m@ =~= "wrong number of arguments to "@ + name@ + " (expected "@
                + spec_nat_str(ptypes@.len() as int) + ", got "@ + spec_nat_str(count as int)
                + ")"@);
        }
        push_semantic(st, m);
    }
    let mut node = mk_node(st, NodeValue::FunctionCall(name, rtype));
    node.append(seq_node);
    proof {
        if st.errors@.len() == e0 {
            assert(e1 == e0);
            assert(found);
            assert(callable);
            assert(count == ptypes@.len());
            lemma_tree_ok(node);
        }
    }
    (p_end, Some(node))
}

/// Parses a unary expression: a chain of unary minus signs over a primary.
/// The operand of a minus must be numeric and the node keeps its type.
fn parse_unary(toks: &Vec<Token>, pos: usize, st: &mut Ctx) -> (r: (usize, Option<SyntaxTree>))
    requires
        pos as int <= toks@.len(),
        toks@.len() <= usize::MAX as int,
        old(st).wf(),
    ensures
        final(st).wf(),
        pos <= r.0,
        r.0 as int <= toks@.len(),
        errors_extended(old(st).errors@, final(st).errors@),
        final(st).table == old(st).table,
        r.1 matches Some(t) ==> r.0 > pos,
        r.1 matches Some(t) ==> (final(st).errors@.len() == old(st).errors@.len() ==> tree_ok(t)),
    decreases toks@.len() - pos, 2int,
{
    if tok_kind(toks, pos) == 45 {
        let (p2, inner) = parse_unary(toks, pos + 1, st);
        match inner {
            None => (p2, None),
            Some(sub) => {
                let t = sub.value.symbol_type();
                if t == SymbolType::Integer || t == SymbolType::Float {
                    let mut node = mk_node(st, NodeValue::UMinus(t));
                    node.append(sub);
                    proof {
                        if st.errors@.len() == old(st).errors@.len() {
                            lemma_tree_ok(node);
                        }
                    }
                    (p2, Some(node))
                } else {
                    push_semantic(
                        st,
                        String::from_str("operand of a unary minus must be numeric"),
                    );
                    let mut node = mk_node(st, NodeValue::UMinus(t));
                    node.append(sub);
                    (p2, Some(node))
                }
            },
        }
    } else {
        parse_primary(toks, pos, st)
    }
}

/// Parses a multiplicative chain `unary (('*' | '/') unary)*`.
fn parse_mul(toks: &Vec<Token>, pos: usize, st: &mut Ctx) -> (r: (usize, Option<SyntaxTree>))
    requires
        pos as int <= toks@.len(),
        toks@.len() <= usize::MAX as int,
        old(st).wf(),
    ensures
        final(st).wf(),
        pos <= r.0,
        r.0 as int <= toks@.len(),
        errors_extended(old(st).errors@, final(st).errors@),
        final(st).table == old(st).table,
        r.1 matches Some(t) ==> r.0 > pos,
        r.1 matches Some(t) ==> (final(st).errors@.len() == old(st).errors@.len() ==> tree_ok(t)),
    decreases toks@.len() - pos, 3int,
{
    let ghost e0 = st.errors@.len();
    let (p1, first) = parse_unary(toks, pos, st);
    let mut left = match first {
        None => {
            return (p1, None);
        },
        Some(t) => t,
    };
    let mut p = p1;
    loop
        invariant
            pos < p,
            p as int <= toks@.len(),
            toks@.len() <= usize::MAX as int,
            st.wf(),
            st.table == old(st).table,
            errors_extended(old(st).errors@, st.errors@),
            st.errors@.len() >= e0,
            st.errors@.len() == e0 ==> tree_ok(left),
        decreases toks@.len() - p,
    {
        let k = tok_kind(toks, p);
        if k == 42 || k == 47 {
            let ghost e_start = st.errors@.len();
            let ghost left_start = left;
            let (p2, rhs) = parse_unary(toks, p + 1, st);
            let ghost e_mid = st.errors@.len();
            match rhs {
                None => {
                    return (p2, None);
                },
                Some(rt) => {
                    left = build_arith(st, k, left, rt);
                    proof {
                        if st.errors@.len() == e0 {
                            assert(e_start == e0 && e_mid == e0);
                            assert(tree_ok(left_start));
                            assert(tree_ok(rt));
                            assert(tree_ok(left));
                        }
                    }
                    p = p2;
                },
            }
        } else {
            break;
        }
    }
    (p, Some(left))
}

/// Parses an additive chain `mul (('+' | '-') mul)*`.
fn parse_add(toks: &Vec<Token>, pos: usize, st: &mut Ctx) -> (r: (usize, Option<SyntaxTree>))
    requires
        pos as int <= toks@.len(),
        toks@.len() <= usize::MAX as int,
        old(st).wf(),
    ensures
        final(st).wf(),
        pos <= r.0,
        r.0 as int <= toks@.len(),
        errors_extended(old(st).errors@, final(st).errors@),
        final(st).table == old(st).table,
        r.1 matches Some(t) ==> r.0 > pos,
        r.1 matches Some(t) ==> (final(st).errors@.len() == old(st).errors@.len() ==> tree_ok(t)),
    decreases toks@.len() - pos, 4int,
{
    let ghost e0 = st.errors@.len();
    let (p1, first) = parse_mul(toks, pos, st);
    let mut left = match first {
        None => {
            return (p1, None);
        },
        Some(t) => t,
    };
    let mut p = p1;
    loop
        invariant
            pos < p,
            p as int <= toks@.len(),
            toks@.len() <= usize::MAX as int,
            st.wf(),
            st.table == old(st).table,
            errors_extended(old(st).errors@, st.errors@),
            st.errors@.len() >= e0,
            st.errors@.len() == e0 ==> tree_ok(left),
        decreases toks@.len() - p,
    {
        let k = tok_kind(toks, p);
        if k == 43 || k == 45 {
            let ghost e_start = st.errors@.len();
            let ghost left_start = left;
            let (p2, rhs) = parse_mul(toks, p + 1, st);
            let ghost e_mid = st.errors@.len();
            match rhs {
                None => {
                    return (p2, None);
                },
                Some(rt) => {
                    left = build_arith(st, k, left, rt);
                    proof {
                        if st.errors@.len() == e0 {
                            assert(e_start == e0 && e_mid == e0);
                            assert(tree_ok(left_start));
                            assert(tree_ok(rt));
                            assert(tree_ok(left));
                        }
                    }
                    p = p2;
                },
            }
        } else {
            break;
        }
    }
    (p, Some(left))
}

/// Parses a relational chain `add (('<' | '>' | '<=' | '>=') add)*`.
fn parse_rel(toks: &Vec<Token>, pos: usize, st: &mut Ctx) -> (r: (usize, Option<SyntaxTree>))
    requires
        pos as int <= toks@.len(),
        toks@.len() <= usize::MAX as int,
        old(st).wf(),
    ensures
        final(st).wf(),
        pos <= r.0,
        r.0 as int <= toks@.len(),
        errors_extended(old(st).errors@, final(st).errors@),
        final(st).table == old(st).table,
        r.1 matches Some(t) ==> r.0 > pos,
        r.1 matches Some(t) ==> (final(st).errors@.len() == old(st).errors@.len() ==> tree_ok(t)),
    decreases toks@.len() - pos, 5int,
{
    let ghost e0 = st.errors@.len();
    let (p1, first) = parse_add(toks, pos, st);
    let mut left = match first {
        None => {
            return (p1, None);
        },
        Some(t) => t,
    };
    let mut p = p1;
    loop
        invariant
            pos < p,
            p as int <= toks@.len(),
            toks@.len() <= usize::MAX as int,
            st.wf(),
            st.table == old(st).table,
            errors_extended(old(st).errors@, st.errors@),
            st.errors@.len() >= e0,
            st.errors@.len() == e0 ==> tree_ok(left),
        decreases toks@.len() - p,
    {
        let k = tok_kind(toks, p);
        if k == crate::token::LSS || k == crate::token::GRT || k == crate::token::LEQ || k
            == crate::token::GEQ {
            let ghost e_start = st.errors@.len();
            let ghost left_start = left;
            let (p2, rhs) = parse_add(toks, p + 1, st);
            let ghost e_mid = st.errors@.len();
            match rhs {
                None => {
                    return (p2, None);
                },
                Some(rt) => {
                    left = build_relational(st, k, left, rt);
                    proof {
                        if st.errors@.len() == e0 {
                            assert(e_start == e0 && e_mid == e0);
                            assert(tree_ok(left_start));
                            assert(tree_ok(rt));
                            assert(tree_ok(left));
                        }
                    }
                    p = p2;
                },
            }
        } else {
            break;
        }
    }
    (p, Some(left))
}

/// Parses an equality chain `rel (('==' | '!=') rel)*`.
fn parse_eq(toks: &Vec<Token>, pos: usize, st: &mut Ctx) -> (r: (usize, Option<SyntaxTree>))
    requires
        pos as int <= toks@.len(),
        toks@.len() <= usize::MAX as int,
        old(st).wf(),
    ensures
        final(st).wf(),
        pos <= r.0,
        r.0 as int <= toks@.len(),
        errors_extended(old(st).errors@, final(st).errors@),
        final(st).table == old(st).table,
        r.1 matches Some(t) ==> r.0 > pos,
        r.1 matches Some(t) ==> (final(st).errors@.len() == old(st).errors@.len() ==> tree_ok(t)),
    decreases toks@.len() - pos, 6int,
{
    let ghost e0 = st.errors@.len();
    let (p1, first) = parse_rel(toks, pos, st);
    let mut left = match first {
        None => {
            return (p1, None);
        },
        Some(t) => t,
    };
    let mut p = p1;
    loop
        invariant
            pos < p,
            p as int <= toks@.len(),
            toks@.len() <= usize::MAX as int,
            st.wf(),
            st.table == old(st).table,
            errors_extended(old(st).errors@, st.errors@),
            st.errors@.len() >= e0,
            st.errors@.len() == e0 ==> tree_ok(left),
        decreases toks@.len() - p,
    {
        let k = tok_kind(toks, p);
        if k == crate::token::EQ || k == crate::token::NEQ {
            let ghost e_start = st.errors@.len();
            let ghost left_start = left;
            let (p2, rhs) = parse_rel(toks, p + 1, st);
            let ghost e_mid = st.errors@.len();
            match rhs {
                None => {
                    return (p2, None);
                },
                Some(rt) => {
                    left = build_equality(st, k, left, rt);
                    proof {
                        if st.errors@.len() == e0 {
                            assert(e_start == e0 && e_mid == e0);
                            assert(tree_ok(left_start));
                            assert(tree_ok(rt));
                            assert(tree_ok(left));
                        }
                    }
                    p = p2;
                },
            }
        } else {
            break;
        }
    }
    (p, Some(left))
}

/// Parses a conjunction chain `eq ('&&' eq)*`.
fn parse_logand(toks: &Vec<Token>, pos: usize, st: &mut Ctx) -> (r: (usize, Option<SyntaxTree>))
    requires
        pos as int <= toks@.len(),
        toks@.len() <= usize::MAX as int,
        old(st).wf(),
    ensures
        final(st).wf(),
        pos <= r.0,
        r.0 as int <= toks@.len(),
        errors_extended(old(st).errors@, final(st).errors@),
        final(st).table == old(st).table,
        r.1 matches Some(t) ==> r.0 > pos,
        r.1 matches Some(t) ==> (final(st).errors@.len() == old(st).errors@.len() ==> tree_ok(t)),
    decreases toks@.len() - pos, 7int,
{
    let ghost e0 = st.errors@.len();
    let (p1, first) = parse_eq(toks, pos, st);
    let mut left = match first {
        None => {
            return (p1, None);
        },
        Some(t) => t,
    };
    let mut p = p1;
    loop
        invariant
            pos < p,
            p as int <= toks@.len(),
            toks@.len() <= usize::MAX as int,
            st.wf(),
            st.table == old(st).table,
            errors_extended(old(st).errors@, st.errors@),
            st.errors@.len() >= e0,
            st.errors@.len() == e0 ==> tree_ok(left),
        decreases toks@.len() - p,
    {
        let k = tok_kind(toks, p);
        if k == crate::token::AND {
            let ghost e_start = st.errors@.len();
            let ghost left_start = left;
            let (p2, rhs) = parse_eq(toks, p + 1, st);
            let ghost e_mid = st.errors@.len();
            match rhs {
                None => {
                    return (p2, None);
                },
                Some(rt) => {
                    left = build_logical(st, k, left, rt);
                    proof {
                        if st.errors@.len() == e0 {
                            assert(e_start == e0 && e_mid == e0);
                            assert(tree_ok(left_start));
                            assert(tree_ok(rt));
                            assert(tree_ok(left));
                        }
                    }
                    p = p2;
                },
            }
        } else {
            break;
        }
    }
    (p, Some(left))
}

/// Parses a disjunction chain `logand ('||' logand)*`.
fn parse_logor(toks: &Vec<Token>, pos: usize, st: &mut Ctx) -> (r: (usize, Option<SyntaxTree>))
    requires
        pos as int <= toks@.len(),
        toks@.len() <= usize::MAX as int,
        old(st).wf(),
    ensures
        final(st).wf(),
        pos <= r.0,
        r.0 as int <= toks@.len(),
        errors_extended(old(st).errors@, final(st).errors@),
        final(st).table == old(st).table,
        r.1 matches Some(t) ==> r.0 > pos,
        r.1 matches Some(t) ==> (final(st).errors@.len() == old(st).errors@.len() ==> tree_ok(t)),
    decreases toks@.len() - pos, 8int,
{
    let ghost e0 = st.errors@.len();
    let (p1, first) = parse_logand(toks, pos, st);
    let mut left = match first {
        None => {
            return (p1, None);
        },
        Some(t) => t,
    };
    let mut p = p1;
    loop
        invariant
            pos < p,
            p as int <= toks@.len(),
            toks@.len() <= usize::MAX as int,
            st.wf(),
            st.table == old(st).table,
            errors_extended(old(st).errors@, st.errors@),
            st.errors@.len() >= e0,
            st.errors@.len() == e0 ==> tree_ok(left),
        decreases toks@.len() - p,
    {
        let k = tok_kind(toks, p);
        if k == crate::token::OR {
            let ghost e_start = st.errors@.len();
            let ghost left_start = left;
            let (p2, rhs) = parse_logand(toks, p + 1, st);
            let ghost e_mid = st.errors@.len();
            match rhs {
                None => {
                    return (p2, None);
                },
                Some(rt) => {
                    left = build_logical(st, k, left, rt);
                    proof {
                        if st.errors@.len() == e0 {
                            assert(e_start == e0 && e_mid == e0);
                            assert(tree_ok(left_start));
                            assert(tree_ok(rt));
                            assert(tree_ok(left));
                        }
                    }
                    p = p2;
                },
            }
        } else {
            break;
        }
    }
    (p, Some(left))
}

/// Parses an assignment expression: `name = assignment` assigns to a
/// declared variable, whose type becomes the node's type with the value
/// conformed to it; anything else is a disjunction.  Assignment is
/// right-associative and is itself an expression.
fn parse_assignment(toks: &Vec<Token>, pos: usize, st: &mut Ctx) -> (r: (
    usize,
    Option<SyntaxTree>,
))
    requires
        pos as int <= toks@.len(),
        toks@.len() <= usize::MAX as int,
        old(st).wf(),
    ensures
        final(st).wf(),
        pos <= r.0,
        r.0 as int <= toks@.len(),
        errors_extended(old(st).errors@, final(st).errors@),
        final(st).table == old(st).table,
        r.1 matches Some(t) ==> r.0 > pos,
        r.1 matches Some(t) ==> (final(st).errors@.len() == old(st).errors@.len() ==> tree_ok(t)),
    decreases toks@.len() - pos, 9int,
{
    let ghost e0 = st.errors@.len();
    if tok_kind(toks, pos) == crate::token::ID && tok_kind(toks, pos + 1) == 61 {
        let name = toks[pos].text.clone();
        let (p2, rhs) = parse_assignment(toks, pos + 2, st);
        match rhs {
            None => (p2, None),
            Some(value) => {
                let lhs = var_ref(st, name.clone());
                let lt = lhs.value.symbol_type();
                let value2 = conform(st, value, lt, "type mismatch in assignment");
                let mut node = mk_node(st, NodeValue::Assign(lt));
                node.append(lhs);
                node.append(value2);
                proof {
                    if st.errors@.len() == e0 {
                        lemma_tree_ok(node);
                    }
                }
                (p2, Some(node))
            },
        }
    } else {
        parse_logor(toks, pos, st)
    }
}


/// The text of a lexical diagnostic: the unrecognized slice and its column.
pub open spec fn spec_lexical_msg(ts: Seq<Token>, pos: int) -> Seq<char> {
    "unrecognized input '"@ + ts[pos].text@ + "' at column "@ + spec_nat_str(
        ts[pos].loc.begin as int,
    )
}

/// Appends a lexical diagnostic for an unrecognized piece of input.
fn push_lexical(st: &mut Ctx, toks: &Vec<Token>, pos: usize)
    requires
        pos < toks@.len(),
    ensures
        final(st).table == old(st).table,
        final(st).errors@.len() == old(st).errors@.len() + 1,
        errors_extended(old(st).errors@, final(st).errors@),
        final(st).errors@.last() matches Error::Lexical(m) && m@ == spec_lexical_msg(
            toks@,
            pos as int,
        ),
{
    let mut m = String::new();
    m.append("unrecognized input '");
    m.append(toks[pos].text.as_str());
    m.append("' at column ");
    let c = u64_to_string(toks[pos].loc.begin as u64);
    m.append(c.as_str());
    proof {
        assert(m@ =~= spec_lexical_msg(toks@, pos as int));
    }
    st.errors.push(Error::Lexical(m));
    proof {
        assert(final(st).errors@.subrange(0, old(st).errors@.len() as int) =~= old(st).errors@);
    }
}

/// Consumes one expected token, or reports what was expected.
fn expect(st: &mut Ctx, toks: &Vec<Token>, pos: usize, kind: i32, expected: &str) -> (r: (
    usize,
    bool,
))
    requires
        pos as int <= toks@.len(),
        toks@.len() <= usize::MAX as int,
        kind != crate::token::YYEOF,
    ensures
        final(st).table == old(st).table,
        errors_extended(old(st).errors@, final(st).errors@),
        pos <= r.0,
        r.0 as int <= toks@.len(),
        r.1 ==> final(st).errors@ == old(st).errors@ && r.0 == pos + 1,
        !r.1 ==> r.0 == pos,
{
    if tok_kind(toks, pos) == kind {
        (pos + 1, true)
    } else {
        push_syntax_error(st, toks, pos, expected);
        (pos, false)
    }
}

/// Skips ahead to the next statement boundary: past a semicolon, or to a
/// closing brace or the end of the input.
fn sync_stmt(toks: &Vec<Token>, pos: usize) -> (r: usize)
    requires
        pos as int <= toks@.len(),
        toks@.len() <= usize::MAX as int,
    ensures
        pos <= r,
        r as int <= toks@.len(),
{
    let mut p = pos;
    loop
        invariant
            pos <= p,
            p as int <= toks@.len(),
        decreases toks@.len() - p,
    {
        if p >= toks.len() {
            return p;
        }
        let k = toks[p].token_type;
        if k == 59 {
            return p + 1;
        }
        if k == 125 || k == crate::token::YYEOF {
            return p;
        }
        p = p + 1;
    }
}

/// Skips ahead to where a function body could resume: an opening brace, a
/// statement boundary, or the end of the input.
fn sync_to_body(toks: &Vec<Token>, pos: usize) -> (r: usize)
    requires
        pos as int <= toks@.len(),
        toks@.len() <= usize::MAX as int,
    ensures
        pos <= r,
        r as int <= toks@.len(),
{
    let mut p = pos;
    loop
        invariant
            pos <= p,
            p as int <= toks@.len(),
        decreases toks@.len() - p,
    {
        if p >= toks.len() {
            return p;
        }
        let k = toks[p].token_type;
        if k == 123 || k == 59 || k == 125 || k == crate::token::YYEOF {
            return p;
        }
        p = p + 1;
    }
}

/// Parses a variable declaration `type name` with an optional initializer
/// `= assignment`; the terminating semicolon stays with the caller.
///
/// The name is declared in the current scope.  With an initializer the
/// result is an assignment node over the declaration, a reference to the
/// declared variable, and the initializing value conformed to the declared
/// type; without one it is a bare declaration node.
fn parse_declassignment(toks: &Vec<Token>, pos: usize, st: &mut Ctx) -> (r: (
    usize,
    Option<SyntaxTree>,
))
    requires
        pos as int <= toks@.len(),
        toks@.len() <= usize::MAX as int,
        old(st).wf(),
    ensures
        final(st).wf(),
        pos <= r.0,
        r.0 as int <= toks@.len(),
        errors_extended(old(st).errors@, final(st).errors@),
        final(st).table.scopes_view().len() == old(st).table.scopes_view().len(),
        final(st).table.function_type_view() == old(st).table.function_type_view(),
        r.1 matches Some(t) ==> r.0 > pos,
        r.1 matches Some(t) ==> (final(st).errors@.len() == old(st).errors@.len() ==> tree_ok(t)),
    decreases toks@.len() - pos, 10int,
{
    let ghost e0 = st.errors@.len();
    let tk = tok_kind(toks, pos);
    if !is_type_kw(tk) {
        push_syntax_error(st, toks, pos, "a type");
        return (pos, None);
    }
    if tok_kind(toks, pos + 1) != crate::token::ID {
        push_syntax_error(st, toks, pos + 1, "an identifier");
        return (pos + 1, None);
    }
    let ty = type_of_kw(tk);
    let name = toks[pos + 1].text.clone();
    let sym = st.table.variable_symbol(name.clone(), ty);
    declare(st, sym);
    let ghost e1 = st.errors@.len();
    if tok_kind(toks, pos + 2) == 61 {
        let (p2, rhs) = parse_assignment(toks, pos + 3, st);
        let ghost e2 = st.errors@.len();
        match rhs {
            None => (p2, None),
            Some(value) => {
                let value2 = conform(st, value, ty, "type mismatch in assignment");
                let mut node = mk_node(st, NodeValue::Assign(ty));
                let decl = mk_node(st, NodeValue::VariableDeclaration(name.clone()));
                let vref = mk_node(st, NodeValue::VariableRef(name, ty));
                node.append(decl);
                node.append(vref);
                node.append(value2);
                proof {
                    if st.errors@.len() == e0 {
                        assert(e1 == e0 && e2 == e0);
                        assert(tree_ok(value));
                        assert(tree_ok(value2));
                        assert(eff_type(value2) == ty);
                        lemma_tree_ok(node);
                    }
                }
                (p2, Some(node))
            },
        }
    } else {
        let node = mk_node(st, NodeValue::VariableDeclaration(name));
        proof {
            lemma_tree_ok(node);
        }
        (pos + 2, Some(node))
    }
}

/// Parses one statement: a block, a declaration, an assignment, a
/// conditional, one of the three loops, a return, a print, a call, or an
/// empty statement.  Statements that the grammar ends with a semicolon
/// consume it here; on a syntax error the parse skips to the next
/// statement boundary.
#[verifier::rlimit(100)]
fn parse_statement(toks: &Vec<Token>, pos: usize, st: &mut Ctx) -> (r: (usize, Option<SyntaxTree>))
    requires
        pos as int <= toks@.len(),
        toks@.len() <= usize::MAX as int,
        old(st).wf(),
    ensures
        final(st).wf(),
        pos <= r.0,
        r.0 as int <= toks@.len(),
        errors_extended(old(st).errors@, final(st).errors@),
        final(st).table.scopes_view().len() == old(st).table.scopes_view().len(),
        r.1 matches Some(t) ==> (final(st).errors@.len() == old(st).errors@.len() ==> tree_ok(t)),
    decreases toks@.len() - pos, 11int,
{
    let ghost e0 = st.errors@.len();
    let k = tok_kind(toks, pos);
    if k == 123 {
        // a block: its statements live in a scope of their own
        st.table.enter_scope();
        let (p2, body) = parse_statements(toks, pos + 1, st);
        st.table.leave_scope();
        let (p3, closed) = expect(st, toks, p2, 125, "'}'");
        if closed {
            (p3, Some(body))
        } else {
            (sync_stmt(toks, p3), None)
        }
    } else if is_type_kw(k) {
        let (p2, node) = parse_declassignment(toks, pos, st);
        match node {
            Some(n) => {
                let (p3, closed) = expect(st, toks, p2, 59, "';'");
                if closed {
                    (p3, Some(n))
                } else {
                    (sync_stmt(toks, p3), None)
                }
            },
            None => (sync_stmt(toks, p2), None),
        }
    } else if k == crate::token::KW_IF {
        let (p1, opened) = expect(st, toks, pos + 1, 40, "'('");
        if !opened {
            return (sync_stmt(toks, p1), None);
        }
        let (p2, cond) = parse_assignment(toks, p1, st);
        match cond {
            None => (sync_stmt(toks, p2), None),
            Some(c) => {
                if !(c.value.symbol_type() == SymbolType::Boolean) {
                    push_semantic(st, String::from_str("condition must be boolean"));
                }
                let (p3, closed) = expect(st, toks, p2, 41, "')'");
                if !closed {
                    return (sync_stmt(toks, p3), None);
                }
                let (p4, then_stmt) = parse_statement(toks, p3, st);
                let mut node = mk_node(st, NodeValue::If);
                node.append(c);
                match then_stmt {
                    Some(t) => node.append(t),
                    None => (),
                }
                if tok_kind(toks, p4) == crate::token::KW_ELSE {
                    let (p5, else_stmt) = parse_statement(toks, p4 + 1, st);
                    match else_stmt {
                        Some(t) => node.append(t),
                        None => (),
                    }
                    proof {
                        if st.errors@.len() == e0 {
                            lemma_tree_ok(node);
                        }
                    }
                    (p5, Some(node))
                } else {
                    proof {
                        if st.errors@.len() == e0 {
                            lemma_tree_ok(node);
                        }
                    }
                    (p4, Some(node))
                }
            },
        }
    } else if k == crate::token::KW_WHILE {
        let (p1, opened) = expect(st, toks, pos + 1, 40, "'('");
        if !opened {
            return (sync_stmt(toks, p1), None);
        }
        let (p2, cond) = parse_assignment(toks, p1, st);
        match cond {
            None => (sync_stmt(toks, p2), None),
            Some(c) => {
                if !(c.value.symbol_type() == SymbolType::Boolean) {
                    push_semantic(st, String::from_str("condition must be boolean"));
                }
                let (p3, closed) = expect(st, toks, p2, 41, "')'");
                if !closed {
                    return (sync_stmt(toks, p3), None);
                }
                let (p4, body) = parse_statement(toks, p3, st);
                let mut node = mk_node(st, NodeValue::While);
                node.append(c);
                match body {
                    Some(b) => node.append(b),
                    None => (),
                }
                proof {
                    if st.errors@.len() == e0 {
                        lemma_tree_ok(node);
                    }
                }
                (p4, Some(node))
            },
        }
    } else if k == crate::token::KW_DO {
        let (p1, body) = parse_statement(toks, pos + 1, st);
        let (p2, kw_ok) = expect(st, toks, p1, crate::token::KW_WHILE, "'while'");
        if !kw_ok {
            return (sync_stmt(toks, p2), None);
        }
        let (p3, opened) = expect(st, toks, p2, 40, "'('");
        if !opened {
            return (sync_stmt(toks, p3), None);
        }
        let (p4, cond) = parse_assignment(toks, p3, st);
        match cond {
            None => (sync_stmt(toks, p4), None),
            Some(c) => {
                if !(c.value.symbol_type() == SymbolType::Boolean) {
                    push_semantic(st, String::from_str("condition must be boolean"));
                }
                let (p5, closed) = expect(st, toks, p4, 41, "')'");
                if !closed {
                    return (sync_stmt(toks, p5), None);
                }
                let (p6, semi) = expect(st, toks, p5, 59, "';'");
                if !semi {
                    return (sync_stmt(toks, p6), None);
                }
                let mut node = mk_node(st, NodeValue::DoWhile);
                match body {
                    Some(b) => node.append(b),
                    None => (),
                }
                node.append(c);
                proof {
                    if st.errors@.len() == e0 {
                        lemma_tree_ok(node);
                    }
                }
                (p6, Some(node))
            },
        }
    } else if k == crate::token::KW_FOR {
        let (p1, opened) = expect(st, toks, pos + 1, 40, "'('");
        if !opened {
            return (sync_stmt(toks, p1), None);
        }
        let (p2, init) = if is_type_kw(tok_kind(toks, p1)) {
            parse_declassignment(toks, p1, st)
        } else {
            parse_assignment(toks, p1, st)
        };
        match init {
            None => (sync_stmt(toks, p2), None),
            Some(i) => {
                let (p3, semi1) = expect(st, toks, p2, 59, "';'");
                if !semi1 {
                    return (sync_stmt(toks, p3), None);
                }
                let (p4, cond) = parse_assignment(toks, p3, st);
                match cond {
                    None => (sync_stmt(toks, p4), None),
                    Some(c) => {
                        if !(c.value.symbol_type() == SymbolType::Boolean) {
                            push_semantic(st, String::from_str("condition must be boolean"));
                        }
                        let (p5, semi2) = expect(st, toks, p4, 59, "';'");
                        if !semi2 {
                            return (sync_stmt(toks, p5), None);
                        }
                        let (p6, update) = parse_assignment(toks, p5, st);
                        match update {
                            None => (sync_stmt(toks, p6), None),
                            Some(u) => {
                                let (p7, closed) = expect(st, toks, p6, 41, "')'");
                                if !closed {
                                    return (sync_stmt(toks, p7), None);
                                }
                                let (p8, body) = parse_statement(toks, p7, st);
                                let mut node = mk_node(st, NodeValue::For);
                                node.append(i);
                                node.append(c);
                                node.append(u);
                                match body {
                                    Some(b) => node.append(b),
                                    None => (),
                                }
                                proof {
                                    if st.errors@.len() == e0 {
                                        lemma_tree_ok(node);
                                    }
                                }
                                (p8, Some(node))
                            },
                        }
                    },
                }
            },
        }
    } else if k == crate::token::KW_RETURN {
        let ft = st.table.function_type();
        if tok_kind(toks, pos + 1) == 59 {
            match ft {
                Some(t) => {
                    if !(t == SymbolType::Void) {
                        push_semantic(
                            st,
                            String::from_str("return without a value in a non-void function"),
                        );
                    }
                },
                None => (),
            }
            let node = mk_node(st, NodeValue::Return(SymbolType::Void));
            proof {
                lemma_tree_ok(node);
            }
            (pos + 2, Some(node))
        } else {
            let (p2, value) = parse_assignment(toks, pos + 1, st);
            match value {
                None => (sync_stmt(toks, p2), None),
                Some(v) => {
                    let (rt, v2) = match ft {
                        Some(t) => {
                            if t == SymbolType::Void {
                                push_semantic(
                                    st,
                                    String::from_str("return with a value in a void function"),
                                );
                                let vt = v.value.symbol_type();
                                (vt, v)
                            } else {
                                let v2 = conform(st, v, t, "type mismatch in return");
                                (t, v2)
                            }
                        },
                        None => {
                            let vt = v.value.symbol_type();
                            (vt, v)
                        },
                    };
                    let (p3, semi) = expect(st, toks, p2, 59, "';'");
                    if !semi {
                        return (sync_stmt(toks, p3), None);
                    }
                    let mut node = mk_node(st, NodeValue::Return(rt));
                    node.append(v2);
                    proof {
                        if st.errors@.len() == e0 {
                            lemma_tree_ok(node);
                        }
                    }
                    (p3, Some(node))
                },
            }
        }
    } else if k == crate::token::KW_PRINTF {
        let (p1, opened) = expect(st, toks, pos + 1, 40, "'('");
        if !opened {
            return (sync_stmt(toks, p1), None);
        }
        let (p2, arg) = parse_assignment(toks, p1, st);
        match arg {
            None => (sync_stmt(toks, p2), None),
            Some(a) => {
                if a.value.symbol_type() == SymbolType::Void {
                    push_semantic(st, String::from_str("printf argument must not be void"));
                }
                let (p3, closed) = expect(st, toks, p2, 41, "')'");
                if !closed {
                    return (sync_stmt(toks, p3), None);
                }
                let (p4, semi) = expect(st, toks, p3, 59, "';'");
                if !semi {
                    return (sync_stmt(toks, p4), None);
                }
                let mut node = mk_node(st, NodeValue::Print);
                node.append(a);
                proof {
                    if st.errors@.len() == e0 {
                        lemma_tree_ok(node);
                    }
                }
                (p4, Some(node))
            },
        }
    } else if k == crate::token::ID {
        let nk = tok_kind(toks, pos + 1);
        if nk == 61 {
            let (p2, a) = parse_assignment(toks, pos, st);
            match a {
                None => (sync_stmt(toks, p2), None),
                Some(n) => {
                    let (p3, semi) = expect(st, toks, p2, 59, "';'");
                    if !semi {
                        return (sync_stmt(toks, p3), None);
                    }
                    (p3, Some(n))
                },
            }
        } else if nk == 40 {
            let (p2, call) = parse_call(toks, pos, st);
            match call {
                None => (sync_stmt(toks, p2), None),
                Some(n) => {
                    let (p3, semi) = expect(st, toks, p2, 59, "';'");
                    if !semi {
                        return (sync_stmt(toks, p3), None);
                    }
                    (p3, Some(n))
                },
            }
        } else {
            push_syntax_error(st, toks, pos, "'=' or '('");
            (sync_stmt(toks, pos), None)
        }
    } else if k == 59 {
        // an empty statement produces no node
        (pos + 1, None)
    } else {
        push_syntax_error(st, toks, pos, "a statement");
        (sync_stmt(toks, pos), None)
    }
}

/// Parses statements until a closing brace or the end of the input,
/// collecting them under a `Sequence` node.
fn parse_statements(toks: &Vec<Token>, pos: usize, st: &mut Ctx) -> (r: (usize, SyntaxTree))
    requires
        pos as int <= toks@.len(),
        toks@.len() <= usize::MAX as int,
        old(st).wf(),
    ensures
        final(st).wf(),
        pos <= r.0,
        r.0 as int <= toks@.len(),
        errors_extended(old(st).errors@, final(st).errors@),
        final(st).table.scopes_view().len() == old(st).table.scopes_view().len(),
        r.1.value == NodeValue::Sequence,
        final(st).errors@.len() == old(st).errors@.len() ==> tree_ok(r.1),
    decreases toks@.len() - pos, 12int,
{
    let ghost e0 = st.errors@.len();
    let mut seq_node = mk_node(st, NodeValue::Sequence);
    let mut p = pos;
    loop
        invariant
            pos <= p,
            p as int <= toks@.len(),
            toks@.len() <= usize::MAX as int,
            st.wf(),
            st.table.scopes_view().len() == old(st).table.scopes_view().len(),
            errors_extended(old(st).errors@, st.errors@),
            st.errors@.len() >= e0,
            seq_node.value == NodeValue::Sequence,
            st.errors@.len() == e0 ==> tree_ok(seq_node),
        decreases toks@.len() - p,
    {
        let k = tok_kind(toks, p);
        if k == 125 || k == crate::token::YYEOF {
            break;
        }
        if k == crate::token::YYERROR {
            push_lexical(st, toks, p);
            p = p + 1;
            continue;
        }
        let p_before = p;
        let ghost e_start = st.errors@.len();
        let ghost seq_start = seq_node;
        let (p2, stmt) = parse_statement(toks, p, st);
        let ghost e_mid = st.errors@.len();
        match stmt {
            Some(n) => {
                seq_node.append(n);
                proof {
                    if st.errors@.len() == e0 {
                        assert(e_start == e0 && e_mid == e0);
                        assert(tree_ok(n));
                        assert(tree_ok(seq_start));
                        assert forall|i: int|
                            0 <= i < seq_node.children@.len() implies tree_ok(
                            #[trigger] seq_node.children@[i],
                        ) by {
                            if i < seq_node.children@.len() - 1 {
                                assert(seq_node.children@[i] == seq_start.children@[i]);
                            }
                        }
                        lemma_tree_ok(seq_node);
                    }
                }
            },
            None => (),
        }
        p = if p2 > p_before {
            p2
        } else {
            p_before + 1
        };
    }
    (p, seq_node)
}

/// Parses a function definition `type name ( parameters ) { body }`.
///
/// The function symbol is declared in the enclosing scope when its opening
/// parenthesis is seen; its parameters and body share one fresh scope,
/// which is left when the body closes, and the current function type is
/// cleared again.
fn parse_funcdef(toks: &Vec<Token>, pos: usize, st: &mut Ctx) -> (r: (usize, Option<SyntaxTree>))
    requires
        pos as int <= toks@.len(),
        toks@.len() <= usize::MAX as int,
        old(st).wf(),
        spec_kind(toks@, pos as int + 1) == crate::token::ID,
        spec_kind(toks@, pos as int + 2) == 40,
    ensures
        final(st).wf(),
        pos <= r.0,
        r.0 as int <= toks@.len(),
        errors_extended(old(st).errors@, final(st).errors@),
        final(st).table.scopes_view().len() == old(st).table.scopes_view().len(),
        final(st).table.function_type_view() is None,
        r.1 matches Some(t) ==> r.0 > pos,
        r.1 matches Some(t) ==> (final(st).errors@.len() == old(st).errors@.len() ==> tree_ok(t)),
    decreases toks@.len() - pos, 13int,
{
    let ghost e0 = st.errors@.len();
    let tk = tok_kind(toks, pos);
    let ty = type_of_kw(tk);
    let name = toks[pos + 1].text.clone();
    let fsym = st.table.function_symbol(name.clone(), ty);
    declare(st, fsym);
    st.table.enter_scope();
    let mut fnode = mk_node(st, NodeValue::FunctionDeclaration(name));
    let mut p = pos + 3;

    // the parameter list
    if is_type_kw(tok_kind(toks, p)) {
        loop
            invariant
                pos + 3 <= p,
                p as int <= toks@.len(),
                toks@.len() <= usize::MAX as int,
                st.wf(),
                st.table.scopes_view().len() == old(st).table.scopes_view().len() + 1,
                errors_extended(old(st).errors@, st.errors@),
                st.errors@.len() >= e0,
                fnode.value matches NodeValue::FunctionDeclaration(_),
                st.errors@.len() == e0 ==> tree_ok(fnode),
            decreases toks@.len() - p,
        {
            let ptk = tok_kind(toks, p);
            if !is_type_kw(ptk) {
                push_syntax_error(st, toks, p, "a parameter type");
                p = sync_to_body(toks, p);
                break;
            }
            if tok_kind(toks, p + 1) != crate::token::ID {
                push_syntax_error(st, toks, p + 1, "a parameter name");
                p = sync_to_body(toks, p);
                break;
            }
            let pty = type_of_kw(ptk);
            let pname = toks[p + 1].text.clone();
            let psym = st.table.parameter_symbol(pname.clone(), pty);
            declare(st, psym);
            let ghost fnode_start = fnode;
            let pnode = mk_node(st, NodeValue::Parameter(pname));
            fnode.append(pnode);
            proof {
                if st.errors@.len() == e0 {
                    assert(tree_ok(fnode_start));
                    assert forall|i: int|
                        0 <= i < fnode.children@.len() implies tree_ok(
                        #[trigger] fnode.children@[i],
                    ) by {
                        if i < fnode.children@.len() - 1 {
                            assert(fnode.children@[i] == fnode_start.children@[i]);
                        }
                    }
                    lemma_tree_ok(fnode);
                }
            }
            p = p + 2;
            if tok_kind(toks, p) == 44 {
                p = p + 1;
            } else {
                break;
            }
        }
    }
    let (p1, closed) = expect(st, toks, p, 41, "')'");
    let mut q = p1;
    if !closed {
        q = sync_to_body(toks, p1);
    }
    // the body
    let ghost fnode_before_body = fnode;
    if tok_kind(toks, q) == 123 {
        let (q2, body) = parse_statements(toks, q + 1, st);
        fnode.append(body);
        proof {
            if st.errors@.len() == e0 {
                assert(tree_ok(body));
                assert(tree_ok(fnode_before_body));
                assert forall|i: int|
                    0 <= i < fnode.children@.len() implies tree_ok(#[trigger] fnode.children@[i]) by {
                    if i < fnode.children@.len() - 1 {
                        assert(fnode.children@[i] == fnode_before_body.children@[i]);
                    }
                }
                lemma_tree_ok(fnode);
            }
        }
        let (q3, _) = expect(st, toks, q2, 125, "'}'");
        q = q3;
    } else {
        push_syntax_error(st, toks, q, "'{'");
        let ghost fnode_start2 = fnode;
        let body = mk_node(st, NodeValue::Sequence);
        fnode.append(body);
        proof {
            if st.errors@.len() == e0 {
                assert(tree_ok(fnode_start2));
                assert forall|i: int|
                    0 <= i < fnode.children@.len() implies tree_ok(#[trigger] fnode.children@[i]) by {
                    if i < fnode.children@.len() - 1 {
                        assert(fnode.children@[i] == fnode_start2.children@[i]);
                    }
                }
                lemma_tree_ok(fnode);
            }
        }
    }
    st.table.leave_scope();
    st.table.clear_function_type();
    (q, Some(fnode))
}


/// A name found by the scan really carries that name.
proof fn lemma_find_name_found(s: Seq<Symbol>, name: Seq<char>, i: int)
    ensures
        match crate::symbol_table::spec_find_name(s, name, i) {
            Some(j) => i <= j < s.len() && s[j].name@ == name,
            None => true,
        },
    decreases s.len() - i,
{
    if 0 <= i < s.len() {
        if !(s[i].name@ == name) {
            lemma_find_name_found(s, name, i + 1);
        }
    }
}

/// The parser of C1: it owns the lexer it drains, collects diagnostics,
/// and drives the symbol table and the tree construction.
#[derive(Debug)]
pub struct Parser<'a> {
    /// The lexer whose token stream is parsed.
    pub yylexer: C1Lexer<'a>,
    /// Whether a trace of parser events was requested.  The field is kept
    /// for compatibility; the parser itself performs no output.
    pub debug: bool,
    ctx: Ctx,
}

impl<'a> Parser<'a> {
    /// The lexer the parser drains.
    pub closed spec fn lexer(self) -> C1Lexer<'a> {
        self.yylexer
    }

    /// Whether tracing was requested.
    pub closed spec fn debug_flag(self) -> bool {
        self.debug
    }

    /// The symbol table as the parse left it.
    pub closed spec fn sym_table(self) -> SymbolTable {
        self.ctx.table
    }

    /// The diagnostics collected so far.
    pub closed spec fn errors_seq(self) -> Seq<Error> {
        self.ctx.errors@
    }

    /// Parser well-formedness: the table is well formed and sits at the
    /// global scope with no current function type.
    pub closed spec fn wf(self) -> bool {
        &&& self.ctx.table.wf()
        &&& self.ctx.table.scopes_view().len() == 1
        &&& self.ctx.table.function_type_view() is None
    }

    /// Creates a parser over the given lexer, with a fresh symbol table and
    /// no diagnostics.
    pub fn new(yylexer: C1Lexer<'a>) -> (r: Parser<'a>)
        ensures
            r.wf(),
            r.errors_seq().len() == 0,
            r.debug_flag() == false,
            r.sym_table().num_symbols_view() == 0,
            r.lexer() == yylexer,
    {
        Parser {
            yylexer,
            debug: false,
            ctx: Ctx { table: SymbolTable::new(), errors: Vec::new(), next_id: 0 },
        }
    }

    /// Parses the whole input, draining the lexer's entire token stream.
    ///
    /// On success the tree is `Root[Program[Sequence[...]]]`, every node of
    /// it satisfies its typing constraints, a `void main()` without
    /// parameters was declared, and the table is balanced: back at the
    /// global scope alone, with no current function type.  On failure the
    /// collected diagnostics are returned and there is at least one; an
    /// empty program in particular is rejected with exactly the
    /// missing-main diagnostic.
    pub fn do_parse(&mut self) -> (r: AnalysisResult)
        requires
            old(self).wf(),
        ensures
            final(self).wf(),
            errors_extended(old(self).errors_seq(), final(self).errors_seq()),
            final(self).lexer().src() == old(self).lexer().src(),
            final(self).lexer().cursor() == if old(self).lexer().cursor() >= old(
                self,
            ).lexer().stream().len() {
                old(self).lexer().cursor()
            } else {
                old(self).lexer().stream().len() as int
            },
            (old(self).lexer().stream().len() == 0 && old(self).errors_seq().len() == 0 && old(
                self,
            ).sym_table().num_symbols_view() == 0) ==> ({
                &&& r matches Err(es)
                &&& es@.len() == 1
                &&& es@[0] matches Error::Semantic(m) && m@
                    == "missing function: a void main() without parameters"@
            }),
            match r {
                Ok(tree) => {
                    &&& final(self).errors_seq().len() == 0
                    &&& tree.value == NodeValue::Root
                    &&& tree.children@.len() == 1
                    &&& tree.children@[0].value == NodeValue::Program
                    &&& tree.children@[0].children@.len() == 1
                    &&& tree.children@[0].children@[0].value == NodeValue::Sequence
                    &&& tree_ok(tree)
                    &&& main_ok(final(self).sym_table())
                    &&& final(self).sym_table().scopes_view().len() == 1
                    &&& final(self).sym_table().function_type_view() is None
                },
                Err(es) => es@.len() > 0 && es@ =~= final(self).errors_seq(),
            },
    {
        let ghost e0 = self.ctx.errors@.len();

        // Drain the lexer into a token vector ending in the end marker.
        let mut toks: Vec<Token> = Vec::new();
        let ghost c_end: int = if old(self).yylexer.cursor() >= old(self).yylexer.stream().len() {
            old(self).yylexer.cursor()
        } else {
            old(self).yylexer.stream().len() as int
        };
        loop
            invariant
                self.ctx == old(self).ctx,
                self.yylexer.src() == old(self).yylexer.src(),
                self.yylexer.stream() == old(self).yylexer.stream(),
                old(self).yylexer.cursor() <= self.yylexer.cursor() <= c_end,
                old(self).yylexer.stream().len() == 0 ==> toks@.len() == 0,
                c_end == if old(self).yylexer.cursor() >= old(self).yylexer.stream().len() {
                    old(self).yylexer.cursor()
                } else {
                    old(self).yylexer.stream().len() as int
                },
            ensures
                self.ctx == old(self).ctx,
                self.yylexer.src() == old(self).yylexer.src(),
                self.yylexer.stream() == old(self).yylexer.stream(),
                self.yylexer.cursor() == c_end,
                old(self).yylexer.stream().len() == 0 ==> toks@.len() == 0,
            decreases self.yylexer.stream().len() - self.yylexer.cursor(),
        {
            let t = self.yylexer.yylex();
            let is_eof = t.token_type == crate::token::YYEOF;
            if is_eof {
                break;
            }
            proof {
                assert(self.yylexer.stream().len() > 0);
            }
            toks.push(t);
        }
        // Reading the length once shows that it fits the machine word.
        let n_toks = toks.len();
        proof {
            assert(n_toks as int == toks@.len());
        }

        // Top-level items: declarations and function definitions.
        let mut items = mk_node(&mut self.ctx, NodeValue::Sequence);
        let mut p: usize = 0;
        loop
            invariant
                p as int <= toks@.len(),
                toks@.len() <= usize::MAX as int,
                self.yylexer.src() == old(self).yylexer.src(),
                self.yylexer.stream() == old(self).yylexer.stream(),
                self.yylexer.cursor() == c_end,
                self.ctx.wf(),
                self.ctx.table.scopes_view().len() == 1,
                self.ctx.table.function_type_view() is None,
                errors_extended(old(self).ctx.errors@, self.ctx.errors@),
                self.ctx.errors@.len() >= e0,
                items.value == NodeValue::Sequence,
                self.ctx.errors@.len() == e0 ==> tree_ok(items),
                toks@.len() == 0 ==> self.ctx.errors@.len() == e0 && self.ctx.table == old(
                    self,
                ).ctx.table,
            decreases toks@.len() - p,
        {
            let k = tok_kind(&toks, p);
            if k == crate::token::YYEOF {
                break;
            }
            if k == crate::token::YYERROR {
                push_lexical(&mut self.ctx, &toks, p);
                p = p + 1;
                continue;
            }
            let p_before = p;
            let ghost e_start = self.ctx.errors@.len();
            let ghost items_start = items;
            let mut p_next = p;
            let mut item: Option<SyntaxTree> = None;
            if is_type_kw(k) && tok_kind(&toks, p + 1) == crate::token::ID && tok_kind(
                &toks,
                p + 2,
            ) == 40 {
                let (p2, f) = parse_funcdef(&toks, p, &mut self.ctx);
                p_next = p2;
                item = f;
            } else if is_type_kw(k) {
                let (p2, d) = parse_declassignment(&toks, p, &mut self.ctx);
                match d {
                    Some(n) => {
                        let (p3, semi) = expect(&mut self.ctx, &toks, p2, 59, "';'");
                        if semi {
                            p_next = p3;
                            item = Some(n);
                        } else {
                            p_next = sync_stmt(&toks, p3);
                        }
                    },
                    None => {
                        p_next = sync_stmt(&toks, p2);
                    },
                }
            } else {
                push_syntax_error(
                    &mut self.ctx,
                    &toks,
                    p,
                    "a declaration or a function definition",
                );
                p_next = sync_stmt(&toks, p);
            }
            let ghost e_mid = self.ctx.errors@.len();
            match item {
                Some(n) => {
                    items.append(n);
                    proof {
                        if self.ctx.errors@.len() == e0 {
                            assert(e_start == e0 && e_mid == e0);
                            assert(tree_ok(n));
                            assert(tree_ok(items_start));
                            assert forall|i: int|
                                0 <= i < items.children@.len() implies tree_ok(
                                #[trigger] items.children@[i],
                            ) by {
                                if i < items.children@.len() - 1 {
                                    assert(items.children@[i] == items_start.children@[i]);
                                }
                            }
                            lemma_tree_ok(items);
                        }
                    }
                },
                None => (),
            }
            p = if p_next > p_before {
                p_next
            } else {
                p_before + 1
            };
        }

        // The finalization check: a `void main()` without parameters.
        let main_found = match self.ctx.table.get("main") {
            Some(sym) => {
                let is_void = match sym.symbol_type {
                    SymbolType::Void => true,
                    _ => false,
                };
                let no_params = match &sym.symbol_class {
                    SymbolClass::Function { parameters } => parameters.len() == 0,
                    _ => false,
                };
                let ok = is_void && no_params;
                proof {
                    if ok {
                        let ss = self.ctx.table.scopes_view();
                        assert(ss.last() == ss[0]);
                        lemma_find_name_found(ss[0], "main"@, 0);
                        let fj = crate::symbol_table::spec_find_name(ss[0], "main"@, 0);
                        match fj {
                            Some(j) => {
                                assert(crate::symbol_table::spec_lookup(ss, "main"@) == Some(
                                    (0int, j),
                                ));
                                assert(*sym == ss[0][j]);
                                assert(ss[0][j].name@ == "main"@);
                                assert(main_ok(self.ctx.table));
                            },
                            None => {
                                assert(crate::symbol_table::spec_lookup(ss, "main"@)
                                    == crate::symbol_table::spec_lookup(ss.drop_last(), "main"@));
                                assert(ss.drop_last().len() == 0);
                                assert(false);
                            },
                        }
                    }
                }
                ok
            },
            None => false,
        };
        proof {
            if main_found {
                assert(main_ok(self.ctx.table));
            }
        }
        proof {
            if old(self).yylexer.stream().len() == 0 && old(self).ctx.errors@.len() == 0 && old(
                self,
            ).ctx.table.num_symbols_view() == 0 {
                let ss = self.ctx.table.scopes_view();
                assert(self.ctx.table == old(self).ctx.table);
                assert(ss.drop_last() =~= Seq::<Seq<Symbol>>::empty());
                assert(total_symbols(ss.drop_last()) == 0);
                assert(ss.last() == ss[0] && ss[0].len() == 0);
                assert(crate::symbol_table::spec_find_name(ss[0], "main"@, 0) is None);
                assert(crate::symbol_table::spec_lookup(ss.drop_last(), "main"@) is None);
                assert(crate::symbol_table::spec_lookup(ss, "main"@) is None);
                assert(!main_found);
                assert(self.ctx.errors@.len() == 0);
            }
        }
        if !main_found {
            push_semantic(
                &mut self.ctx,
                String::from_str("missing function: a void main() without parameters"),
            );
        }

        // The result: the finished tree only when no diagnostic was raised.
        if self.ctx.errors.len() == 0 {
            let mut prog = mk_node(&mut self.ctx, NodeValue::Program);
            prog.append(items);
            let mut root = mk_node(&mut self.ctx, NodeValue::Root);
            root.append(prog);
            proof {
                assert(e0 == 0);
                assert(tree_ok(items));
                lemma_tree_ok(prog);
                lemma_tree_ok(root);
            }
            Ok(root)
        } else {
            let mut es: Vec<Error> = Vec::new();
            let mut i: usize = 0;
            while i < self.ctx.errors.len()
                invariant
                    i <= self.ctx.errors@.len(),
                    es@.len() == i,
                    forall|j: int| 0 <= j < i ==> es@[j] == #[trigger] self.ctx.errors@[j],
                decreases self.ctx.errors@.len() - i,
            {
                es.push(self.ctx.errors[i].clone());
                i += 1;
            }
            proof {
                assert(es@ =~= self.ctx.errors@);
            }
            Err(es)
        }
    }
}

} // verus!
