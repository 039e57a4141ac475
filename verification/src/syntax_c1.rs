use crate::symbol_table::SymbolType;
use crate::syntax_tree::SyntaxTree;
use crate::text::i32_to_string;
use crate::text::spec_int_str;
use vstd::prelude::*;
use vstd::string::StringExecFns;

verus! {

/// The value carried by a node of a C1 syntax tree.
///
/// A float literal keeps the literal's source text: the front end never
/// computes with the value, it only records and reprints it.
#[derive(Debug)]
pub enum NodeValue {
    /// Virtual root node for the fully-parsed tree.
    Root,
    /// Literals.
    Integer(i32),
    Float(String),
    Boolean(bool),
    String(String),
    /// The program under the root.
    Program,
    /// A declaration of the named variable.
    VariableDeclaration(String),
    /// A reference to the named variable, with its resolved type.
    VariableRef(String, SymbolType),
    /// An implicit conversion into the carried type.
    Cast(SymbolType),
    /// A parameter with a name.
    Parameter(String),
    /// A function declaration with a name.
    FunctionDeclaration(String),
    /// A function call with a name and the function's return type.
    FunctionCall(String, SymbolType),
    /// Any kind of sequence, e.g. multiple statements.
    Sequence,
    If,
    For,
    DoWhile,
    While,
    Print,
    /// An assignment with the type of the assigned value.
    Assign(SymbolType),
    /// A return statement with the type of the returned value.
    Return(SymbolType),
    /// Arithmetic operators with the type of the calculated value.
    Plus(SymbolType),
    Minus(SymbolType),
    Times(SymbolType),
    Divide(SymbolType),
    UMinus(SymbolType),
    LogOr,
    LogAnd,
    Eq,
    Neq,
    Leq,
    Geq,
    Lst,
    Grt,
}

/// The type of a node value: literals carry their literal type, comparisons
/// and boolean operators are `Boolean`, typed variants return their type,
/// and everything else is `Void`.
pub open spec fn spec_symbol_type(v: NodeValue) -> SymbolType {
    match v {
        NodeValue::Integer(_) => SymbolType::Integer,
        NodeValue::Float(_) => SymbolType::Float,
        NodeValue::Boolean(_) => SymbolType::Boolean,
        NodeValue::String(_) => SymbolType::String,
        NodeValue::Return(t) => t,
        NodeValue::VariableRef(_, t) => t,
        NodeValue::FunctionCall(_, t) => t,
        NodeValue::Cast(t) => t,
        NodeValue::Assign(t) => t,
        NodeValue::Plus(t) => t,
        NodeValue::Minus(t) => t,
        NodeValue::Times(t) => t,
        NodeValue::Divide(t) => t,
        NodeValue::UMinus(t) => t,
        NodeValue::LogOr => SymbolType::Boolean,
        NodeValue::LogAnd => SymbolType::Boolean,
        NodeValue::Eq => SymbolType::Boolean,
        NodeValue::Neq => SymbolType::Boolean,
        NodeValue::Leq => SymbolType::Boolean,
        NodeValue::Geq => SymbolType::Boolean,
        NodeValue::Lst => SymbolType::Boolean,
        NodeValue::Grt => SymbolType::Boolean,
        _ => SymbolType::Void,
    }
}

impl NodeValue {
    /// Get the `SymbolType` of this node value.
    pub fn symbol_type(&self) -> (r: SymbolType)
        ensures
            r == spec_symbol_type(*self),
    {
        match self {
            NodeValue::Integer(_) => SymbolType::Integer,
            NodeValue::Float(_) => SymbolType::Float,
            NodeValue::Boolean(_) => SymbolType::Boolean,
            NodeValue::String(_) => SymbolType::String,
            NodeValue::Return(t) => *t,
            NodeValue::VariableRef(_, t) => *t,
            NodeValue::FunctionCall(_, t) => *t,
            NodeValue::Cast(t) => *t,
            NodeValue::Assign(t) => *t,
            NodeValue::Plus(t) => *t,
            NodeValue::Minus(t) => *t,
            NodeValue::Times(t) => *t,
            NodeValue::Divide(t) => *t,
            NodeValue::UMinus(t) => *t,
            NodeValue::LogOr => SymbolType::Boolean,
            NodeValue::LogAnd => SymbolType::Boolean,
            NodeValue::Eq => SymbolType::Boolean,
            NodeValue::Neq => SymbolType::Boolean,
            NodeValue::Leq => SymbolType::Boolean,
            NodeValue::Geq => SymbolType::Boolean,
            NodeValue::Lst => SymbolType::Boolean,
            NodeValue::Grt => SymbolType::Boolean,
            _ => SymbolType::Void,
        }
    }

    /// Get the symbol name carried by this node, or `None` if there is none.
    pub fn symbol_name(&self) -> (r: Option<String>)
        ensures
            match self {
                NodeValue::VariableDeclaration(n) => r matches Some(s) && s@ == n@,
                NodeValue::VariableRef(n, _) => r matches Some(s) && s@ == n@,
                NodeValue::Parameter(n) => r matches Some(s) && s@ == n@,
                NodeValue::FunctionDeclaration(n) => r matches Some(s) && s@ == n@,
                NodeValue::FunctionCall(n, _) => r matches Some(s) && s@ == n@,
                _ => r is None,
            },
    {
        match self {
            NodeValue::VariableDeclaration(name) => Some(name.clone()),
            NodeValue::VariableRef(name, _) => Some(name.clone()),
            NodeValue::Parameter(name) => Some(name.clone()),
            NodeValue::FunctionDeclaration(name) => Some(name.clone()),
            NodeValue::FunctionCall(name, _) => Some(name.clone()),
            _ => None,
        }
    }
}

/// The printed name of a symbol type.
pub open spec fn spec_type_name(t: SymbolType) -> Seq<char> {
    match t {
        SymbolType::Void => "Void"@,
        SymbolType::Boolean => "Boolean"@,
        SymbolType::Integer => "Integer"@,
        SymbolType::Float => "Float"@,
        SymbolType::String => "String"@,
    }
}

/// The one-line rendering of a node value in the tree dump.
pub open spec fn spec_display(v: NodeValue) -> Seq<char> {
    match v {
        NodeValue::Root => "Root"@,
        NodeValue::Integer(x) => "Integer Literal: "@ + spec_int_str(x as int),
        NodeValue::Float(s) => "Float Literal: "@ + s@,
        NodeValue::Boolean(b) => "Boolean Literal: "@ + if b {
            "true"@
        } else {
            "false"@
        },
        NodeValue::String(s) => "String Literal: "@ + s@,
        NodeValue::Program => "Program"@,
        NodeValue::VariableDeclaration(n) => "VariableDeclaration(\""@ + n@ + "\")"@,
        NodeValue::VariableRef(n, t) => "VariableRef(\""@ + n@ + "\", "@ + spec_type_name(t)
            + ")"@,
        NodeValue::Cast(t) => "Cast("@ + spec_type_name(t) + ")"@,
        NodeValue::Parameter(n) => "Parameter(\""@ + n@ + "\")"@,
        NodeValue::FunctionDeclaration(n) => "FunctionDeclaration: "@ + n@,
        NodeValue::FunctionCall(n, _) => "FunctionCall: "@ + n@,
        NodeValue::Sequence => "Sequence"@,
        NodeValue::If => "If"@,
        NodeValue::For => "For"@,
        NodeValue::DoWhile => "DoWhile"@,
        NodeValue::While => "While"@,
        NodeValue::Print => "Print"@,
        NodeValue::Assign(t) => "Assign("@ + spec_type_name(t) + ")"@,
        NodeValue::Return(t) => "Return("@ + spec_type_name(t) + ")"@,
        NodeValue::Plus(t) => "Plus("@ + spec_type_name(t) + ")"@,
        NodeValue::Minus(t) => "Minus("@ + spec_type_name(t) + ")"@,
        NodeValue::Times(t) => "Times("@ + spec_type_name(t) + ")"@,
        NodeValue::Divide(t) => "Divide("@ + spec_type_name(t) + ")"@,
        NodeValue::UMinus(t) => "UMinus("@ + spec_type_name(t) + ")"@,
        NodeValue::LogOr => "LogOr"@,
        NodeValue::LogAnd => "LogAnd"@,
        NodeValue::Eq => "Eq"@,
        NodeValue::Neq => "Neq"@,
        NodeValue::Leq => "Leq"@,
        NodeValue::Geq => "Geq"@,
        NodeValue::Lst => "Lst"@,
        NodeValue::Grt => "Grt"@,
    }
}

/// The printed name of a symbol type, as a string slice.
pub fn type_name_str(t: SymbolType) -> (r: &'static str)
    ensures
        r@ == spec_type_name(t),
{
    match t {
        SymbolType::Void => "Void",
        SymbolType::Boolean => "Boolean",
        SymbolType::Integer => "Integer",
        SymbolType::Float => "Float",
        SymbolType::String => "String",
    }
}

/// Appends the one-line rendering of a node value to `out`.
pub fn display_into(v: &NodeValue, out: &mut String)
    ensures
        final(out)@ == old(out)@ + spec_display(*v),
{
    match v {
        NodeValue::Root => out.append("Root"),
        NodeValue::Integer(x) => {
            out.append("Integer Literal: ");
            let d = i32_to_string(*x);
            out.append(d.as_str());
        },
        NodeValue::Float(s) => {
            out.append("Float Literal: ");
            out.append(s.as_str());
        },
        NodeValue::Boolean(b) => {
            out.append("Boolean Literal: ");
            if *b {
                out.append("true");
            } else {
                out.append("false");
            }
        },
        NodeValue::String(s) => {
            out.append("String Literal: ");
            out.append(s.as_str());
        },
        NodeValue::Program => out.append("Program"),
        NodeValue::VariableDeclaration(n) => {
            out.append("VariableDeclaration(\"");
            out.append(n.as_str());
            out.append("\")");
        },
        NodeValue::VariableRef(n, t) => {
            out.append("VariableRef(\"");
            out.append(n.as_str());
            out.append("\", ");
            out.append(type_name_str(*t));
            out.append(")");
        },
        NodeValue::Cast(t) => {
            out.append("Cast(");
            out.append(type_name_str(*t));
            out.append(")");
        },
        NodeValue::Parameter(n) => {
            out.append("Parameter(\"");
            out.append(n.as_str());
            out.append("\")");
        },
        NodeValue::FunctionDeclaration(n) => {
            out.append("FunctionDeclaration: ");
            out.append(n.as_str());
        },
        NodeValue::FunctionCall(n, _) => {
            out.append("FunctionCall: ");
            out.append(n.as_str());
        },
        NodeValue::Sequence => out.append("Sequence"),
        NodeValue::If => out.append("If"),
        NodeValue::For => out.append("For"),
        NodeValue::DoWhile => out.append("DoWhile"),
        NodeValue::While => out.append("While"),
        NodeValue::Print => out.append("Print"),
        NodeValue::Assign(t) => {
            out.append("Assign(");
            out.append(type_name_str(*t));
            out.append(")");
        },
        NodeValue::Return(t) => {
            out.append("Return(");
            out.append(type_name_str(*t));
            out.append(")");
        },
        NodeValue::Plus(t) => {
            out.append("Plus(");
            out.append(type_name_str(*t));
            out.append(")");
        },
        NodeValue::Minus(t) => {
            out.append("Minus(");
            out.append(type_name_str(*t));
            out.append(")");
        },
        NodeValue::Times(t) => {
            out.append("Times(");
            out.append(type_name_str(*t));
            out.append(")");
        },
        NodeValue::Divide(t) => {
            out.append("Divide(");
            out.append(type_name_str(*t));
            out.append(")");
        },
        NodeValue::UMinus(t) => {
            out.append("UMinus(");
            out.append(type_name_str(*t));
            out.append(")");
        },
        NodeValue::LogOr => out.append("LogOr"),
        NodeValue::LogAnd => out.append("LogAnd"),
        NodeValue::Eq => out.append("Eq"),
        NodeValue::Neq => out.append("Neq"),
        NodeValue::Leq => out.append("Leq"),
        NodeValue::Geq => out.append("Geq"),
        NodeValue::Lst => out.append("Lst"),
        NodeValue::Grt => out.append("Grt"),
    }
}

// Leaf constructors for every kind of node.
/// A childless node holding an integer literal.
pub fn integer_node(value: i32) -> (r: SyntaxTree)
    ensures
        r.value == NodeValue::Integer(value),
        r.children@.len() == 0,
{
    SyntaxTree::new(NodeValue::Integer(value))
}

/// A childless node holding a float literal's source text.
pub fn float_node(value: String) -> (r: SyntaxTree)
    ensures
        r.value == NodeValue::Float(value),
        r.children@.len() == 0,
{
    SyntaxTree::new(NodeValue::Float(value))
}

/// A childless node holding a boolean literal.
pub fn boolean_node(value: bool) -> (r: SyntaxTree)
    ensures
        r.value == NodeValue::Boolean(value),
        r.children@.len() == 0,
{
    SyntaxTree::new(NodeValue::Boolean(value))
}

/// A childless node holding a string literal.
pub fn string_node(value: String) -> (r: SyntaxTree)
    ensures
        r.value == NodeValue::String(value),
        r.children@.len() == 0,
{
    SyntaxTree::new(NodeValue::String(value))
}

/// A childless `Program` node.
pub fn program_node() -> (r: SyntaxTree)
    ensures
        r.value == NodeValue::Program,
        r.children@.len() == 0,
{
    SyntaxTree::new(NodeValue::Program)
}

/// A childless parameter node.
pub fn parameter_node(name: String) -> (r: SyntaxTree)
    ensures
        r.value == NodeValue::Parameter(name),
        r.children@.len() == 0,
{
    SyntaxTree::new(NodeValue::Parameter(name))
}

/// A childless variable declaration node.
pub fn variable_node(name: String) -> (r: SyntaxTree)
    ensures
        r.value == NodeValue::VariableDeclaration(name),
        r.children@.len() == 0,
{
    SyntaxTree::new(NodeValue::VariableDeclaration(name))
}

/// A childless variable reference node.
pub fn variable_ref_node(name: String, s_type: SymbolType) -> (r: SyntaxTree)
    ensures
        r.value == NodeValue::VariableRef(name, s_type),
        r.children@.len() == 0,
{
    SyntaxTree::new(NodeValue::VariableRef(name, s_type))
}

/// A childless function declaration node.
pub fn function_node(name: String) -> (r: SyntaxTree)
    ensures
        r.value == NodeValue::FunctionDeclaration(name),
        r.children@.len() == 0,
{
    SyntaxTree::new(NodeValue::FunctionDeclaration(name))
}

/// A childless function call node.
pub fn function_call_node(name: String, s_type: SymbolType) -> (r: SyntaxTree)
    ensures
        r.value == NodeValue::FunctionCall(name, s_type),
        r.children@.len() == 0,
{
    SyntaxTree::new(NodeValue::FunctionCall(name, s_type))
}

/// A childless `Sequence` node.
pub fn sequence_node() -> (r: SyntaxTree)
    ensures
        r.value == NodeValue::Sequence,
        r.children@.len() == 0,
{
    SyntaxTree::new(NodeValue::Sequence)
}

/// A childless `If` node.
pub fn if_node() -> (r: SyntaxTree)
    ensures
        r.value == NodeValue::If,
        r.children@.len() == 0,
{
    SyntaxTree::new(NodeValue::If)
}

/// A childless `For` node.
pub fn for_node() -> (r: SyntaxTree)
    ensures
        r.value == NodeValue::For,
        r.children@.len() == 0,
{
    SyntaxTree::new(NodeValue::For)
}

/// A childless `DoWhile` node.
pub fn do_while_node() -> (r: SyntaxTree)
    ensures
        r.value == NodeValue::DoWhile,
        r.children@.len() == 0,
{
    SyntaxTree::new(NodeValue::DoWhile)
}

/// A childless `While` node.
pub fn while_node() -> (r: SyntaxTree)
    ensures
        r.value == NodeValue::While,
        r.children@.len() == 0,
{
    SyntaxTree::new(NodeValue::While)
}

/// A childless `Print` node.
pub fn print_node() -> (r: SyntaxTree)
    ensures
        r.value == NodeValue::Print,
        r.children@.len() == 0,
{
    SyntaxTree::new(NodeValue::Print)
}

/// A childless assignment node with the assigned value's type.
pub fn assign_node(symbol_type: SymbolType) -> (r: SyntaxTree)
    ensures
        r.value == NodeValue::Assign(symbol_type),
        r.children@.len() == 0,
{
    SyntaxTree::new(NodeValue::Assign(symbol_type))
}

/// A childless return node with the returned value's type.
pub fn return_node(symbol_type: SymbolType) -> (r: SyntaxTree)
    ensures
        r.value == NodeValue::Return(symbol_type),
        r.children@.len() == 0,
{
    SyntaxTree::new(NodeValue::Return(symbol_type))
}

/// A childless cast node.
pub fn cast_node(symbol_type: SymbolType) -> (r: SyntaxTree)
    ensures
        r.value == NodeValue::Cast(symbol_type),
        r.children@.len() == 0,
{
    SyntaxTree::new(NodeValue::Cast(symbol_type))
}

/// A childless addition node.
pub fn plus_node(symbol_type: SymbolType) -> (r: SyntaxTree)
    ensures
        r.value == NodeValue::Plus(symbol_type),
        r.children@.len() == 0,
{
    SyntaxTree::new(NodeValue::Plus(symbol_type))
}

/// A childless subtraction node.
pub fn minus_node(symbol_type: SymbolType) -> (r: SyntaxTree)
    ensures
        r.value == NodeValue::Minus(symbol_type),
        r.children@.len() == 0,
{
    SyntaxTree::new(NodeValue::Minus(symbol_type))
}

/// A childless multiplication node.
pub fn times_node(symbol_type: SymbolType) -> (r: SyntaxTree)
    ensures
        r.value == NodeValue::Times(symbol_type),
        r.children@.len() == 0,
{
    SyntaxTree::new(NodeValue::Times(symbol_type))
}

/// A childless division node.
pub fn divide_node(symbol_type: SymbolType) -> (r: SyntaxTree)
    ensures
        r.value == NodeValue::Divide(symbol_type),
        r.children@.len() == 0,
{
    SyntaxTree::new(NodeValue::Divide(symbol_type))
}

/// A childless unary minus node.
pub fn u_minus_node(symbol_type: SymbolType) -> (r: SyntaxTree)
    ensures
        r.value == NodeValue::UMinus(symbol_type),
        r.children@.len() == 0,
{
    SyntaxTree::new(NodeValue::UMinus(symbol_type))
}

/// A childless logical-or node.
pub fn log_or_node() -> (r: SyntaxTree)
    ensures
        r.value == NodeValue::LogOr,
        r.children@.len() == 0,
{
    SyntaxTree::new(NodeValue::LogOr)
}

/// A childless logical-and node.
pub fn log_and_node() -> (r: SyntaxTree)
    ensures
        r.value == NodeValue::LogAnd,
        r.children@.len() == 0,
{
    SyntaxTree::new(NodeValue::LogAnd)
}

/// A childless equality node.
pub fn eq_node() -> (r: SyntaxTree)
    ensures
        r.value == NodeValue::Eq,
        r.children@.len() == 0,
{
    SyntaxTree::new(NodeValue::Eq)
}

/// A childless inequality node.
pub fn neq_node() -> (r: SyntaxTree)
    ensures
        r.value == NodeValue::Neq,
        r.children@.len() == 0,
{
    SyntaxTree::new(NodeValue::Neq)
}

/// A childless less-or-equal node.
pub fn leq_node() -> (r: SyntaxTree)
    ensures
        r.value == NodeValue::Leq,
        r.children@.len() == 0,
{
    SyntaxTree::new(NodeValue::Leq)
}

/// A childless greater-or-equal node.
pub fn geq_node() -> (r: SyntaxTree)
    ensures
        r.value == NodeValue::Geq,
        r.children@.len() == 0,
{
    SyntaxTree::new(NodeValue::Geq)
}

/// A childless less-than node.
pub fn lst_node() -> (r: SyntaxTree)
    ensures
        r.value == NodeValue::Lst,
        r.children@.len() == 0,
{
    SyntaxTree::new(NodeValue::Lst)
}

/// A childless greater-than node.
pub fn grt_node() -> (r: SyntaxTree)
    ensures
        r.value == NodeValue::Grt,
        r.children@.len() == 0,
{
    SyntaxTree::new(NodeValue::Grt)
}

} // verus!
