//! Abstract syntax tree of the Protorun language.
use vstd::prelude::*;

verus! {

/// A position in the source text.
#[derive(Debug, Clone, Copy, PartialEq, Eq, Structural)]
pub struct Span {
    /// Start offset.
    pub start: usize,
    /// End offset.
    pub end: usize,
    /// Line number (1-based).
    pub line: usize,
    /// Column number (1-based).
    pub column: usize,
}

/// The value of a literal pattern.
///
/// A floating point literal keeps its source text (for example `3.14`);
/// its numeric value is the nearest `f64` to that text.
#[derive(Debug, PartialEq)]
pub enum LiteralValue {
    Int(i64),
    Float(String),
    Bool(bool),
    String(String),
    Unit,
}

/// A pattern in `match`, `let`, comprehensions and `bind`.
#[derive(Debug, PartialEq)]
pub enum Pattern {
    Literal(LiteralValue, Span),
    Identifier(String, Span),
    Tuple(Vec<Pattern>, Span),
    Constructor { name: String, arguments: Vec<Pattern>, span: Span },
    Wildcard(Span),
}

/// The kind of a collection comprehension.
#[derive(Debug, Clone, Copy, PartialEq, Eq, Structural)]
pub enum ComprehensionKind {
    List,
    MapOf,
    SetOf,
}

/// One binding of a `with` expression: `alias = instance (: Type)?`.
#[derive(Debug, PartialEq)]
pub struct WithBinding {
    pub alias: String,
    pub instance: Expr,
    pub type_annotation: Option<Type>,
    pub span: Span,
}

/// Expressions.
///
/// A floating point literal keeps its source text (for example `3.14`).
#[derive(Debug, PartialEq)]
pub enum Expr {
    IntLiteral(i64, Span),
    FloatLiteral(String, Span),
    BoolLiteral(bool, Span),
    StringLiteral(String, Span),
    UnitLiteral(Span),
    ListLiteral { elements: Vec<Expr>, span: Span },
    MapLiteral { entries: Vec<(Expr, Expr)>, span: Span },
    SetLiteral { elements: Vec<Expr>, span: Span },
    /// A tuple of at least two elements.
    TupleLiteral { elements: Vec<Expr>, span: Span },
    FunctionExpr {
        parameters: Option<Vec<Parameter>>,
        effect_parameters: Option<Vec<EffectParameter>>,
        implicit_parameters: Option<Vec<Parameter>>,
        body: Box<Expr>,
        span: Span,
    },
    Identifier(String, Span),
    BinaryOp { left: Box<Expr>, operator: BinaryOperator, right: Box<Expr>, span: Span },
    UnaryOp { operator: UnaryOperator, expr: Box<Expr>, span: Span },
    FunctionCall { function: Box<Expr>, arguments: Vec<Expr>, span: Span },
    MemberAccess { object: Box<Expr>, member: String, span: Span },
    ParenExpr(Box<Expr>, Span),
    IfExpr {
        condition: Box<Expr>,
        then_branch: Box<Expr>,
        elif_branches: Vec<(Expr, Expr)>,
        else_branch: Option<Box<Expr>>,
        span: Span,
    },
    MatchExpr { scrutinee: Box<Expr>, cases: Vec<(Pattern, Option<Expr>, Expr)>, span: Span },
    CollectionComprehension {
        kind: ComprehensionKind,
        output_expr: Box<Expr>,
        input_expr: Box<Expr>,
        pattern: Pattern,
        condition: Option<Box<Expr>>,
        span: Span,
    },
    BindExpr { bindings: Vec<(Pattern, Expr)>, final_expr: Box<Expr>, span: Span },
    WithExpr { bindings: Vec<WithBinding>, body: Box<Expr>, span: Span },
    BlockExpr { items: Vec<BlockItem>, span: Span },
    Assignment { lvalue: Box<Expr>, rvalue: Box<Expr>, span: Span },
}

/// An item of a block: a declaration, a statement or an expression.
#[derive(Debug, PartialEq)]
pub enum BlockItem {
    Declaration(Decl),
    Statement(Stmt),
    Expression(Expr),
}

/// Statements.
#[derive(Debug, PartialEq)]
pub enum Stmt {
    Return { value: Option<Expr>, span: Span },
}

/// Declarations.
#[derive(Debug, PartialEq)]
pub enum Decl {
    Let { pattern: Pattern, type_annotation: Option<Type>, value: Expr, span: Span },
    Var { name: String, type_annotation: Option<Type>, value: Expr, span: Span },
    HandlerDecl(HandlerDecl),
}

/// A handler declaration: `handler EffectType for TargetType { let f = fn ... }`.
#[derive(Debug, PartialEq)]
pub struct HandlerDecl {
    pub effect_type: Type,
    pub target_type: Type,
    pub members: Vec<LetHandlerFunction>,
    pub span: Span,
}

/// A member of a handler (field or function).
#[derive(Debug, PartialEq)]
pub enum HandlerMember {
    Field(FieldDecl),
    Function(LetHandlerFunction),
}

/// A field declaration inside a handler.
#[derive(Debug, Clone, PartialEq)]
pub struct FieldDecl {
    pub is_mutable: bool,
    pub name: String,
    pub type_annotation: Type,
    pub span: Span,
}

/// A function binding inside a handler: `let name GenericParams? = FunctionExpr`.
#[derive(Debug, PartialEq)]
pub struct LetHandlerFunction {
    pub name: String,
    pub generic_params: Option<Vec<GenericParam>>,
    pub body: Expr,
    pub span: Span,
}

/// The body form of a handler function.
#[derive(Debug, PartialEq)]
pub enum HandlerFunctionBody {
    Function(Expr),
    ResumeFunction(ResumeFunctionExpr),
    NoResumeFunction(NoResumeFunctionExpr),
}

/// A handler function with `resume`.
#[derive(Debug, PartialEq)]
pub struct ResumeFunctionExpr {
    pub parameters: Vec<Parameter>,
    pub return_type: Option<Type>,
    pub body: Box<Expr>,
    pub span: Span,
}

/// A handler function with `noresume`.
#[derive(Debug, PartialEq)]
pub struct NoResumeFunctionExpr {
    pub parameters: Vec<Parameter>,
    pub return_type: Option<Type>,
    pub body: Box<Expr>,
    pub span: Span,
}

/// A generic parameter with an optional constraint.
#[derive(Debug, Clone, PartialEq)]
pub struct GenericParam {
    pub name: String,
    pub constraints: Option<Type>,
    pub span: Span,
}

/// A function parameter.
#[derive(Debug, Clone, PartialEq)]
pub struct Parameter {
    pub name: String,
    pub type_annotation: Option<Type>,
    pub span: Span,
}

/// An effect parameter.
#[derive(Debug, Clone, PartialEq)]
pub struct EffectParameter {
    pub name: String,
    pub effect_type: Type,
    pub span: Span,
}

/// Types.
#[derive(Debug, PartialEq)]
pub enum Type {
    Simple { name: String, span: Span },
    Function { parameters: Vec<Type>, return_type: Box<Type>, span: Span },
    Array { element_type: Box<Type>, span: Span },
    Tuple { element_types: Vec<Type>, span: Span },
    Generic { base_type: String, type_arguments: Vec<Type>, span: Span },
    Reference { is_mutable: bool, referenced_type: Box<Type>, span: Span },
    Owned { owned_type: Box<Type>, span: Span },
    WithEffect { base_type: Box<Type>, effect_type: Box<Type>, span: Span },
}

/// Binary operators.
#[derive(Debug, Clone, Copy, PartialEq, Eq, Structural)]
pub enum BinaryOperator {
    Add,
    Sub,
    Mul,
    Div,
    Mod,
    Eq,
    Neq,
    Lt,
    Gt,
    Lte,
    Gte,
    And,
    Or,
}

/// Unary operators.
#[derive(Debug, Clone, Copy, PartialEq, Eq, Structural)]
pub enum UnaryOperator {
    Neg,
    Not,
}

/// A variant of an enum type.
#[derive(Debug, Clone, PartialEq)]
pub struct EnumVariant {
    pub name: String,
    pub fields: Vec<Type>,
    pub span: Span,
}

/// Type declarations.
#[derive(Debug, Clone, PartialEq)]
pub enum TypeDecl {
    Record { name: String, type_parameters: Vec<GenericParam>, fields: Vec<(String, Type)>, span: Span },
    Enum { name: String, type_parameters: Vec<GenericParam>, variants: Vec<EnumVariant>, span: Span },
    Alias { name: String, type_parameters: Vec<GenericParam>, aliased_type: Type, span: Span },
}

/// A trait declaration.
#[derive(Debug, PartialEq)]
pub struct TraitDecl {
    pub name: String,
    pub type_parameters: Vec<GenericParam>,
    pub super_trait: Option<Type>,
    pub methods: Vec<Decl>,
    pub span: Span,
}

/// A trait implementation.
#[derive(Debug, PartialEq)]
pub struct ImplDecl {
    pub type_parameters: Vec<GenericParam>,
    pub target_type: Type,
    pub trait_type: Type,
    pub methods: Vec<Decl>,
    pub span: Span,
}

/// Export declarations.
#[derive(Debug, Clone, PartialEq)]
pub enum ExportDecl {
    Single { name: String, span: Span },
    Group { names: Vec<String>, span: Span },
}

/// An item of a selective import.
#[derive(Debug, Clone, PartialEq)]
pub struct ImportItem {
    pub name: String,
    pub alias: Option<String>,
    pub span: Span,
}

/// Import declarations.
#[derive(Debug, Clone, PartialEq)]
pub enum ImportDecl {
    Selective { module_name: String, imports: Vec<ImportItem>, span: Span },
    Module { module_name: String, alias: String, span: Span },
}

/// A module definition.
#[derive(Debug, PartialEq)]
pub struct Module {
    pub path: String,
    pub exports: Vec<ExportDecl>,
    pub imports: Vec<ImportDecl>,
    pub declarations: Vec<Decl>,
    pub type_declarations: Vec<TypeDecl>,
    pub trait_declarations: Vec<TraitDecl>,
    pub impl_declarations: Vec<ImplDecl>,
    pub expressions: Vec<Expr>,
    pub span: Span,
}

/// A whole program.
#[derive(Debug, PartialEq)]
pub struct Program {
    pub modules: Vec<Module>,
    pub declarations: Vec<Decl>,
    pub type_declarations: Vec<TypeDecl>,
    pub trait_declarations: Vec<TraitDecl>,
    pub impl_declarations: Vec<ImplDecl>,
    pub expressions: Vec<Expr>,
}

/// The mathematical value of a type: names as character sequences.
pub enum TypeModel {
    Simple { name: Seq<char>, span: Span },
    Function { parameters: Seq<TypeModel>, return_type: Box<TypeModel>, span: Span },
    Array { element_type: Box<TypeModel>, span: Span },
    Tuple { element_types: Seq<TypeModel>, span: Span },
    Generic { base_type: Seq<char>, type_arguments: Seq<TypeModel>, span: Span },
    Reference { is_mutable: bool, referenced_type: Box<TypeModel>, span: Span },
    Owned { owned_type: Box<TypeModel>, span: Span },
    WithEffect { base_type: Box<TypeModel>, effect_type: Box<TypeModel>, span: Span },
}

pub open spec fn dummy_type_model() -> TypeModel {
    TypeModel::Simple { name: Seq::empty(), span: Span { start: 0, end: 0, line: 0, column: 0 } }
}

impl Type {
    /// The model of a type.
    pub open spec fn model(self) -> TypeModel
        decreases self,
    {
        match self {
            Type::Simple { name, span } => TypeModel::Simple { name: name@, span },
            Type::Function { parameters, return_type, span } => TypeModel::Function {
                parameters: Seq::new(
                    parameters@.len(),
                    |i: int|
                        if 0 <= i < parameters@.len() {
                            parameters@[i].model()
                        } else {
                            dummy_type_model()
                        },
                ),
                return_type: Box::new(return_type.model()),
                span,
            },
            Type::Array { element_type, span } => TypeModel::Array {
                element_type: Box::new(element_type.model()),
                span,
            },
            Type::Tuple { element_types, span } => TypeModel::Tuple {
                element_types: Seq::new(
                    element_types@.len(),
                    |i: int|
                        if 0 <= i < element_types@.len() {
                            element_types@[i].model()
                        } else {
                            dummy_type_model()
                        },
                ),
                span,
            },
            Type::Generic { base_type, type_arguments, span } => TypeModel::Generic {
                base_type: base_type@,
                type_arguments: Seq::new(
                    type_arguments@.len(),
                    |i: int|
                        if 0 <= i < type_arguments@.len() {
                            type_arguments@[i].model()
                        } else {
                            dummy_type_model()
                        },
                ),
                span,
            },
            Type::Reference { is_mutable, referenced_type, span } => TypeModel::Reference {
                is_mutable,
                referenced_type: Box::new(referenced_type.model()),
                span,
            },
            Type::Owned { owned_type, span } => TypeModel::Owned {
                owned_type: Box::new(owned_type.model()),
                span,
            },
            Type::WithEffect { base_type, effect_type, span } => TypeModel::WithEffect {
                base_type: Box::new(base_type.model()),
                effect_type: Box::new(effect_type.model()),
                span,
            },
        }
    }
}

/// The models of a sequence of types.
pub open spec fn types_model(ts: Seq<Type>) -> Seq<TypeModel> {
    Seq::new(ts.len(), |i: int| ts[i].model())
}

/// Copies a sequence of types, keeping each model.
fn clone_types(ts: &Vec<Type>) -> (r: Vec<Type>)
    ensures
        r@.len() == ts@.len(),
        forall|i: int| 0 <= i < ts@.len() ==> #[trigger] r@[i].model() == ts@[i].model(),
    decreases ts@, 0int,
{
    let mut out: Vec<Type> = Vec::new();
    let mut i: usize = 0;
    while i < ts.len()
        invariant
            i <= ts@.len(),
            out@.len() == i,
            forall|j: int| 0 <= j < i ==> #[trigger] out@[j].model() == ts@[j].model(),
        decreases ts@.len() - i,
    {
        proof {
            assert(decreases_to!(ts@ => ts@[i as int]));
        }
        let c = ts[i].deep_clone();
        out.push(c);
        i = i + 1;
    }
    out
}

impl Type {
    /// Copies a type, keeping its model.
    pub fn deep_clone(&self) -> (r: Type)
        ensures
            r.model() == self.model(),
        decreases *self, 1int,
    {
        match self {
            Type::Simple { name, span } => {
                let r = Type::Simple { name: name.clone(), span: *span };
                assert(r.model() == self.model());
                r
            },
            Type::Function { parameters, return_type, span } => {
                proof {
                    assert(decreases_to!(*self => *parameters));
                }
                let ps = clone_types(parameters);
                let rt = return_type.deep_clone();
                let r = Type::Function { parameters: ps, return_type: Box::new(rt), span: *span };
                assert forall|k: int| 0 <= k < parameters@.len() implies r.model()->Function_parameters[k] == self.model()->Function_parameters[k] by {
                    assert(ps@[k].model() == parameters@[k].model());
                }
                assert(r.model()->Function_parameters =~= self.model()->Function_parameters);
                r
            },
            Type::Array { element_type, span } => {
                let r = Type::Array { element_type: Box::new(element_type.deep_clone()), span: *span };
                r
            },
            Type::Tuple { element_types, span } => {
                let es = clone_types(element_types);
                let r = Type::Tuple { element_types: es, span: *span };
                assert forall|k: int| 0 <= k < element_types@.len() implies r.model()->Tuple_element_types[k] == self.model()->Tuple_element_types[k] by {
                    assert(es@[k].model() == element_types@[k].model());
                }
                assert(r.model()->Tuple_element_types =~= self.model()->Tuple_element_types);
                r
            },
            Type::Generic { base_type, type_arguments, span } => {
                let args = clone_types(type_arguments);
                let r = Type::Generic { base_type: base_type.clone(), type_arguments: args, span: *span };
                assert forall|k: int| 0 <= k < type_arguments@.len() implies r.model()->Generic_type_arguments[k] == self.model()->Generic_type_arguments[k] by {
                    assert(args@[k].model() == type_arguments@[k].model());
                }
                assert(r.model()->Generic_type_arguments =~= self.model()->Generic_type_arguments);
                r
            },
            Type::Reference { is_mutable, referenced_type, span } => {
                Type::Reference {
                    is_mutable: *is_mutable,
                    referenced_type: Box::new(referenced_type.deep_clone()),
                    span: *span,
                }
            },
            Type::Owned { owned_type, span } => {
                Type::Owned { owned_type: Box::new(owned_type.deep_clone()), span: *span }
            },
            Type::WithEffect { base_type, effect_type, span } => {
                Type::WithEffect {
                    base_type: Box::new(base_type.deep_clone()),
                    effect_type: Box::new(effect_type.deep_clone()),
                    span: *span,
                }
            },
        }
    }
}

impl Clone for Type {
    fn clone(&self) -> (r: Type)
        ensures
            r.model() == self.model(),
    {
        self.deep_clone()
    }
}

} // verus!
