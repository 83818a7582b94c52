use vstd::prelude::*;
use crate::span::AstPair;
use crate::floats::FloatBits;

verus! {

/// The name of a binding, a function or a stdlib entry.
#[derive(Debug)]
pub struct Identifier(pub String);

impl Identifier {
    pub fn new(name: String) -> (r: Identifier)
        ensures
            r.0 == name,
    {
        Identifier(name)
    }

    /// Two identifiers name the same thing exactly when their text agrees.
    pub fn name_eq(&self, other: &Identifier) -> (r: bool)
        ensures
            r == id_eq(*self, *other),
    {
        self.0 == other.0
    }
}

impl Clone for Identifier {
    fn clone(&self) -> (r: Self)
        ensures
            r == *self,
    {
        Identifier(self.0.clone())
    }
}

pub open spec fn id_eq(a: Identifier, b: Identifier) -> bool {
    a.0@ == b.0@
}

/// The runtime type tags of the value model. List types have no tag of
/// their own: a list's type is itself a list of tags.
#[derive(Clone, Copy, PartialEq, Eq, Structural, Debug)]
pub enum ValueType {
    Unit,
    Integer,
    Float,
    Char,
    Boolean,
    Function,
    Any,
    Type,
}

#[derive(Clone, Copy, PartialEq, Eq, Structural, Debug)]
pub enum UnaryOperator {
    Plus,
    Minus,
    Not,
    Spread,
}

#[derive(Clone, Copy, PartialEq, Eq, Structural, Debug)]
pub enum BinaryOperator {
    Add,
    Subtract,
    Multiply,
    Divide,
    Exponent,
    Remainder,
    Accessor,
    Equals,
    NotEquals,
    Greater,
    GreaterOrEquals,
    Less,
    LessOrEquals,
    And,
    Or,
}

/// An ordered run of statements; the body of a program, a function or a
/// match clause.
#[derive(Debug)]
pub struct Block {
    pub statements: Vec<AstPair<Statement>>,
}

#[derive(Debug)]
pub enum Statement {
    Return(Option<AstPair<Expression>>),
    Assignment { assignee: AstPair<Assignee>, expression: AstPair<Expression> },
    Expression(AstPair<Expression>),
}

#[derive(Debug)]
pub enum Expression {
    Operand(Box<AstPair<Operand>>),
    Unary {
        operator: Box<AstPair<UnaryOperator>>,
        operand: Box<AstPair<Expression>>,
    },
    Binary {
        left_operand: Box<AstPair<Expression>>,
        operator: Box<AstPair<BinaryOperator>>,
        right_operand: Box<AstPair<Expression>>,
    },
    MatchExpression {
        condition: Box<AstPair<Expression>>,
        match_clauses: Vec<AstPair<MatchClause>>,
    },
}

#[derive(Debug)]
pub struct FunctionCall {
    pub identifier: AstPair<Identifier>,
    pub arguments: Vec<AstPair<Expression>>,
}

#[derive(Debug)]
pub struct FunctionInit {
    pub parameters: Vec<AstPair<Assignee>>,
    pub block: AstPair<Block>,
}

#[derive(Debug)]
pub enum Operand {
    Hole,
    Integer(i128),
    Float(FloatBits),
    Boolean(bool),
    String(String),
    Identifier(AstPair<Identifier>),
    ValueType(ValueType),
    ListInit { items: Vec<AstPair<Expression>> },
    FunctionInit(FunctionInit),
    FunctionCall(FunctionCall),
    StructDefinition { fields: Vec<AstPair<Identifier>> },
    EnumDefinition { values: Vec<AstPair<Identifier>> },
}

/// One arm of a `match` expression: a pattern and the block to run when
/// the pattern matches.
#[derive(Debug)]
pub struct MatchClause {
    pub pattern: AstPair<PatternItem>,
    pub block: AstPair<Block>,
}

/// A pattern of a `match` clause: a hole, a literal, a binding identifier
/// (possibly a spread binding), or a nested list of patterns.
#[derive(Debug)]
pub enum PatternItem {
    Hole,
    Integer(i128),
    Float(FloatBits),
    Boolean(bool),
    String(String),
    Identifier { identifier: AstPair<Identifier>, spread: bool },
    PatternList(Vec<AstPair<PatternItem>>),
}

/// The target of an assignment.
#[derive(Debug)]
pub enum Assignee {
    Hole,
    Identifier(AstPair<Identifier>),
    DestructureList(Vec<AstPair<DestructureItem>>),
}

/// An element of a list-destructuring assignment target.
#[derive(Debug)]
pub enum DestructureItem {
    Hole,
    Identifier { identifier: AstPair<Identifier>, spread: bool },
    List(Vec<AstPair<DestructureItem>>),
}


/// Statements agree apart from their spans.
pub open spec fn stmt_eq(a: Statement, b: Statement) -> bool
    decreases a,
{
    match (a, b) {
        (Statement::Return(x), Statement::Return(y)) => match (x, y) {
            (Some(ex), Some(ey)) => expr_eq(ex.1, ey.1),
            (None, None) => true,
            _ => false,
        },
        (
            Statement::Assignment { assignee: aa, expression: ae },
            Statement::Assignment { assignee: ba, expression: be },
        ) => assignee_eq(aa.1, ba.1) && expr_eq(ae.1, be.1),
        (Statement::Expression(x), Statement::Expression(y)) => expr_eq(x.1, y.1),
        _ => false,
    }
}

/// Blocks agree apart from their spans.
pub open spec fn block_eq(a: Block, b: Block) -> bool
    decreases a,
{
    &&& a.statements@.len() == b.statements@.len()
    &&& forall|i: int|
        0 <= i < a.statements@.len() ==> stmt_eq(
            #[trigger] a.statements@[i].1,
            b.statements@[i].1,
        )
}

/// Expressions agree apart from their spans.
pub open spec fn expr_eq(a: Expression, b: Expression) -> bool
    decreases a,
{
    match (a, b) {
        (Expression::Operand(x), Expression::Operand(y)) => operand_eq((*x).1, (*y).1),
        (
            Expression::Unary { operator: ao, operand: ax },
            Expression::Unary { operator: bo, operand: bx },
        ) => (*ao).1 == (*bo).1 && expr_eq((*ax).1, (*bx).1),
        (
            Expression::Binary { left_operand: al, operator: ao, right_operand: ar },
            Expression::Binary { left_operand: bl, operator: bo, right_operand: br },
        ) => (*ao).1 == (*bo).1 && expr_eq((*al).1, (*bl).1) && expr_eq((*ar).1, (*br).1),
        (
            Expression::MatchExpression { condition: ac, match_clauses: am },
            Expression::MatchExpression { condition: bc, match_clauses: bm },
        ) => {
            &&& expr_eq((*ac).1, (*bc).1)
            &&& am@.len() == bm@.len()
            &&& forall|i: int|
                0 <= i < am@.len() ==> clause_eq(#[trigger] am@[i].1, bm@[i].1)
        },
        _ => false,
    }
}

/// Operands agree apart from their spans.
pub open spec fn operand_eq(a: Operand, b: Operand) -> bool
    decreases a,
{
    match (a, b) {
        (Operand::Hole, Operand::Hole) => true,
        (Operand::Integer(x), Operand::Integer(y)) => x == y,
        (Operand::Float(x), Operand::Float(y)) => x == y,
        (Operand::Boolean(x), Operand::Boolean(y)) => x == y,
        (Operand::String(x), Operand::String(y)) => x@ == y@,
        (Operand::Identifier(x), Operand::Identifier(y)) => id_eq(x.1, y.1),
        (Operand::ValueType(x), Operand::ValueType(y)) => x == y,
        (Operand::ListInit { items: x }, Operand::ListInit { items: y }) => {
            &&& x@.len() == y@.len()
            &&& forall|i: int| 0 <= i < x@.len() ==> expr_eq(#[trigger] x@[i].1, y@[i].1)
        },
        (Operand::FunctionInit(x), Operand::FunctionInit(y)) => fn_init_eq(x, y),
        (Operand::FunctionCall(x), Operand::FunctionCall(y)) => fn_call_eq(x, y),
        (Operand::StructDefinition { fields: x }, Operand::StructDefinition { fields: y }) => {
            &&& x@.len() == y@.len()
            &&& forall|i: int| 0 <= i < x@.len() ==> id_eq(#[trigger] x@[i].1, y@[i].1)
        },
        (Operand::EnumDefinition { values: x }, Operand::EnumDefinition { values: y }) => {
            &&& x@.len() == y@.len()
            &&& forall|i: int| 0 <= i < x@.len() ==> id_eq(#[trigger] x@[i].1, y@[i].1)
        },
        _ => false,
    }
}

/// Function calls agree apart from their spans.
pub open spec fn fn_call_eq(a: FunctionCall, b: FunctionCall) -> bool
    decreases a,
{
    &&& id_eq(a.identifier.1, b.identifier.1)
    &&& a.arguments@.len() == b.arguments@.len()
    &&& forall|i: int|
        0 <= i < a.arguments@.len() ==> expr_eq(#[trigger] a.arguments@[i].1, b.arguments@[i].1)
}

/// Function literals agree apart from their spans.
pub open spec fn fn_init_eq(a: FunctionInit, b: FunctionInit) -> bool
    decreases a,
{
    &&& a.parameters@.len() == b.parameters@.len()
    &&& forall|i: int|
        0 <= i < a.parameters@.len() ==> assignee_eq(
            #[trigger] a.parameters@[i].1,
            b.parameters@[i].1,
        )
    &&& block_eq(a.block.1, b.block.1)
}

/// Match clauses agree apart from their spans.
pub open spec fn clause_eq(a: MatchClause, b: MatchClause) -> bool
    decreases a,
{
    pattern_item_eq(a.pattern.1, b.pattern.1) && block_eq(a.block.1, b.block.1)
}

/// Patterns agree apart from their spans.
pub open spec fn pattern_item_eq(a: PatternItem, b: PatternItem) -> bool
    decreases a,
{
    match (a, b) {
        (PatternItem::Hole, PatternItem::Hole) => true,
        (PatternItem::Integer(x), PatternItem::Integer(y)) => x == y,
        (PatternItem::Float(x), PatternItem::Float(y)) => x == y,
        (PatternItem::Boolean(x), PatternItem::Boolean(y)) => x == y,
        (PatternItem::String(x), PatternItem::String(y)) => x@ == y@,
        (
            PatternItem::Identifier { identifier: xi, spread: xs },
            PatternItem::Identifier { identifier: yi, spread: ys },
        ) => id_eq(xi.1, yi.1) && xs == ys,
        (PatternItem::PatternList(x), PatternItem::PatternList(y)) => {
            &&& x@.len() == y@.len()
            &&& forall|i: int| 0 <= i < x@.len() ==> pattern_item_eq(#[trigger] x@[i].1, y@[i].1)
        },
        _ => false,
    }
}

/// Assignment targets agree apart from their spans.
pub open spec fn assignee_eq(a: Assignee, b: Assignee) -> bool
    decreases a,
{
    match (a, b) {
        (Assignee::Hole, Assignee::Hole) => true,
        (Assignee::Identifier(x), Assignee::Identifier(y)) => id_eq(x.1, y.1),
        (Assignee::DestructureList(x), Assignee::DestructureList(y)) => {
            &&& x@.len() == y@.len()
            &&& forall|i: int|
                0 <= i < x@.len() ==> destructure_item_eq(#[trigger] x@[i].1, y@[i].1)
        },
        _ => false,
    }
}

/// Destructuring items agree apart from their spans.
pub open spec fn destructure_item_eq(a: DestructureItem, b: DestructureItem) -> bool
    decreases a,
{
    match (a, b) {
        (DestructureItem::Hole, DestructureItem::Hole) => true,
        (
            DestructureItem::Identifier { identifier: xi, spread: xs },
            DestructureItem::Identifier { identifier: yi, spread: ys },
        ) => id_eq(xi.1, yi.1) && xs == ys,
        (DestructureItem::List(x), DestructureItem::List(y)) => {
            &&& x@.len() == y@.len()
            &&& forall|i: int|
                0 <= i < x@.len() ==> destructure_item_eq(#[trigger] x@[i].1, y@[i].1)
        },
        _ => false,
    }
}


impl Statement {
    /// Decides span-insensitive structural equality of two statements.
    pub fn syntax_eq(&self, other: &Statement) -> (r: bool)
        ensures
            r == stmt_eq(*self, *other),
        decreases *self,
    {
        match (self, other) {
            (Statement::Return(x), Statement::Return(y)) => match (x, y) {
                (Some(a), Some(b)) => a.1.syntax_eq(&b.1),
                (None, None) => true,
                _ => false,
            },
            (
                Statement::Assignment { assignee: aa, expression: ae },
                Statement::Assignment { assignee: ba, expression: be },
            ) => aa.1.syntax_eq(&ba.1) && ae.1.syntax_eq(&be.1),
            (Statement::Expression(x), Statement::Expression(y)) => x.1.syntax_eq(&y.1),
            _ => false,
        }
    }

    /// An exact copy of this statement, its spans included.
    #[verifier::loop_isolation(false)]
    pub fn dup(&self) -> (r: Self)
        ensures
            stmt_eq(r, *self),
        decreases *self,
    {
        match self {
            Statement::Return(x) => match x {
                Some(e) => Statement::Return(Some(AstPair(e.0.clone(), e.1.dup()))),
                None => Statement::Return(None),
            },
            Statement::Assignment { assignee, expression } => Statement::Assignment {
                assignee: AstPair(assignee.0.clone(), assignee.1.dup()),
                expression: AstPair(expression.0.clone(), expression.1.dup()),
            },
            Statement::Expression(e) => Statement::Expression(AstPair(e.0.clone(), e.1.dup())),
        }
    }
}

impl Block {
    /// Decides span-insensitive structural equality of two blocks.
    #[verifier::loop_isolation(false)]
    pub fn syntax_eq(&self, other: &Block) -> (r: bool)
        ensures
            r == block_eq(*self, *other),
        decreases *self,
    {
        if self.statements.len() != other.statements.len() {
            return false;
        }
        let n: usize = self.statements.len();
        let mut i: usize = 0;
        while i < n
            invariant
                n == self.statements@.len(),
                n == other.statements@.len(),
                i <= n,
                forall|j: int|
                    0 <= j < i ==> stmt_eq(
                        #[trigger] self.statements@[j].1,
                        other.statements@[j].1,
                    ),
            decreases n - i,
        {
            if !self.statements[i].1.syntax_eq(&other.statements[i].1) {
                return false;
            }
            i = i + 1;
        }
        true
    }

    /// An exact copy of this block, its spans included.
    #[verifier::loop_isolation(false)]
    pub fn dup(&self) -> (r: Self)
        ensures
            block_eq(r, *self),
        decreases *self,
    {
        let n: usize = self.statements.len();
        let mut out: Vec<AstPair<Statement>> = Vec::new();
        let mut i: usize = 0;
        while i < n
            invariant
                n == self.statements@.len(),
                i <= n,
                out@.len() == i,
                forall|j: int|
                    0 <= j < i ==> stmt_eq(#[trigger] out@[j].1, self.statements@[j].1),
            decreases n - i,
        {
            let s = &self.statements[i];
            out.push(AstPair(s.0.clone(), s.1.dup()));
            i = i + 1;
        }
        Block { statements: out }
    }
}

impl Expression {
    /// Decides span-insensitive structural equality of two expressions.
    #[verifier::loop_isolation(false)]
    pub fn syntax_eq(&self, other: &Expression) -> (r: bool)
        ensures
            r == expr_eq(*self, *other),
        decreases *self,
    {
        match (self, other) {
            (Expression::Operand(x), Expression::Operand(y)) => x.1.syntax_eq(&y.1),
            (
                Expression::Unary { operator: ao, operand: ax },
                Expression::Unary { operator: bo, operand: bx },
            ) => ao.1 == bo.1 && ax.1.syntax_eq(&bx.1),
            (
                Expression::Binary { left_operand: al, operator: ao, right_operand: ar },
                Expression::Binary { left_operand: bl, operator: bo, right_operand: br },
            ) => ao.1 == bo.1 && al.1.syntax_eq(&bl.1) && ar.1.syntax_eq(&br.1),
            (
                Expression::MatchExpression { condition: ac, match_clauses: am },
                Expression::MatchExpression { condition: bc, match_clauses: bm },
            ) => {
                if !ac.1.syntax_eq(&bc.1) {
                    return false;
                }
                if am.len() != bm.len() {
                    return false;
                }
                let n: usize = am.len();
                let mut i: usize = 0;
                while i < n
                    invariant
                        n == am@.len(),
                        n == bm@.len(),
                        i <= n,
                        forall|j: int|
                            0 <= j < i ==> clause_eq(#[trigger] am@[j].1, bm@[j].1),
                    decreases n - i,
                {
                    if !am[i].1.syntax_eq(&bm[i].1) {
                        return false;
                    }
                    i = i + 1;
                }
                true
            },
            _ => false,
        }
    }

    /// An exact copy of this expression, its spans included.
    #[verifier::loop_isolation(false)]
    pub fn dup(&self) -> (r: Self)
        ensures
            expr_eq(r, *self),
        decreases *self,
    {
        match self {
            Expression::Operand(x) => Expression::Operand(
                Box::new(AstPair(x.0.clone(), x.1.dup())),
            ),
            Expression::Unary { operator, operand } => Expression::Unary {
                operator: Box::new(AstPair(operator.0.clone(), operator.1)),
                operand: Box::new(AstPair(operand.0.clone(), operand.1.dup())),
            },
            Expression::Binary { left_operand, operator, right_operand } => Expression::Binary {
                left_operand: Box::new(AstPair(left_operand.0.clone(), left_operand.1.dup())),
                operator: Box::new(AstPair(operator.0.clone(), operator.1)),
                right_operand: Box::new(AstPair(right_operand.0.clone(), right_operand.1.dup())),
            },
            Expression::MatchExpression { condition, match_clauses } => {
                let n: usize = match_clauses.len();
                let mut out: Vec<AstPair<MatchClause>> = Vec::new();
                let mut i: usize = 0;
                while i < n
                    invariant
                        n == match_clauses@.len(),
                        i <= n,
                        out@.len() == i,
                        forall|j: int|
                            0 <= j < i ==> clause_eq(#[trigger] out@[j].1, match_clauses@[j].1),
                    decreases n - i,
                {
                    let c = &match_clauses[i];
                    out.push(AstPair(c.0.clone(), c.1.dup()));
                    i = i + 1;
                }
                Expression::MatchExpression {
                    condition: Box::new(AstPair(condition.0.clone(), condition.1.dup())),
                    match_clauses: out,
                }
            },
        }
    }
}

impl Operand {
    /// Decides span-insensitive structural equality of two operands.
    #[verifier::loop_isolation(false)]
    pub fn syntax_eq(&self, other: &Operand) -> (r: bool)
        ensures
            r == operand_eq(*self, *other),
        decreases *self,
    {
        match (self, other) {
            (Operand::Hole, Operand::Hole) => true,
            (Operand::Integer(x), Operand::Integer(y)) => *x == *y,
            (Operand::Float(x), Operand::Float(y)) => *x == *y,
            (Operand::Boolean(x), Operand::Boolean(y)) => *x == *y,
            (Operand::String(x), Operand::String(y)) => *x == *y,
            (Operand::Identifier(x), Operand::Identifier(y)) => x.1.name_eq(&y.1),
            (Operand::ValueType(x), Operand::ValueType(y)) => *x == *y,
            (Operand::ListInit { items: x }, Operand::ListInit { items: y }) => {
                if x.len() != y.len() {
                    return false;
                }
                let n: usize = x.len();
                let mut i: usize = 0;
                while i < n
                    invariant
                        n == x@.len(),
                        n == y@.len(),
                        i <= n,
                        forall|j: int| 0 <= j < i ==> expr_eq(#[trigger] x@[j].1, y@[j].1),
                    decreases n - i,
                {
                    if !x[i].1.syntax_eq(&y[i].1) {
                        return false;
                    }
                    i = i + 1;
                }
                true
            },
            (Operand::FunctionInit(x), Operand::FunctionInit(y)) => x.syntax_eq(y),
            (Operand::FunctionCall(x), Operand::FunctionCall(y)) => x.syntax_eq(y),
            (
                Operand::StructDefinition { fields: x },
                Operand::StructDefinition { fields: y },
            ) => ids_eq(x, y),
            (Operand::EnumDefinition { values: x }, Operand::EnumDefinition { values: y }) => ids_eq(
                x,
                y,
            ),
            _ => false,
        }
    }

    /// An exact copy of this operand, its spans included.
    #[verifier::loop_isolation(false)]
    pub fn dup(&self) -> (r: Self)
        ensures
            operand_eq(r, *self),
        decreases *self,
    {
        match self {
            Operand::Hole => Operand::Hole,
            Operand::Integer(x) => Operand::Integer(*x),
            Operand::Float(x) => Operand::Float(*x),
            Operand::Boolean(x) => Operand::Boolean(*x),
            Operand::String(x) => Operand::String(x.clone()),
            Operand::Identifier(x) => Operand::Identifier(AstPair(x.0.clone(), x.1.clone())),
            Operand::ValueType(x) => Operand::ValueType(*x),
            Operand::ListInit { items } => {
                let n: usize = items.len();
                let mut out: Vec<AstPair<Expression>> = Vec::new();
                let mut i: usize = 0;
                while i < n
                    invariant
                        n == items@.len(),
                        i <= n,
                        out@.len() == i,
                        forall|j: int|
                            0 <= j < i ==> expr_eq(#[trigger] out@[j].1, items@[j].1),
                    decreases n - i,
                {
                    let e = &items[i];
                    out.push(AstPair(e.0.clone(), e.1.dup()));
                    i = i + 1;
                }
                Operand::ListInit { items: out }
            },
            Operand::FunctionInit(x) => Operand::FunctionInit(x.dup()),
            Operand::FunctionCall(x) => Operand::FunctionCall(x.dup()),
            Operand::StructDefinition { fields } => Operand::StructDefinition {
                fields: dup_ids(fields),
            },
            Operand::EnumDefinition { values } => Operand::EnumDefinition {
                values: dup_ids(values),
            },
        }
    }
}

/// Decides elementwise name equality of two identifier lists.
#[verifier::loop_isolation(false)]
fn ids_eq(x: &Vec<AstPair<Identifier>>, y: &Vec<AstPair<Identifier>>) -> (r: bool)
    ensures
        r == (x@.len() == y@.len() && forall|i: int|
            0 <= i < x@.len() ==> id_eq(#[trigger] x@[i].1, y@[i].1)),
{
    if x.len() != y.len() {
        return false;
    }
    let n: usize = x.len();
    let mut i: usize = 0;
    while i < n
        invariant
            n == x@.len(),
            n == y@.len(),
            i <= n,
            forall|j: int| 0 <= j < i ==> id_eq(#[trigger] x@[j].1, y@[j].1),
        decreases n - i,
    {
        if !x[i].1.name_eq(&y[i].1) {
            return false;
        }
        i = i + 1;
    }
    true
}

/// An exact copy of an identifier list, its spans included.
#[verifier::loop_isolation(false)]
fn dup_ids(v: &Vec<AstPair<Identifier>>) -> (r: Vec<AstPair<Identifier>>)
    ensures
        r@.len() == v@.len(),
        forall|i: int| 0 <= i < v@.len() ==> id_eq(#[trigger] r@[i].1, v@[i].1),
{
    let n: usize = v.len();
    let mut out: Vec<AstPair<Identifier>> = Vec::new();
    let mut i: usize = 0;
    while i < n
        invariant
            n == v@.len(),
            i <= n,
            out@.len() == i,
            forall|j: int| 0 <= j < i ==> id_eq(#[trigger] out@[j].1, v@[j].1),
        decreases n - i,
    {
        let e = &v[i];
        out.push(AstPair(e.0.clone(), e.1.clone()));
        i = i + 1;
    }
    out
}

impl FunctionCall {
    /// Decides span-insensitive structural equality of two calls.
    #[verifier::loop_isolation(false)]
    pub fn syntax_eq(&self, other: &FunctionCall) -> (r: bool)
        ensures
            r == fn_call_eq(*self, *other),
        decreases *self,
    {
        if !self.identifier.1.name_eq(&other.identifier.1) {
            return false;
        }
        if self.arguments.len() != other.arguments.len() {
            return false;
        }
        let n: usize = self.arguments.len();
        let mut i: usize = 0;
        while i < n
            invariant
                n == self.arguments@.len(),
                n == other.arguments@.len(),
                i <= n,
                forall|j: int|
                    0 <= j < i ==> expr_eq(
                        #[trigger] self.arguments@[j].1,
                        other.arguments@[j].1,
                    ),
            decreases n - i,
        {
            if !self.arguments[i].1.syntax_eq(&other.arguments[i].1) {
                return false;
            }
            i = i + 1;
        }
        true
    }

    /// An exact copy of this call, its spans included.
    #[verifier::loop_isolation(false)]
    pub fn dup(&self) -> (r: Self)
        ensures
            fn_call_eq(r, *self),
        decreases *self,
    {
        let n: usize = self.arguments.len();
        let mut out: Vec<AstPair<Expression>> = Vec::new();
        let mut i: usize = 0;
        while i < n
            invariant
                n == self.arguments@.len(),
                i <= n,
                out@.len() == i,
                forall|j: int|
                    0 <= j < i ==> expr_eq(#[trigger] out@[j].1, self.arguments@[j].1),
            decreases n - i,
        {
            let e = &self.arguments[i];
            out.push(AstPair(e.0.clone(), e.1.dup()));
            i = i + 1;
        }
        FunctionCall {
            identifier: AstPair(self.identifier.0.clone(), self.identifier.1.clone()),
            arguments: out,
        }
    }
}

impl FunctionInit {
    /// Decides span-insensitive structural equality of two function literals.
    #[verifier::loop_isolation(false)]
    pub fn syntax_eq(&self, other: &FunctionInit) -> (r: bool)
        ensures
            r == fn_init_eq(*self, *other),
        decreases *self,
    {
        if self.parameters.len() != other.parameters.len() {
            return false;
        }
        let n: usize = self.parameters.len();
        let mut i: usize = 0;
        while i < n
            invariant
                n == self.parameters@.len(),
                n == other.parameters@.len(),
                i <= n,
                forall|j: int|
                    0 <= j < i ==> assignee_eq(
                        #[trigger] self.parameters@[j].1,
                        other.parameters@[j].1,
                    ),
            decreases n - i,
        {
            if !self.parameters[i].1.syntax_eq(&other.parameters[i].1) {
                return false;
            }
            i = i + 1;
        }
        self.block.1.syntax_eq(&other.block.1)
    }

    /// An exact copy of this function literal, its spans included.
    #[verifier::loop_isolation(false)]
    pub fn dup(&self) -> (r: Self)
        ensures
            fn_init_eq(r, *self),
        decreases *self,
    {
        let n: usize = self.parameters.len();
        let mut out: Vec<AstPair<Assignee>> = Vec::new();
        let mut i: usize = 0;
        while i < n
            invariant
                n == self.parameters@.len(),
                i <= n,
                out@.len() == i,
                forall|j: int|
                    0 <= j < i ==> assignee_eq(#[trigger] out@[j].1, self.parameters@[j].1),
            decreases n - i,
        {
            let a = &self.parameters[i];
            out.push(AstPair(a.0.clone(), a.1.dup()));
            i = i + 1;
        }
        FunctionInit {
            parameters: out,
            block: AstPair(self.block.0.clone(), self.block.1.dup()),
        }
    }
}

impl MatchClause {
    /// Decides span-insensitive structural equality of two match clauses.
    pub fn syntax_eq(&self, other: &MatchClause) -> (r: bool)
        ensures
            r == clause_eq(*self, *other),
        decreases *self,
    {
        self.pattern.1.syntax_eq(&other.pattern.1) && self.block.1.syntax_eq(&other.block.1)
    }

    /// An exact copy of this clause, its spans included.
    #[verifier::loop_isolation(false)]
    pub fn dup(&self) -> (r: Self)
        ensures
            clause_eq(r, *self),
        decreases *self,
    {
        MatchClause {
            pattern: AstPair(self.pattern.0.clone(), self.pattern.1.dup()),
            block: AstPair(self.block.0.clone(), self.block.1.dup()),
        }
    }
}

impl PatternItem {
    /// Decides span-insensitive structural equality of two patterns.
    #[verifier::loop_isolation(false)]
    pub fn syntax_eq(&self, other: &PatternItem) -> (r: bool)
        ensures
            r == pattern_item_eq(*self, *other),
        decreases *self,
    {
        match (self, other) {
            (PatternItem::Hole, PatternItem::Hole) => true,
            (PatternItem::Integer(x), PatternItem::Integer(y)) => *x == *y,
            (PatternItem::Float(x), PatternItem::Float(y)) => *x == *y,
            (PatternItem::Boolean(x), PatternItem::Boolean(y)) => *x == *y,
            (PatternItem::String(x), PatternItem::String(y)) => *x == *y,
            (
                PatternItem::Identifier { identifier: xi, spread: xs },
                PatternItem::Identifier { identifier: yi, spread: ys },
            ) => xi.1.name_eq(&yi.1) && *xs == *ys,
            (PatternItem::PatternList(x), PatternItem::PatternList(y)) => {
                if x.len() != y.len() {
                    return false;
                }
                let n: usize = x.len();
                let mut i: usize = 0;
                while i < n
                    invariant
                        n == x@.len(),
                        n == y@.len(),
                        i <= n,
                        forall|j: int|
                            0 <= j < i ==> pattern_item_eq(#[trigger] x@[j].1, y@[j].1),
                    decreases n - i,
                {
                    if !x[i].1.syntax_eq(&y[i].1) {
                        return false;
                    }
                    i = i + 1;
                }
                true
            },
            _ => false,
        }
    }

    /// An exact copy of this pattern, its spans included.
    #[verifier::loop_isolation(false)]
    pub fn dup(&self) -> (r: Self)
        ensures
            pattern_item_eq(r, *self),
        decreases *self,
    {
        match self {
            PatternItem::Hole => PatternItem::Hole,
            PatternItem::Integer(x) => PatternItem::Integer(*x),
            PatternItem::Float(x) => PatternItem::Float(*x),
            PatternItem::Boolean(x) => PatternItem::Boolean(*x),
            PatternItem::String(x) => PatternItem::String(x.clone()),
            PatternItem::Identifier { identifier, spread } => PatternItem::Identifier {
                identifier: AstPair(identifier.0.clone(), identifier.1.clone()),
                spread: *spread,
            },
            PatternItem::PatternList(items) => {
                let n: usize = items.len();
                let mut out: Vec<AstPair<PatternItem>> = Vec::new();
                let mut i: usize = 0;
                while i < n
                    invariant
                        n == items@.len(),
                        i <= n,
                        out@.len() == i,
                        forall|j: int|
                            0 <= j < i ==> pattern_item_eq(#[trigger] out@[j].1, items@[j].1),
                    decreases n - i,
                {
                    let p = &items[i];
                    out.push(AstPair(p.0.clone(), p.1.dup()));
                    i = i + 1;
                }
                PatternItem::PatternList(out)
            },
        }
    }
}

impl Assignee {
    /// Decides span-insensitive structural equality of two targets.
    #[verifier::loop_isolation(false)]
    pub fn syntax_eq(&self, other: &Assignee) -> (r: bool)
        ensures
            r == assignee_eq(*self, *other),
        decreases *self,
    {
        match (self, other) {
            (Assignee::Hole, Assignee::Hole) => true,
            (Assignee::Identifier(x), Assignee::Identifier(y)) => x.1.name_eq(&y.1),
            (Assignee::DestructureList(x), Assignee::DestructureList(y)) => {
                if x.len() != y.len() {
                    return false;
                }
                let n: usize = x.len();
                let mut i: usize = 0;
                while i < n
                    invariant
                        n == x@.len(),
                        n == y@.len(),
                        i <= n,
                        forall|j: int|
                            0 <= j < i ==> destructure_item_eq(#[trigger] x@[j].1, y@[j].1),
                    decreases n - i,
                {
                    if !x[i].1.syntax_eq(&y[i].1) {
                        return false;
                    }
                    i = i + 1;
                }
                true
            },
            _ => false,
        }
    }

    /// An exact copy of this target, its spans included.
    #[verifier::loop_isolation(false)]
    pub fn dup(&self) -> (r: Self)
        ensures
            assignee_eq(r, *self),
        decreases *self,
    {
        match self {
            Assignee::Hole => Assignee::Hole,
            Assignee::Identifier(x) => Assignee::Identifier(AstPair(x.0.clone(), x.1.clone())),
            Assignee::DestructureList(items) => {
                let n: usize = items.len();
                let mut out: Vec<AstPair<DestructureItem>> = Vec::new();
                let mut i: usize = 0;
                while i < n
                    invariant
                        n == items@.len(),
                        i <= n,
                        out@.len() == i,
                        forall|j: int|
                            0 <= j < i ==> destructure_item_eq(
                                #[trigger] out@[j].1,
                                items@[j].1,
                            ),
                    decreases n - i,
                {
                    let d = &items[i];
                    out.push(AstPair(d.0.clone(), d.1.dup()));
                    i = i + 1;
                }
                Assignee::DestructureList(out)
            },
        }
    }
}

impl DestructureItem {
    /// Decides span-insensitive structural equality of two items.
    #[verifier::loop_isolation(false)]
    pub fn syntax_eq(&self, other: &DestructureItem) -> (r: bool)
        ensures
            r == destructure_item_eq(*self, *other),
        decreases *self,
    {
        match (self, other) {
            (DestructureItem::Hole, DestructureItem::Hole) => true,
            (
                DestructureItem::Identifier { identifier: xi, spread: xs },
                DestructureItem::Identifier { identifier: yi, spread: ys },
            ) => xi.1.name_eq(&yi.1) && *xs == *ys,
            (DestructureItem::List(x), DestructureItem::List(y)) => {
                if x.len() != y.len() {
                    return false;
                }
                let n: usize = x.len();
                let mut i: usize = 0;
                while i < n
                    invariant
                        n == x@.len(),
                        n == y@.len(),
                        i <= n,
                        forall|j: int|
                            0 <= j < i ==> destructure_item_eq(#[trigger] x@[j].1, y@[j].1),
                    decreases n - i,
                {
                    if !x[i].1.syntax_eq(&y[i].1) {
                        return false;
                    }
                    i = i + 1;
                }
                true
            },
            _ => false,
        }
    }

    /// An exact copy of this item, its spans included.
    #[verifier::loop_isolation(false)]
    pub fn dup(&self) -> (r: Self)
        ensures
            destructure_item_eq(r, *self),
        decreases *self,
    {
        match self {
            DestructureItem::Hole => DestructureItem::Hole,
            DestructureItem::Identifier { identifier, spread } => DestructureItem::Identifier {
                identifier: AstPair(identifier.0.clone(), identifier.1.clone()),
                spread: *spread,
            },
            DestructureItem::List(items) => {
                let n: usize = items.len();
                let mut out: Vec<AstPair<DestructureItem>> = Vec::new();
                let mut i: usize = 0;
                while i < n
                    invariant
                        n == items@.len(),
                        i <= n,
                        out@.len() == i,
                        forall|j: int|
                            0 <= j < i ==> destructure_item_eq(
                                #[trigger] out@[j].1,
                                items@[j].1,
                            ),
                    decreases n - i,
                {
                    let d = &items[i];
                    out.push(AstPair(d.0.clone(), d.1.dup()));
                    i = i + 1;
                }
                DestructureItem::List(out)
            },
        }
    }
}


/// Span-insensitive equality of statements is reflexive.
pub proof fn lemma_ast_eq_reflexive_stmt(a: Statement)
    ensures
        stmt_eq(a, a),
    decreases a,
{
    match a {
        Statement::Return(x) => {
            if x is Some {
                lemma_ast_eq_reflexive_expr(x.unwrap().1);
            }
        },
        Statement::Assignment { assignee, expression } => {
            lemma_ast_eq_reflexive_assignee(assignee.1);
            lemma_ast_eq_reflexive_expr(expression.1);
        },
        Statement::Expression(x) => {
            lemma_ast_eq_reflexive_expr(x.1);
        },
    }
}

/// Span-insensitive equality of blocks is reflexive.
pub proof fn lemma_ast_eq_reflexive_block(a: Block)
    ensures
        block_eq(a, a),
    decreases a,
{
    assert forall|i: int| 0 <= i < a.statements@.len() implies stmt_eq(
        #[trigger] a.statements@[i].1,
        a.statements@[i].1,
    ) by {
        lemma_ast_eq_reflexive_stmt(a.statements@[i].1);
    }
}

/// Span-insensitive equality of expressions is reflexive.
pub proof fn lemma_ast_eq_reflexive_expr(a: Expression)
    ensures
        expr_eq(a, a),
    decreases a,
{
    match a {
        Expression::Operand(x) => {
            lemma_ast_eq_reflexive_operand((*x).1);
        },
        Expression::Unary { operand, .. } => {
            lemma_ast_eq_reflexive_expr((*operand).1);
        },
        Expression::Binary { left_operand, right_operand, .. } => {
            lemma_ast_eq_reflexive_expr((*left_operand).1);
            lemma_ast_eq_reflexive_expr((*right_operand).1);
        },
        Expression::MatchExpression { condition, match_clauses } => {
            lemma_ast_eq_reflexive_expr((*condition).1);
            assert forall|i: int| 0 <= i < match_clauses@.len() implies clause_eq(
                #[trigger] match_clauses@[i].1,
                match_clauses@[i].1,
            ) by {
                lemma_ast_eq_reflexive_clause(match_clauses@[i].1);
            }
        },
    }
}

/// Span-insensitive equality of operands is reflexive.
pub proof fn lemma_ast_eq_reflexive_operand(a: Operand)
    ensures
        operand_eq(a, a),
    decreases a,
{
    match a {
        Operand::ListInit { items } => {
            assert forall|i: int| 0 <= i < items@.len() implies expr_eq(
                #[trigger] items@[i].1,
                items@[i].1,
            ) by {
                lemma_ast_eq_reflexive_expr(items@[i].1);
            }
        },
        Operand::FunctionInit(f) => {
            lemma_ast_eq_reflexive_fn_init(f);
        },
        Operand::FunctionCall(c) => {
            lemma_ast_eq_reflexive_fn_call(c);
        },
        _ => {},
    }
}

/// Span-insensitive equality of calls is reflexive.
pub proof fn lemma_ast_eq_reflexive_fn_call(a: FunctionCall)
    ensures
        fn_call_eq(a, a),
    decreases a,
{
    assert forall|i: int| 0 <= i < a.arguments@.len() implies expr_eq(
        #[trigger] a.arguments@[i].1,
        a.arguments@[i].1,
    ) by {
        lemma_ast_eq_reflexive_expr(a.arguments@[i].1);
    }
}

/// Span-insensitive equality of function literals is reflexive.
pub proof fn lemma_ast_eq_reflexive_fn_init(a: FunctionInit)
    ensures
        fn_init_eq(a, a),
    decreases a,
{
    assert forall|i: int| 0 <= i < a.parameters@.len() implies assignee_eq(
        #[trigger] a.parameters@[i].1,
        a.parameters@[i].1,
    ) by {
        lemma_ast_eq_reflexive_assignee(a.parameters@[i].1);
    }
    lemma_ast_eq_reflexive_block(a.block.1);
}

/// Span-insensitive equality of match clauses is reflexive.
pub proof fn lemma_ast_eq_reflexive_clause(a: MatchClause)
    ensures
        clause_eq(a, a),
    decreases a,
{
    lemma_ast_eq_reflexive_pattern(a.pattern.1);
    lemma_ast_eq_reflexive_block(a.block.1);
}

/// Span-insensitive equality of patterns is reflexive.
pub proof fn lemma_ast_eq_reflexive_pattern(a: PatternItem)
    ensures
        pattern_item_eq(a, a),
    decreases a,
{
    match a {
        PatternItem::PatternList(items) => {
            assert forall|i: int| 0 <= i < items@.len() implies pattern_item_eq(
                #[trigger] items@[i].1,
                items@[i].1,
            ) by {
                lemma_ast_eq_reflexive_pattern(items@[i].1);
            }
        },
        _ => {},
    }
}

/// Span-insensitive equality of assignment targets is reflexive.
pub proof fn lemma_ast_eq_reflexive_assignee(a: Assignee)
    ensures
        assignee_eq(a, a),
    decreases a,
{
    match a {
        Assignee::DestructureList(items) => {
            assert forall|i: int| 0 <= i < items@.len() implies destructure_item_eq(
                #[trigger] items@[i].1,
                items@[i].1,
            ) by {
                lemma_ast_eq_reflexive_destructure(items@[i].1);
            }
        },
        _ => {},
    }
}

/// Span-insensitive equality of destructuring items is reflexive.
pub proof fn lemma_ast_eq_reflexive_destructure(a: DestructureItem)
    ensures
        destructure_item_eq(a, a),
    decreases a,
{
    match a {
        DestructureItem::List(items) => {
            assert forall|i: int| 0 <= i < items@.len() implies destructure_item_eq(
                #[trigger] items@[i].1,
                items@[i].1,
            ) by {
                lemma_ast_eq_reflexive_destructure(items@[i].1);
            }
        },
        _ => {},
    }
}


/// Span-insensitive equality of statements is symmetric.
pub proof fn lemma_ast_eq_symmetric_stmt(a: Statement, b: Statement)
    ensures
        stmt_eq(a, b) == stmt_eq(b, a),
    decreases a,
{
    match (a, b) {
        (Statement::Return(x), Statement::Return(y)) => {
            if x is Some && y is Some {
                lemma_ast_eq_symmetric_expr(x.unwrap().1, y.unwrap().1);
            }
        },
        (
            Statement::Assignment { assignee: aa, expression: ae },
            Statement::Assignment { assignee: ba, expression: be },
        ) => {
            lemma_ast_eq_symmetric_assignee(aa.1, ba.1);
            lemma_ast_eq_symmetric_expr(ae.1, be.1);
        },
        (Statement::Expression(x), Statement::Expression(y)) => {
            lemma_ast_eq_symmetric_expr(x.1, y.1);
        },
        _ => {},
    }
}

/// Span-insensitive equality of blocks is symmetric.
pub proof fn lemma_ast_eq_symmetric_block(a: Block, b: Block)
    ensures
        block_eq(a, b) == block_eq(b, a),
    decreases a,
{
    if a.statements@.len() == b.statements@.len() {
        assert forall|i: int| 0 <= i < a.statements@.len() implies stmt_eq(
            #[trigger] a.statements@[i].1,
            b.statements@[i].1,
        ) == stmt_eq(b.statements@[i].1, a.statements@[i].1) by {
            lemma_ast_eq_symmetric_stmt(a.statements@[i].1, b.statements@[i].1);
        }
    }
}

/// Span-insensitive equality of expressions is symmetric.
pub proof fn lemma_ast_eq_symmetric_expr(a: Expression, b: Expression)
    ensures
        expr_eq(a, b) == expr_eq(b, a),
    decreases a,
{
    match (a, b) {
        (Expression::Operand(x), Expression::Operand(y)) => {
            lemma_ast_eq_symmetric_operand((*x).1, (*y).1);
        },
        (
            Expression::Unary { operand: ax, .. },
            Expression::Unary { operand: bx, .. },
        ) => {
            lemma_ast_eq_symmetric_expr((*ax).1, (*bx).1);
        },
        (
            Expression::Binary { left_operand: al, right_operand: ar, .. },
            Expression::Binary { left_operand: bl, right_operand: br, .. },
        ) => {
            lemma_ast_eq_symmetric_expr((*al).1, (*bl).1);
            lemma_ast_eq_symmetric_expr((*ar).1, (*br).1);
        },
        (
            Expression::MatchExpression { condition: ac, match_clauses: am },
            Expression::MatchExpression { condition: bc, match_clauses: bm },
        ) => {
            lemma_ast_eq_symmetric_expr((*ac).1, (*bc).1);
            if am@.len() == bm@.len() {
                assert forall|i: int| 0 <= i < am@.len() implies clause_eq(
                    #[trigger] am@[i].1,
                    bm@[i].1,
                ) == clause_eq(bm@[i].1, am@[i].1) by {
                    lemma_ast_eq_symmetric_clause(am@[i].1, bm@[i].1);
                }
            }
        },
        _ => {},
    }
}

/// Span-insensitive equality of operands is symmetric.
pub proof fn lemma_ast_eq_symmetric_operand(a: Operand, b: Operand)
    ensures
        operand_eq(a, b) == operand_eq(b, a),
    decreases a,
{
    match (a, b) {
        (Operand::ListInit { items: x }, Operand::ListInit { items: y }) => {
            if x@.len() == y@.len() {
                assert forall|i: int| 0 <= i < x@.len() implies expr_eq(
                    #[trigger] x@[i].1,
                    y@[i].1,
                ) == expr_eq(y@[i].1, x@[i].1) by {
                    lemma_ast_eq_symmetric_expr(x@[i].1, y@[i].1);
                }
            }
        },
        (Operand::FunctionInit(x), Operand::FunctionInit(y)) => {
            lemma_ast_eq_symmetric_fn_init(x, y);
        },
        (Operand::FunctionCall(x), Operand::FunctionCall(y)) => {
            lemma_ast_eq_symmetric_fn_call(x, y);
        },
        _ => {},
    }
}

/// Span-insensitive equality of calls is symmetric.
pub proof fn lemma_ast_eq_symmetric_fn_call(a: FunctionCall, b: FunctionCall)
    ensures
        fn_call_eq(a, b) == fn_call_eq(b, a),
    decreases a,
{
    if a.arguments@.len() == b.arguments@.len() {
        assert forall|i: int| 0 <= i < a.arguments@.len() implies expr_eq(
            #[trigger] a.arguments@[i].1,
            b.arguments@[i].1,
        ) == expr_eq(b.arguments@[i].1, a.arguments@[i].1) by {
            lemma_ast_eq_symmetric_expr(a.arguments@[i].1, b.arguments@[i].1);
        }
    }
}

/// Span-insensitive equality of function literals is symmetric.
pub proof fn lemma_ast_eq_symmetric_fn_init(a: FunctionInit, b: FunctionInit)
    ensures
        fn_init_eq(a, b) == fn_init_eq(b, a),
    decreases a,
{
    if a.parameters@.len() == b.parameters@.len() {
        assert forall|i: int| 0 <= i < a.parameters@.len() implies assignee_eq(
            #[trigger] a.parameters@[i].1,
            b.parameters@[i].1,
        ) == assignee_eq(b.parameters@[i].1, a.parameters@[i].1) by {
            lemma_ast_eq_symmetric_assignee(a.parameters@[i].1, b.parameters@[i].1);
        }
    }
    lemma_ast_eq_symmetric_block(a.block.1, b.block.1);
}

/// Span-insensitive equality of match clauses is symmetric.
pub proof fn lemma_ast_eq_symmetric_clause(a: MatchClause, b: MatchClause)
    ensures
        clause_eq(a, b) == clause_eq(b, a),
    decreases a,
{
    lemma_ast_eq_symmetric_pattern(a.pattern.1, b.pattern.1);
    lemma_ast_eq_symmetric_block(a.block.1, b.block.1);
}

/// Span-insensitive equality of patterns is symmetric.
pub proof fn lemma_ast_eq_symmetric_pattern(a: PatternItem, b: PatternItem)
    ensures
        pattern_item_eq(a, b) == pattern_item_eq(b, a),
    decreases a,
{
    match (a, b) {
        (PatternItem::PatternList(x), PatternItem::PatternList(y)) => {
            if x@.len() == y@.len() {
                assert forall|i: int| 0 <= i < x@.len() implies pattern_item_eq(
                    #[trigger] x@[i].1,
                    y@[i].1,
                ) == pattern_item_eq(y@[i].1, x@[i].1) by {
                    lemma_ast_eq_symmetric_pattern(x@[i].1, y@[i].1);
                }
            }
        },
        _ => {},
    }
}

/// Span-insensitive equality of assignment targets is symmetric.
pub proof fn lemma_ast_eq_symmetric_assignee(a: Assignee, b: Assignee)
    ensures
        assignee_eq(a, b) == assignee_eq(b, a),
    decreases a,
{
    match (a, b) {
        (Assignee::DestructureList(x), Assignee::DestructureList(y)) => {
            if x@.len() == y@.len() {
                assert forall|i: int| 0 <= i < x@.len() implies destructure_item_eq(
                    #[trigger] x@[i].1,
                    y@[i].1,
                ) == destructure_item_eq(y@[i].1, x@[i].1) by {
                    lemma_ast_eq_symmetric_destructure(x@[i].1, y@[i].1);
                }
            }
        },
        _ => {},
    }
}

/// Span-insensitive equality of destructuring items is symmetric.
pub proof fn lemma_ast_eq_symmetric_destructure(a: DestructureItem, b: DestructureItem)
    ensures
        destructure_item_eq(a, b) == destructure_item_eq(b, a),
    decreases a,
{
    match (a, b) {
        (DestructureItem::List(x), DestructureItem::List(y)) => {
            if x@.len() == y@.len() {
                assert forall|i: int| 0 <= i < x@.len() implies destructure_item_eq(
                    #[trigger] x@[i].1,
                    y@[i].1,
                ) == destructure_item_eq(y@[i].1, x@[i].1) by {
                    lemma_ast_eq_symmetric_destructure(x@[i].1, y@[i].1);
                }
            }
        },
        _ => {},
    }
}

} // verus!
