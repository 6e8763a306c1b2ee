//! The choice of the machine instruction for an operator: which
//! instruction a code generator builds for an operator on operands of given
//! types, and which operators it refuses.

use vstd::prelude::*;
use vstd::string::*;
use crate::ast::{BinaryOperator, Type, UnaryOperator};
use crate::text::{join2, join3};

verus! {

/// A comparison: signed on integers, ordered on decimals.
#[derive(Debug, Clone, Copy, PartialEq, Eq, Structural)]
pub enum Comparison {
    Equal,
    NotEqual,
    Less,
    LessEqual,
    Greater,
    GreaterEqual,
}

/// An instruction on one or two operands.
#[derive(Debug, Clone, Copy, PartialEq, Eq, Structural)]
pub enum Instruction {
    IntAdd,
    IntSub,
    IntMul,
    IntSignedDiv,
    IntSignedRem,
    IntCompare(Comparison),
    FloatAdd,
    FloatSub,
    FloatMul,
    FloatDiv,
    FloatCompare(Comparison),
    And,
    Or,
    BoolEqual,
    BoolNotEqual,
    /// Zero minus the operand, on integers.
    IntNegate,
    /// Zero minus the operand, on decimals.
    FloatNegate,
    /// The operand exclusive-or one.
    Not,
    /// No instruction: the value is the operand itself.
    Keep,
}

/// Why no instruction is built.
#[derive(Debug, Clone, Copy, PartialEq, Eq, Structural)]
pub enum InstructionError {
    /// The operator is not one on two integers.
    Integers(BinaryOperator),
    /// The operator is not one on two decimals.
    Decimals(BinaryOperator),
    /// The operator is not one on two logical values.
    Booleans(BinaryOperator),
    /// The operands are not two integers, two decimals or two logical
    /// values.
    Incompatible(Type, Type),
    /// A negation of what is no number.
    Negation,
    /// A logical negation of what is no logical value.
    LogicalNegation,
}

/// The comparison that an operator stands for, if it is one.
pub open spec fn comparison_of(op: BinaryOperator) -> Option<Comparison> {
    match op {
        BinaryOperator::Equal => Some(Comparison::Equal),
        BinaryOperator::NotEqual => Some(Comparison::NotEqual),
        BinaryOperator::Less => Some(Comparison::Less),
        BinaryOperator::LessEqual => Some(Comparison::LessEqual),
        BinaryOperator::Greater => Some(Comparison::Greater),
        BinaryOperator::GreaterEqual => Some(Comparison::GreaterEqual),
        _ => None,
    }
}

/// The instruction for a binary operator on operands of the given types.
/// Operands of two different types get none, nor do texts: the generator
/// does not convert. Integers and decimals have the four arithmetic
/// operators and the six comparisons, integers the remainder too; logical
/// values have `&&`, `||`, `==` and `!=`.
pub open spec fn instruction_for(op: BinaryOperator, left: Type, right: Type) -> Result<
    Instruction,
    InstructionError,
> {
    if left == Type::Inteiro && right == Type::Inteiro {
        match op {
            BinaryOperator::Add => Ok(Instruction::IntAdd),
            BinaryOperator::Subtract => Ok(Instruction::IntSub),
            BinaryOperator::Multiply => Ok(Instruction::IntMul),
            BinaryOperator::Divide => Ok(Instruction::IntSignedDiv),
            BinaryOperator::Modulo => Ok(Instruction::IntSignedRem),
            _ => match comparison_of(op) {
                Some(c) => Ok(Instruction::IntCompare(c)),
                None => Err(InstructionError::Integers(op)),
            },
        }
    } else if left == Type::Decimal && right == Type::Decimal {
        match op {
            BinaryOperator::Add => Ok(Instruction::FloatAdd),
            BinaryOperator::Subtract => Ok(Instruction::FloatSub),
            BinaryOperator::Multiply => Ok(Instruction::FloatMul),
            BinaryOperator::Divide => Ok(Instruction::FloatDiv),
            _ => match comparison_of(op) {
                Some(c) => Ok(Instruction::FloatCompare(c)),
                None => Err(InstructionError::Decimals(op)),
            },
        }
    } else if left == Type::Logico && right == Type::Logico {
        match op {
            BinaryOperator::And => Ok(Instruction::And),
            BinaryOperator::Or => Ok(Instruction::Or),
            BinaryOperator::Equal => Ok(Instruction::BoolEqual),
            BinaryOperator::NotEqual => Ok(Instruction::BoolNotEqual),
            _ => Err(InstructionError::Booleans(op)),
        }
    } else {
        Err(InstructionError::Incompatible(left, right))
    }
}

/// The instruction for a unary operator on an operand of the given type.
/// `+` keeps its operand, whatever its type.
pub open spec fn unary_instruction_for(op: UnaryOperator, operand: Type) -> Result<
    Instruction,
    InstructionError,
> {
    match op {
        UnaryOperator::Plus => Ok(Instruction::Keep),
        UnaryOperator::Negate => if operand == Type::Inteiro {
            Ok(Instruction::IntNegate)
        } else if operand == Type::Decimal {
            Ok(Instruction::FloatNegate)
        } else {
            Err(InstructionError::Negation)
        },
        UnaryOperator::Not => if operand == Type::Logico {
            Ok(Instruction::Not)
        } else {
            Err(InstructionError::LogicalNegation)
        },
    }
}

/// The comparison that an operator stands for, if it is one.
pub fn comparison(op: BinaryOperator) -> (r: Option<Comparison>)
    ensures
        r == comparison_of(op),
{
    match op {
        BinaryOperator::Equal => Some(Comparison::Equal),
        BinaryOperator::NotEqual => Some(Comparison::NotEqual),
        BinaryOperator::Less => Some(Comparison::Less),
        BinaryOperator::LessEqual => Some(Comparison::LessEqual),
        BinaryOperator::Greater => Some(Comparison::Greater),
        BinaryOperator::GreaterEqual => Some(Comparison::GreaterEqual),
        _ => None,
    }
}

/// The instruction for a binary operator on operands of the given types.
pub fn binary_instruction(op: BinaryOperator, left: Type, right: Type) -> (r: Result<
    Instruction,
    InstructionError,
>)
    ensures
        r == instruction_for(op, left, right),
{
    match (left, right) {
        (Type::Inteiro, Type::Inteiro) => match op {
            BinaryOperator::Add => Ok(Instruction::IntAdd),
            BinaryOperator::Subtract => Ok(Instruction::IntSub),
            BinaryOperator::Multiply => Ok(Instruction::IntMul),
            BinaryOperator::Divide => Ok(Instruction::IntSignedDiv),
            BinaryOperator::Modulo => Ok(Instruction::IntSignedRem),
            BinaryOperator::And | BinaryOperator::Or => Err(InstructionError::Integers(op)),
            _ => match comparison(op) {
                Some(c) => Ok(Instruction::IntCompare(c)),
                None => Err(InstructionError::Integers(op)),
            },
        },
        (Type::Decimal, Type::Decimal) => match op {
            BinaryOperator::Add => Ok(Instruction::FloatAdd),
            BinaryOperator::Subtract => Ok(Instruction::FloatSub),
            BinaryOperator::Multiply => Ok(Instruction::FloatMul),
            BinaryOperator::Divide => Ok(Instruction::FloatDiv),
            BinaryOperator::Modulo | BinaryOperator::And | BinaryOperator::Or => Err(
                InstructionError::Decimals(op),
            ),
            _ => match comparison(op) {
                Some(c) => Ok(Instruction::FloatCompare(c)),
                None => Err(InstructionError::Decimals(op)),
            },
        },
        (Type::Logico, Type::Logico) => match op {
            BinaryOperator::And => Ok(Instruction::And),
            BinaryOperator::Or => Ok(Instruction::Or),
            BinaryOperator::Equal => Ok(Instruction::BoolEqual),
            BinaryOperator::NotEqual => Ok(Instruction::BoolNotEqual),
            _ => Err(InstructionError::Booleans(op)),
        },
        _ => Err(InstructionError::Incompatible(left, right)),
    }
}

/// The instruction for a unary operator on an operand of the given type.
pub fn unary_instruction(op: UnaryOperator, operand: Type) -> (r: Result<
    Instruction,
    InstructionError,
>)
    ensures
        r == unary_instruction_for(op, operand),
{
    match op {
        UnaryOperator::Negate => match operand {
            Type::Inteiro => Ok(Instruction::IntNegate),
            Type::Decimal => Ok(Instruction::FloatNegate),
            _ => Err(InstructionError::Negation),
        },
        UnaryOperator::Not => match operand {
            Type::Logico => Ok(Instruction::Not),
            _ => Err(InstructionError::LogicalNegation),
        },
        UnaryOperator::Plus => Ok(Instruction::Keep),
    }
}

impl Comparison {
    /// The two letters by which the result of the comparison is named.
    pub open spec fn letters(self) -> Seq<char> {
        match self {
            Comparison::Equal => "eq"@,
            Comparison::NotEqual => "ne"@,
            Comparison::Less => "lt"@,
            Comparison::LessEqual => "le"@,
            Comparison::Greater => "gt"@,
            Comparison::GreaterEqual => "ge"@,
        }
    }

    /// The two letters by which the result of the comparison is named.
    pub fn as_str(&self) -> (r: &'static str)
        ensures
            r@ == self.letters(),
    {
        match self {
            Comparison::Equal => "eq",
            Comparison::NotEqual => "ne",
            Comparison::Less => "lt",
            Comparison::LessEqual => "le",
            Comparison::Greater => "gt",
            Comparison::GreaterEqual => "ge",
        }
    }
}

impl Instruction {
    /// The name that the result of the instruction is given; `Keep` has no
    /// result of its own.
    pub open spec fn result_name(self) -> Seq<char> {
        match self {
            Instruction::IntCompare(c) => c.letters() + "tmp"@,
            Instruction::FloatCompare(c) => "f"@ + c.letters() + "tmp"@,
            Instruction::IntAdd => "addtmp"@,
            Instruction::IntSub => "subtmp"@,
            Instruction::IntMul => "multmp"@,
            Instruction::IntSignedDiv => "divtmp"@,
            Instruction::IntSignedRem => "modtmp"@,
            Instruction::FloatAdd => "faddtmp"@,
            Instruction::FloatSub => "fsubtmp"@,
            Instruction::FloatMul => "fmultmp"@,
            Instruction::FloatDiv => "fdivtmp"@,
            Instruction::And => "andtmp"@,
            Instruction::Or => "ortmp"@,
            Instruction::BoolEqual => "booleqtmp"@,
            Instruction::BoolNotEqual => "boolnetmp"@,
            Instruction::IntNegate => "negtmp"@,
            Instruction::FloatNegate => "fnegtmp"@,
            Instruction::Not => "nottmp"@,
            Instruction::Keep => ""@,
        }
    }

    /// The name that the result of the instruction is given.
    pub fn name(&self) -> (r: String)
        ensures
            r@ == self.result_name(),
    {
        match self {
            Instruction::IntCompare(c) => join2(c.as_str(), "tmp"),
            Instruction::FloatCompare(c) => join3("f", c.as_str(), "tmp"),
            Instruction::IntAdd => String::from_str("addtmp"),
            Instruction::IntSub => String::from_str("subtmp"),
            Instruction::IntMul => String::from_str("multmp"),
            Instruction::IntSignedDiv => String::from_str("divtmp"),
            Instruction::IntSignedRem => String::from_str("modtmp"),
            Instruction::FloatAdd => String::from_str("faddtmp"),
            Instruction::FloatSub => String::from_str("fsubtmp"),
            Instruction::FloatMul => String::from_str("fmultmp"),
            Instruction::FloatDiv => String::from_str("fdivtmp"),
            Instruction::And => String::from_str("andtmp"),
            Instruction::Or => String::from_str("ortmp"),
            Instruction::BoolEqual => String::from_str("booleqtmp"),
            Instruction::BoolNotEqual => String::from_str("boolnetmp"),
            Instruction::IntNegate => String::from_str("negtmp"),
            Instruction::FloatNegate => String::from_str("fnegtmp"),
            Instruction::Not => String::from_str("nottmp"),
            Instruction::Keep => String::from_str(""),
        }
    }
}

/// The name of a binary operator, as diagnostics of the generator give it.
pub open spec fn operator_name(op: BinaryOperator) -> Seq<char> {
    match op {
        BinaryOperator::Add => "Add"@,
        BinaryOperator::Subtract => "Subtract"@,
        BinaryOperator::Multiply => "Multiply"@,
        BinaryOperator::Divide => "Divide"@,
        BinaryOperator::Modulo => "Modulo"@,
        BinaryOperator::Equal => "Equal"@,
        BinaryOperator::NotEqual => "NotEqual"@,
        BinaryOperator::Less => "Less"@,
        BinaryOperator::LessEqual => "LessEqual"@,
        BinaryOperator::Greater => "Greater"@,
        BinaryOperator::GreaterEqual => "GreaterEqual"@,
        BinaryOperator::And => "And"@,
        BinaryOperator::Or => "Or"@,
    }
}

/// The name of a type, as diagnostics of the generator give it.
pub open spec fn variant_name(t: Type) -> Seq<char> {
    match t {
        Type::Inteiro => "Inteiro"@,
        Type::Decimal => "Decimal"@,
        Type::Texto => "Texto"@,
        Type::Logico => "Logico"@,
    }
}

fn operator_name_str(op: BinaryOperator) -> (r: &'static str)
    ensures
        r@ == operator_name(op),
{
    match op {
        BinaryOperator::Add => "Add",
        BinaryOperator::Subtract => "Subtract",
        BinaryOperator::Multiply => "Multiply",
        BinaryOperator::Divide => "Divide",
        BinaryOperator::Modulo => "Modulo",
        BinaryOperator::Equal => "Equal",
        BinaryOperator::NotEqual => "NotEqual",
        BinaryOperator::Less => "Less",
        BinaryOperator::LessEqual => "LessEqual",
        BinaryOperator::Greater => "Greater",
        BinaryOperator::GreaterEqual => "GreaterEqual",
        BinaryOperator::And => "And",
        BinaryOperator::Or => "Or",
    }
}

fn variant_name_str(t: Type) -> (r: &'static str)
    ensures
        r@ == variant_name(t),
{
    match t {
        Type::Inteiro => "Inteiro",
        Type::Decimal => "Decimal",
        Type::Texto => "Texto",
        Type::Logico => "Logico",
    }
}

impl InstructionError {
    /// The text of the diagnostic.
    pub open spec fn text(self) -> Seq<char> {
        match self {
            InstructionError::Integers(op) => "Operador binário não suportado para inteiros: "@
                + operator_name(op),
            InstructionError::Decimals(op) => "Operador binário não suportado para decimais: "@
                + operator_name(op),
            InstructionError::Booleans(op) => "Operador binário não suportado para booleanos: "@
                + operator_name(op),
            InstructionError::Incompatible(l, r) => "Tipos incompatíveis para operação binária: "@
                + variant_name(l) + " e "@ + variant_name(r),
            InstructionError::Negation => "Operador de negação só suportado para tipos numéricos"@,
            InstructionError::LogicalNegation => "Operador 'not' só suportado para booleanos"@,
        }
    }

    /// The text of the diagnostic.
    pub fn message(&self) -> (r: String)
        ensures
            r@ == self.text(),
    {
        match self {
            InstructionError::Integers(op) => join2(
                "Operador binário não suportado para inteiros: ",
                operator_name_str(*op),
            ),
            InstructionError::Decimals(op) => join2(
                "Operador binário não suportado para decimais: ",
                operator_name_str(*op),
            ),
            InstructionError::Booleans(op) => join2(
                "Operador binário não suportado para booleanos: ",
                operator_name_str(*op),
            ),
            InstructionError::Incompatible(l, r) => {
                let mut s = join3(
                    "Tipos incompatíveis para operação binária: ",
                    variant_name_str(*l),
                    " e ",
                );
                s.append(variant_name_str(*r));
                s
            },
            InstructionError::Negation => String::from_str(
                "Operador de negação só suportado para tipos numéricos",
            ),
            InstructionError::LogicalNegation => String::from_str(
                "Operador 'not' só suportado para booleanos",
            ),
        }
    }
}

} // verus!
