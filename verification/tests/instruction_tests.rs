use compiler::ast::{BinaryOperator, Type, UnaryOperator};
use compiler::instruction::{
    binary_instruction, comparison, unary_instruction, Comparison, Instruction, InstructionError,
};

#[test]
fn instructions_on_integers() {
    let i = |op| binary_instruction(op, Type::Inteiro, Type::Inteiro);
    assert_eq!(i(BinaryOperator::Add), Ok(Instruction::IntAdd));
    assert_eq!(i(BinaryOperator::Subtract), Ok(Instruction::IntSub));
    assert_eq!(i(BinaryOperator::Multiply), Ok(Instruction::IntMul));
    assert_eq!(i(BinaryOperator::Divide), Ok(Instruction::IntSignedDiv));
    assert_eq!(i(BinaryOperator::Modulo), Ok(Instruction::IntSignedRem));
    assert_eq!(i(BinaryOperator::Less), Ok(Instruction::IntCompare(Comparison::Less)));
    assert_eq!(i(BinaryOperator::NotEqual), Ok(Instruction::IntCompare(Comparison::NotEqual)));
    assert_eq!(i(BinaryOperator::And), Err(InstructionError::Integers(BinaryOperator::And)));
    assert_eq!(
        i(BinaryOperator::Or).unwrap_err().message(),
        "Operador binário não suportado para inteiros: Or"
    );
}

#[test]
fn instructions_on_decimals_and_logical_values() {
    let d = |op| binary_instruction(op, Type::Decimal, Type::Decimal);
    assert_eq!(d(BinaryOperator::Divide), Ok(Instruction::FloatDiv));
    assert_eq!(d(BinaryOperator::GreaterEqual), Ok(Instruction::FloatCompare(Comparison::GreaterEqual)));
    assert_eq!(d(BinaryOperator::Modulo), Err(InstructionError::Decimals(BinaryOperator::Modulo)));
    assert_eq!(
        d(BinaryOperator::Modulo).unwrap_err().message(),
        "Operador binário não suportado para decimais: Modulo"
    );
    let b = |op| binary_instruction(op, Type::Logico, Type::Logico);
    assert_eq!(b(BinaryOperator::And), Ok(Instruction::And));
    assert_eq!(b(BinaryOperator::Or), Ok(Instruction::Or));
    assert_eq!(b(BinaryOperator::Equal), Ok(Instruction::BoolEqual));
    assert_eq!(b(BinaryOperator::NotEqual), Ok(Instruction::BoolNotEqual));
    assert_eq!(b(BinaryOperator::Less), Err(InstructionError::Booleans(BinaryOperator::Less)));
    assert_eq!(
        b(BinaryOperator::Add).unwrap_err().message(),
        "Operador binário não suportado para booleanos: Add"
    );
}

#[test]
fn operands_of_different_types_get_no_instruction() {
    let e = binary_instruction(BinaryOperator::Add, Type::Inteiro, Type::Decimal).unwrap_err();
    assert_eq!(e, InstructionError::Incompatible(Type::Inteiro, Type::Decimal));
    assert_eq!(e.message(), "Tipos incompatíveis para operação binária: Inteiro e Decimal");
    let e = binary_instruction(BinaryOperator::Equal, Type::Texto, Type::Texto).unwrap_err();
    assert_eq!(e.message(), "Tipos incompatíveis para operação binária: Texto e Texto");
}

#[test]
fn unary_instructions() {
    assert_eq!(unary_instruction(UnaryOperator::Negate, Type::Inteiro), Ok(Instruction::IntNegate));
    assert_eq!(unary_instruction(UnaryOperator::Negate, Type::Decimal), Ok(Instruction::FloatNegate));
    assert_eq!(unary_instruction(UnaryOperator::Not, Type::Logico), Ok(Instruction::Not));
    assert_eq!(unary_instruction(UnaryOperator::Plus, Type::Texto), Ok(Instruction::Keep));
    assert_eq!(
        unary_instruction(UnaryOperator::Negate, Type::Logico).unwrap_err().message(),
        "Operador de negação só suportado para tipos numéricos"
    );
    assert_eq!(
        unary_instruction(UnaryOperator::Not, Type::Inteiro).unwrap_err().message(),
        "Operador 'not' só suportado para booleanos"
    );
}

#[test]
fn result_names() {
    assert_eq!(Instruction::IntAdd.name(), "addtmp");
    assert_eq!(Instruction::IntSignedRem.name(), "modtmp");
    assert_eq!(Instruction::IntCompare(Comparison::Less).name(), "lttmp");
    assert_eq!(Instruction::IntCompare(Comparison::Equal).name(), "eqtmp");
    assert_eq!(Instruction::FloatCompare(Comparison::GreaterEqual).name(), "fgetmp");
    assert_eq!(Instruction::FloatMul.name(), "fmultmp");
    assert_eq!(Instruction::BoolNotEqual.name(), "boolnetmp");
    assert_eq!(Instruction::Not.name(), "nottmp");
    assert_eq!(Instruction::FloatNegate.name(), "fnegtmp");
    assert_eq!(Instruction::Keep.name(), "");
    assert_eq!(comparison(BinaryOperator::Add), None);
    assert_eq!(comparison(BinaryOperator::Greater), Some(Comparison::Greater));
}
