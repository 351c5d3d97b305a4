use midenc::variables::{DeclareVariableError, UseVariableError, Variable, VariableTypes};

#[test]
fn declared_variable_is_usable_with_its_type() {
    let mut table: VariableTypes<&str> = VariableTypes::new();
    assert_eq!(table.try_declare_var(Variable(3), "i32"), Ok(()));
    assert_eq!(table.try_use_var_type(Variable(3)), Ok(&"i32"));
    assert_eq!(table.variable_type(Variable(3)), Some(&"i32"));
    assert_eq!(table.variable_type(Variable(1)), None);
}

#[test]
fn declaring_twice_is_refused() {
    let mut table: VariableTypes<&str> = VariableTypes::new();
    table.declare_var(Variable(0), "felt");
    assert_eq!(
        table.try_declare_var(Variable(0), "u32"),
        Err(DeclareVariableError::DeclaredMultipleTimes(Variable(0)))
    );
    assert_eq!(table.variable_type(Variable(0)), Some(&"felt"));
}

#[test]
fn declare_only_keeps_the_first_type() {
    let mut table: VariableTypes<&str> = VariableTypes::new();
    table.declare_var_only(Variable(2), "felt");
    table.declare_var_only(Variable(2), "u32");
    assert_eq!(table.variable_type(Variable(2)), Some(&"felt"));
}

#[test]
fn using_an_unknown_variable_is_an_error() {
    let mut table: VariableTypes<&str> = VariableTypes::new();
    assert_eq!(table.try_use_var_type(Variable(5)), Err(UseVariableError::UsedBeforeDeclared(Variable(5))));
    table.declare_var(Variable(1), "i64");
    assert_eq!(table.try_use_var_type(Variable(9)), Err(UseVariableError::UsedBeforeDeclared(Variable(9))));
}
