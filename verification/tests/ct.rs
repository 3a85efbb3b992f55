use mojito::ct::{CtExpr, CtValue};
use mojito::table::{NameMap, TyTable};
use mojito::types::Ty;

fn value(n: i64) -> Box<CtExpr> {
    Box::new(CtExpr::Value(CtValue::Int(n)))
}

#[test]
fn compile_time_arithmetic() {
    let mut values = NameMap::new();
    values.insert("n".to_string(), CtValue::Int(4));
    let n = || Box::new(CtExpr::Param("n".into()));
    assert_eq!(CtExpr::Add(n(), value(3)).eval(&values).unwrap(), CtValue::Int(7));
    assert_eq!(CtExpr::FloorDiv(value(-7), value(2)).eval(&values).unwrap(), CtValue::Int(-4));
    assert_eq!(CtExpr::Mod(value(-7), value(2)).eval(&values).unwrap(), CtValue::Int(1));
    assert_eq!(CtExpr::Pow(n(), value(3)).eval(&values).unwrap(), CtValue::Int(64));
    assert_eq!(CtExpr::Neg(n()).eval(&values).unwrap(), CtValue::Int(-4));
    assert!(CtExpr::Mod(n(), value(0)).eval(&values).is_err());
    assert!(CtExpr::Pow(value(10), value(-1)).eval(&values).is_err());
    assert_eq!(CtExpr::Pow(value(3), value(41)).eval(&values).unwrap(), CtValue::Int(3i64.wrapping_pow(41)));
    assert!(CtExpr::Param("m".into()).eval(&values).is_err());
}

#[test]
fn parameters_are_collected() {
    let n = || Box::new(CtExpr::Param("n".into()));
    let mut names = vec![];
    CtExpr::Mul(n(), Box::new(CtExpr::Add(n(), Box::new(CtExpr::Param("m".into()))))).referenced_parameters(&mut names);
    names.sort();
    names.dedup();
    assert_eq!(names, vec!["m".to_string(), "n".to_string()]);
}

#[test]
fn a_table_gives_back_what_was_put() {
    let mut table = TyTable::new();
    table.insert(3, Ty::Int);
    table.insert(5, Ty::Bool);
    table.insert(3, Ty::UInt);
    assert_eq!(table.get(3), Some(&Ty::UInt));
    assert_eq!(table.get(5), Some(&Ty::Bool));
    assert_eq!(table.get(4), None);
}
