//! Arguments on the command line, the configuration, and counting test cases.

use funky::cli::{parse_arg, parse_args, Arg};
use funky::config::Configuration;
use funky::engine::import_resolver::Import;
use funky::engine::stack::{Frame, Label, StackContent};
use funky::spectest::{get_spectest_import, results_do_match, take_results, value_matches};
use funky::statistic::Statistic;
use funky::value::Value;

fn value(a: &str) -> Value {
    match parse_arg(a) {
        Some(Arg::Value(v)) => v,
        other => panic!("expected a value for {}, got {:?}", a, other),
    }
}

#[test]
fn integers_are_read_in_decimal() {
    assert_eq!(Value::I32(5), value("I32(5)"));
    assert_eq!(Value::I32(-17), value("I32(-17)"));
    assert_eq!(Value::I64(-3), value("I64(-3)"));
    assert_eq!(Value::I64(9_000_000_000), value("I64(9000000000)"));
}

#[test]
fn integers_beyond_the_signed_range_are_taken_by_their_bits() {
    assert_eq!(Value::I32(-1), value("I32(4294967295)"));
    assert_eq!(Value::I64(i64::MIN), value("I64(9223372036854775808)"));
    assert!(parse_arg("I32(4294967296)").is_none());
}

#[test]
fn floats_are_handed_out_as_text() {
    match parse_arg("F32(1.5)") {
        Some(Arg::F32Text(t)) => assert_eq!("1.5", t),
        other => panic!("{:?}", other),
    }
    match parse_arg("F64(-2)") {
        Some(Arg::F64Text(t)) => assert_eq!("-2", t),
        other => panic!("{:?}", other),
    }
}

#[test]
fn infinities_and_nans_have_their_bits() {
    assert_eq!(Value::F32(f32::INFINITY.to_bits()), value("F32(inf)"));
    assert_eq!(Value::F32((-f32::INFINITY).to_bits()), value("F32(-inf)"));
    assert_eq!(Value::F64(f64::INFINITY.to_bits()), value("F64(inf)"));
    assert_eq!(Value::F64((-f64::INFINITY).to_bits()), value("F64(-inf)"));
    assert_eq!(Value::F32(f32::NAN.to_bits()), value("F32(nan)"));
    assert_eq!(Value::F64(f64::NAN.to_bits()), value("F64(nan)"));
}

#[test]
fn unknown_arguments_are_refused_with_their_index() {
    assert!(parse_arg("X(1)").is_none());
    let r = parse_args(vec!["I32(1)".to_string(), "nothing".to_string(), "I32(2)".to_string()]);
    assert_eq!(Some(1), r.err());
    let ok = parse_args(vec!["I32(1)".to_string(), "I64(2)".to_string()]).unwrap();
    assert_eq!(2, ok.len());
}

#[test]
fn configuration_turns_on_the_debugger() {
    let mut c = Configuration::new();
    assert!(!c.uses_debugger());
    c.enable_debugger();
    assert!(c.uses_debugger());
}

#[test]
fn statistic_counts_cases() {
    let mut s = Statistic::new("f.json".to_string());
    assert_eq!(0, s.get_total());
    s.register(5);
    s.success();
    s.success();
    assert_eq!(2, s.get_successes());
    assert_eq!(5, s.get_total());
    s.failed(vec![Value::I32(1)], "case 3".to_string());
    assert_eq!(2, s.get_successes());
}

#[test]
fn spectest_imports_are_four_globals_and_a_table() {
    let imports = get_spectest_import();
    assert_eq!(5, imports.len());
    match &imports[0] {
        Import::Global(m, n, g) => {
            assert_eq!("spectest", m);
            assert_eq!("global_i32", n);
            assert_eq!(Value::I32(666), g.val);
            assert!(!g.mutable);
        }
        _ => panic!("expected a global"),
    }
    match &imports[2] {
        Import::Global(_, n, g) => {
            assert_eq!("global_f32", n);
            assert_eq!(Value::F32(666.6f32.to_bits()), g.val);
        }
        _ => panic!("expected a global"),
    }
    match &imports[3] {
        Import::Global(_, n, g) => {
            assert_eq!("global_f64", n);
            assert_eq!(Value::F64(666.6f64.to_bits()), g.val);
        }
        _ => panic!("expected a global"),
    }
    match &imports[4] {
        Import::Table(_, n, t) => {
            assert_eq!("table", n);
            assert_eq!(10, t.elem.len());
            assert_eq!(Some(20), t.max);
        }
        _ => panic!("expected a table"),
    }
}

#[test]
fn results_are_the_values_on_top_in_stack_order() {
    let mut stack = vec![
        StackContent::Value(Value::I32(9)),
        StackContent::Frame(Frame { arity: 0, locals: vec![] }),
        StackContent::Label(Label::new(0, 0)),
        StackContent::Value(Value::I32(1)),
        StackContent::Value(Value::I64(2)),
    ];
    let r = take_results(&mut stack);
    assert_eq!(vec![Value::I32(1), Value::I64(2)], r);
    assert_eq!(2, stack.len());
    let r = take_results(&mut stack);
    assert!(r.is_empty());
    assert_eq!(1, stack.len());
    let r = take_results(&mut stack);
    assert_eq!(vec![Value::I32(9)], r);
    assert!(stack.is_empty());
}

#[test]
fn values_match_as_floats_with_nans_alike() {
    let nan1 = Value::F32(0x7fc0_0000);
    let nan2 = Value::F32(0xffc0_0001);
    assert!(value_matches(nan1, nan2));
    assert!(!value_matches(nan1, Value::F32(1.0f32.to_bits())));
    assert!(value_matches(Value::F32(0.0f32.to_bits()), Value::F32((-0.0f32).to_bits())));
    assert!(value_matches(Value::F64(f64::NAN.to_bits()), Value::F64((-f64::NAN).to_bits())));
    assert!(!value_matches(Value::F64(1.0f64.to_bits()), Value::F64(2.0f64.to_bits())));
    assert!(value_matches(Value::I32(3), Value::I32(3)));
    assert!(!value_matches(Value::I32(3), Value::I64(3)));
}

#[test]
fn results_match_index_by_index_over_the_actuals() {
    assert!(results_do_match(&[], &[Value::I32(1)]));
    assert!(results_do_match(&[Value::I32(1)], &[Value::I32(1), Value::I32(2)]));
    assert!(!results_do_match(&[Value::I32(1), Value::I32(2)], &[Value::I32(1)]));
    assert!(!results_do_match(&[Value::I32(2)], &[Value::I32(1)]));
}
