use rubrs::environment::Environment;
use rubrs::number::Number;
use rubrs::token::{Token, TokenType};
use rubrs::value::{Function, NativeFunction, Output, Value};

fn num(x: f64) -> Number {
    Number { bits: x.to_bits() }
}

fn samples() -> Vec<f64> {
    vec![
        0.0,
        -0.0,
        1.0,
        -1.0,
        0.5,
        -0.5,
        2.0,
        1e300,
        -1e300,
        f64::MIN_POSITIVE,
        -f64::MIN_POSITIVE,
        5e-324,
        -5e-324,
        f64::MAX,
        f64::MIN,
        f64::INFINITY,
        f64::NEG_INFINITY,
        f64::NAN,
        -f64::NAN,
        f64::from_bits(0x7ff0_0000_0000_0001),
        f64::from_bits(0xfff8_0000_0000_0001),
        3.141592653589793,
        1234.5,
        -1234.5,
    ]
}

#[test]
fn number_equality_is_ieee() {
    for a in samples() {
        for b in samples() {
            assert_eq!(num(a).equals(num(b)), a == b, "{} == {}", a, b);
        }
    }
}

#[test]
fn number_order_is_ieee() {
    for a in samples() {
        for b in samples() {
            assert_eq!(num(a).less_than(num(b)), a < b, "{} < {}", a, b);
            assert_eq!(num(a).at_most(num(b)), a <= b, "{} <= {}", a, b);
        }
    }
}

#[test]
fn number_negation_flips_the_sign() {
    for a in samples() {
        assert_eq!(num(a).negate().bits, (-a).to_bits());
    }
    assert_eq!(num(1.5).negate(), num(-1.5));
    assert_eq!(num(0.0).negate(), num(-0.0));
}

#[test]
fn number_nan() {
    for a in samples() {
        assert_eq!(num(a).nan(), a.is_nan());
    }
    assert!(!num(f64::INFINITY).nan());
    assert!(num(f64::NAN).nan());
}

fn name(text: &str) -> Token {
    Token::new(TokenType::Identifier(text.to_string()), text.to_string(), 1)
}

fn function(text: &str, closure: usize) -> Value {
    Value::Function(Function { name: name(text), parameters: vec![name("a")], body: vec![], closure })
}

fn text(s: &str) -> Value {
    Value::String(s.to_string())
}

#[test]
fn truthiness_of_values() {
    assert!(!Value::Nil.to_boolean());
    assert!(!Value::Boolean(false).to_boolean());
    assert!(Value::Boolean(true).to_boolean());
    assert!(Value::Number(num(0.0)).to_boolean());
    assert!(Value::Number(num(f64::NAN)).to_boolean());
    assert!(text("").to_boolean());
    assert!(text("a").to_boolean());
    assert!(function("f", 0).to_boolean());
    assert!(Value::NativeFunction(NativeFunction::Clock).to_boolean());
}

#[test]
fn to_number_takes_numbers_only() {
    assert_eq!(Value::Number(num(2.5)).to_number(), Ok(num(2.5)));
    assert_eq!(Value::Nil.to_number().unwrap_err(), "Cannot convert nil to number.");
    assert_eq!(Value::Boolean(true).to_number().unwrap_err(), "Cannot convert boolean to number.");
    assert_eq!(text("1").to_number().unwrap_err(), "Cannot convert string to number.");
    assert_eq!(function("f", 0).to_number().unwrap_err(), "Cannot convert function to number.");
    assert_eq!(
        Value::NativeFunction(NativeFunction::Clock).to_number().unwrap_err(),
        "Cannot convert native function to number."
    );
}

#[test]
fn value_equality() {
    assert!(Value::Nil.equals(&Value::Nil));
    assert!(Value::Boolean(true).equals(&Value::Boolean(true)));
    assert!(!Value::Boolean(true).equals(&Value::Boolean(false)));
    assert!(Value::Number(num(1.0)).equals(&Value::Number(num(1.0))));
    assert!(Value::Number(num(0.0)).equals(&Value::Number(num(-0.0))));
    assert!(!Value::Number(num(f64::NAN)).equals(&Value::Number(num(f64::NAN))));
    assert!(text("a").equals(&text("a")));
    assert!(!text("a").equals(&text("b")));
    assert!(function("f", 0).equals(&function("f", 3)));
    assert!(!function("f", 0).equals(&function("g", 0)));
    assert!(Value::NativeFunction(NativeFunction::Clock).equals(&Value::NativeFunction(NativeFunction::Clock)));
}

#[test]
fn values_of_different_variants_are_never_equal() {
    let values = vec![
        Value::Nil,
        Value::Boolean(false),
        Value::Number(num(0.0)),
        text(""),
        function("clock", 0),
        Value::NativeFunction(NativeFunction::Clock),
    ];
    for (i, a) in values.iter().enumerate() {
        for (j, b) in values.iter().enumerate() {
            assert_eq!(a.equals(b), i == j);
        }
    }
}

#[test]
fn printed_values() {
    assert_eq!(Value::Nil.printed(), Output::Text("nil".to_string()));
    assert_eq!(Value::Boolean(true).printed(), Output::Text("true".to_string()));
    assert_eq!(Value::Boolean(false).printed(), Output::Text("false".to_string()));
    assert_eq!(Value::Number(num(2.5)).printed(), Output::Number(num(2.5)));
    assert_eq!(text("raw \"text\"").printed(), Output::Text("raw \"text\"".to_string()));
    assert_eq!(function("add", 0).printed(), Output::Text("<fn add>".to_string()));
    assert_eq!(
        Value::NativeFunction(NativeFunction::Clock).printed(),
        Output::Text("<native fn Clock>".to_string())
    );
}

#[test]
fn arities() {
    assert_eq!(NativeFunction::Clock.arity(), 0);
    assert_eq!(NativeFunction::Clock.name(), "Clock");
    match function("f", 0) {
        Value::Function(f) => assert_eq!(f.arity(), 1),
        _ => unreachable!(),
    }
}

#[test]
fn values_clone_deeply() {
    let f = function("f", 2);
    let copy = f.clone();
    match (f, copy) {
        (Value::Function(a), Value::Function(b)) => {
            assert_eq!(a.name, b.name);
            assert_eq!(a.parameters, b.parameters);
            assert_eq!(a.body, b.body);
            assert_eq!(a.closure, b.closure);
        }
        _ => unreachable!(),
    }
    assert!(text("abc").clone().equals(&text("abc")));
    assert!(Value::Number(num(1.5)).clone().equals(&Value::Number(num(1.5))));
}

fn get(env: &Environment, scope: usize, name_text: &str) -> Result<String, String> {
    env.get(scope, &name(name_text)).map(|v| match v.printed() {
        Output::Text(t) => t,
        Output::Number(n) => format!("{}", f64::from_bits(n.bits)),
    })
}

#[test]
fn new_environment_has_one_empty_scope() {
    let mut env = Environment::new();
    assert_eq!(get(&env, 0, "a").unwrap_err(), "Undefined variable 'a'.");
    assert_eq!(env.new_enclosed(0), 1);
    assert_eq!(env.new_enclosed(0), 2);
    assert_eq!(env.new_enclosed(2), 3);
}

#[test]
fn define_writes_into_the_given_scope() {
    let mut env = Environment::new();
    let inner = env.new_enclosed(0);
    env.define(inner, "a".to_string(), text("inner"));
    assert_eq!(get(&env, inner, "a").unwrap(), "inner");
    assert_eq!(get(&env, 0, "a").unwrap_err(), "Undefined variable 'a'.");
    env.define(0, "a".to_string(), text("outer"));
    assert_eq!(get(&env, inner, "a").unwrap(), "inner");
    assert_eq!(get(&env, 0, "a").unwrap(), "outer");
}

#[test]
fn define_overwrites() {
    let mut env = Environment::new();
    env.define(0, "a".to_string(), text("first"));
    env.define(0, "b".to_string(), text("other"));
    env.define(0, "a".to_string(), text("second"));
    assert_eq!(get(&env, 0, "a").unwrap(), "second");
    assert_eq!(get(&env, 0, "b").unwrap(), "other");
}

#[test]
fn get_finds_the_innermost_binding() {
    let mut env = Environment::new();
    let middle = env.new_enclosed(0);
    let inner = env.new_enclosed(middle);
    let sibling = env.new_enclosed(0);
    env.define(0, "a".to_string(), text("outer a"));
    env.define(0, "b".to_string(), text("outer b"));
    env.define(middle, "a".to_string(), text("middle a"));
    assert_eq!(get(&env, inner, "a").unwrap(), "middle a");
    assert_eq!(get(&env, inner, "b").unwrap(), "outer b");
    assert_eq!(get(&env, sibling, "a").unwrap(), "outer a");
    assert_eq!(get(&env, inner, "c").unwrap_err(), "Undefined variable 'c'.");
}

#[test]
fn assign_writes_to_the_innermost_scope_that_binds_the_name() {
    let mut env = Environment::new();
    let middle = env.new_enclosed(0);
    let inner = env.new_enclosed(middle);
    env.define(0, "a".to_string(), text("outer"));
    env.define(middle, "a".to_string(), text("middle"));
    assert_eq!(env.assign(inner, &name("a"), text("changed")), Ok(()));
    assert_eq!(get(&env, inner, "a").unwrap(), "changed");
    assert_eq!(get(&env, middle, "a").unwrap(), "changed");
    assert_eq!(get(&env, 0, "a").unwrap(), "outer");
}

#[test]
fn assign_creates_no_binding() {
    let mut env = Environment::new();
    let inner = env.new_enclosed(0);
    env.define(0, "a".to_string(), text("outer"));
    assert_eq!(env.assign(inner, &name("a"), text("changed")), Ok(()));
    // The inner scope still has no binding of its own: a definition there
    // leaves the outer one alone.
    env.define(inner, "a".to_string(), text("inner"));
    assert_eq!(get(&env, 0, "a").unwrap(), "changed");
    assert_eq!(get(&env, inner, "a").unwrap(), "inner");
}

#[test]
fn assign_to_unbound_name_fails_and_changes_nothing() {
    let mut env = Environment::new();
    let inner = env.new_enclosed(0);
    let sibling = env.new_enclosed(0);
    env.define(sibling, "a".to_string(), text("sibling"));
    assert_eq!(env.assign(inner, &name("a"), text("x")).unwrap_err(), "Undefined variable 'a'.");
    assert_eq!(get(&env, inner, "a").unwrap_err(), "Undefined variable 'a'.");
    assert_eq!(get(&env, 0, "a").unwrap_err(), "Undefined variable 'a'.");
    assert_eq!(get(&env, sibling, "a").unwrap(), "sibling");
}

#[test]
fn writes_are_seen_through_every_holder() {
    let mut env = Environment::new();
    let shared = env.new_enclosed(0);
    let first = env.new_enclosed(shared);
    let second = env.new_enclosed(shared);
    env.define(shared, "n".to_string(), Value::Number(num(0.0)));
    assert_eq!(env.assign(first, &name("n"), Value::Number(num(1.0))), Ok(()));
    assert_eq!(get(&env, second, "n").unwrap(), "1");
    assert_eq!(env.assign(second, &name("n"), Value::Number(num(2.0))), Ok(()));
    assert_eq!(get(&env, first, "n").unwrap(), "2");
}

#[test]
fn names_are_compared_whole() {
    let mut env = Environment::new();
    env.define(0, "ab".to_string(), text("ab"));
    env.define(0, "a".to_string(), text("a"));
    env.define(0, "abc".to_string(), text("abc"));
    assert_eq!(get(&env, 0, "a").unwrap(), "a");
    assert_eq!(get(&env, 0, "ab").unwrap(), "ab");
    assert_eq!(get(&env, 0, "abc").unwrap(), "abc");
    assert_eq!(get(&env, 0, "").unwrap_err(), "Undefined variable ''.");
}
