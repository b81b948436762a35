use std::sync::Arc;

use fyfth::environment::FyfthEnvironment;
use fyfth::host::{
    FyfthBinaryOp, FyfthCommandError, FyfthComponentInfo, FyfthContext, FyfthError, FyfthFieldRead,
    FyfthFieldWrite, FyfthHost, FyfthUnaryOp,
};
use fyfth::interpreter::FyfthInterpreter;
use fyfth::run::ITERATION_LIMIT;
use fyfth::language::{
    FyfthBroadcastBehavior, FyfthConflict, FyfthFunc, FyfthLanguageExtension, FyfthPrefixParser,
};
use fyfth::num::FyfthNum;
use fyfth::variant::FyfthVariant;

type Quad = (FyfthNum, FyfthNum, FyfthNum, FyfthNum);

fn bits(value: f32) -> FyfthNum {
    FyfthNum::from_bits(value.to_bits())
}

fn float(number: FyfthNum) -> f32 {
    f32::from_bits(number.bits)
}

fn num(value: f32) -> FyfthVariant {
    FyfthVariant::Num(bits(value))
}

fn text(value: &str) -> FyfthVariant {
    FyfthVariant::Literal(value.to_string())
}

fn same(left: &[FyfthVariant], right: &[FyfthVariant]) -> bool {
    left.len() == right.len() && left.iter().zip(right.iter()).all(|(a, b)| a.same_value(b))
}

fn entity(index: u32) -> u64 {
    bevy::ecs::entity::Entity::from_raw(index).to_bits()
}

struct TestHost {
    names: Vec<(u64, Option<String>, bool)>,
    fields: Vec<Vec<(String, FyfthVariant)>>,
    inserted: Vec<(u64, u64)>,
}

impl TestHost {
    fn new() -> Self {
        TestHost {
            names: vec![
                (entity(1), Some("Main Camera".to_string()), true),
                (entity(2), Some("debug cube 0".to_string()), true),
                (entity(3), None, true),
                (entity(4), Some("hidden".to_string()), false),
            ],
            fields: vec![vec![("speed".to_string(), num(2.0))]],
            inserted: Vec::new(),
        }
    }
}

impl FyfthHost for TestHost {
    fn parse_number(&self, text: &str) -> Option<FyfthNum> {
        text.parse::<f32>().ok().map(bits)
    }

    fn format_number(&self, number: FyfthNum) -> String {
        format!("{}", float(number))
    }

    fn number_from_integer(&self, whole: i64) -> FyfthNum {
        bits(whole as f32)
    }

    fn binary(&self, op: FyfthBinaryOp, left: FyfthNum, right: FyfthNum) -> FyfthNum {
        let (a, b) = (float(left), float(right));
        bits(match op {
            FyfthBinaryOp::Add => a + b,
            FyfthBinaryOp::Sub => a - b,
            FyfthBinaryOp::Mul => a * b,
            FyfthBinaryOp::Div => a / b,
            FyfthBinaryOp::Atan2 => a.atan2(b),
        })
    }

    fn unary(&self, op: FyfthUnaryOp, operand: FyfthNum) -> FyfthNum {
        let a = float(operand);
        bits(match op {
            FyfthUnaryOp::Sin => a.sin(),
            FyfthUnaryOp::Cos => a.cos(),
            FyfthUnaryOp::Tan => a.tan(),
            FyfthUnaryOp::Atan => a.atan(),
        })
    }

    fn quat_mul(&self, left: Quad, _right: Quad) -> Quad {
        left
    }

    fn quat_normalize(&self, quat: Quad) -> Quad {
        let (x, y, z, w) = (float(quat.0), float(quat.1), float(quat.2), float(quat.3));
        let length = (x * x + y * y + z * z + w * w).sqrt();
        (bits(x / length), bits(y / length), bits(z / length), bits(w / length))
    }

    fn entities(&mut self) -> Vec<u64> {
        self.names.iter().filter(|n| n.2).map(|n| n.0).collect()
    }

    fn visible_entity_name(&mut self, entity: u64) -> Option<String> {
        self.names.iter().find(|n| n.0 == entity && n.2).and_then(|n| n.1.clone())
    }

    fn entity_name(&self, entity: u64) -> Option<String> {
        self.names.iter().find(|n| n.0 == entity).and_then(|n| n.1.clone())
    }

    fn component_types(&self) -> Vec<FyfthComponentInfo> {
        vec![
            FyfthComponentInfo {
                full_path: "game::Mover".to_string(),
                type_ident: Some("Mover".to_string()),
            },
            FyfthComponentInfo {
                full_path: "game::Movable".to_string(),
                type_ident: Some("Movable".to_string()),
            },
        ]
    }

    fn extract_component(&mut self, type_index: usize, entity: u64) -> Option<u64> {
        if type_index == 0 && entity == self::entity(2) {
            Some(0)
        } else {
            None
        }
    }

    fn insert_component(&mut self, entity: u64, component: u64) {
        self.inserted.push((entity, component));
    }

    fn component_type_path(&self, _component: u64) -> String {
        "game::Mover".to_string()
    }

    fn component_type_ident(&self, _component: u64) -> Option<String> {
        Some("Mover".to_string())
    }

    fn component_text(&self, component: u64) -> String {
        format!("Mover#{}", component)
    }

    fn read_field(&mut self, component: u64, field: &str) -> FyfthFieldRead {
        match self.fields.get(component as usize) {
            None => FyfthFieldRead::NotAStruct,
            Some(fields) => match fields.iter().find(|f| f.0 == field) {
                Some(found) => FyfthFieldRead::Value(found.1.clone()),
                None => FyfthFieldRead::NoSuchField,
            },
        }
    }

    fn write_field(&mut self, component: u64, field: &str, value: &FyfthVariant) -> FyfthFieldWrite {
        let Some(fields) = self.fields.get(component as usize) else {
            return FyfthFieldWrite::NotAStruct;
        };
        let Some(at) = fields.iter().position(|f| f.0 == field) else {
            return FyfthFieldWrite::NoSuchField;
        };
        if !matches!(value, FyfthVariant::Num(_)) {
            return FyfthFieldWrite::Rejected;
        }
        let mut changed = fields.clone();
        changed[at].1 = value.clone();
        self.fields.push(changed);
        FyfthFieldWrite::Written(self.fields.len() as u64 - 1)
    }

    fn call(
        &mut self,
        code: u32,
        output: &mut String,
        vars: &mut FyfthEnvironment,
        _lang: &FyfthLanguageExtension,
        args: &[FyfthVariant],
    ) -> Result<Option<FyfthVariant>, FyfthCommandError> {
        match code {
            0 => Ok(Some(FyfthVariant::Bool(args.is_empty()))),
            1 => {
                output.push_str("hello from the host");
                vars.insert("touched".to_string(), FyfthVariant::Bool(true));
                Ok(None)
            }
            2 => Err(FyfthCommandError::DomainError),
            _ => {
                output.push_str("Error: entity no longer exists.");
                Err(FyfthCommandError::DomainError)
            }
        }
    }

    fn expand_prefix(
        &self,
        code: u32,
        word: &str,
        _lang: &FyfthLanguageExtension,
    ) -> Result<Vec<FyfthVariant>, ()> {
        if code == 0 {
            Ok(vec![text(word), text(word)])
        } else {
            Err(())
        }
    }
}

fn interpreter() -> FyfthInterpreter {
    FyfthInterpreter::new(Arc::new(FyfthLanguageExtension::base_fyfth()))
}

fn run(source: &str) -> (FyfthInterpreter, String, Result<(), FyfthError>) {
    let mut host = TestHost::new();
    let mut interpreter = interpreter();
    interpreter.parse_code(source, &host).unwrap();
    let (output, result) = interpreter.run(&mut host);
    (interpreter, output, result)
}

fn stack_after(source: &str) -> Vec<FyfthVariant> {
    let (interpreter, output, result) = run(source);
    assert_eq!(result, Ok(()), "{}", output);
    assert_eq!(interpreter.queue_len(), 0);
    interpreter.stack().clone()
}

fn error_of(source: &str) -> FyfthError {
    let (_, output, result) = run(source);
    assert!(!output.is_empty());
    result.unwrap_err()
}

fn iter(items: Vec<FyfthVariant>) -> FyfthVariant {
    FyfthVariant::Iter(items)
}

#[test]
fn values_are_pushed_in_order() {
    let stack = stack_after("1 \"two\" true false nil 2.5 bare");
    assert!(same(
        &stack,
        &[
            num(1.0),
            text("two"),
            FyfthVariant::Bool(true),
            FyfthVariant::Bool(false),
            FyfthVariant::Nil,
            num(2.5),
            text("bare"),
        ]
    ));
}

#[test]
fn quoted_number_stays_a_text() {
    assert!(same(&stack_after("\"12\" \"nil\" \"dup\""), &[text("12"), text("nil"), text("dup")]));
}

#[test]
fn dup_on_one_item() {
    assert!(same(&stack_after("5 dup"), &[num(5.0), num(5.0)]));
}

#[test]
fn dup_on_empty_stack_does_nothing() {
    assert!(stack_after("dup").is_empty());
}

#[test]
fn swap_on_two_items() {
    assert!(same(&stack_after("1 2 swap"), &[num(2.0), num(1.0)]));
}

#[test]
fn swap_needs_two_items() {
    let (interpreter, output, result) = run("1 swap 7");
    assert_eq!(result, Err(FyfthError::SyntaxError));
    assert_eq!(output, "Syntax error: `swap` expects two items on the stack");
    assert!(interpreter.stack().is_empty());
    assert_eq!(interpreter.queue_len(), 1);
}

#[test]
fn rotr_with_size_three() {
    assert!(same(&stack_after("a b c 3 rotr"), &[text("c"), text("a"), text("b")]));
}

#[test]
fn rotl_with_size_three() {
    assert!(same(&stack_after("a b c 3 rotl"), &[text("b"), text("c"), text("a")]));
}

#[test]
fn rotations_of_a_part_of_the_stack() {
    assert!(same(
        &stack_after("a b c d 2 rotr"),
        &[text("a"), text("b"), text("d"), text("c")]
    ));
    assert!(same(
        &stack_after("a b c d 3 rotl"),
        &[text("a"), text("c"), text("d"), text("b")]
    ));
    assert!(same(&stack_after("a b 1 rotr"), &[text("a"), text("b")]));
    assert!(same(&stack_after("a b 0 rotl"), &[text("a"), text("b")]));
    assert!(same(&stack_after("a b 2.9 rotr"), &[text("b"), text("a")]));
}

#[test]
fn rotations_fail_out_of_range() {
    assert_eq!(error_of("a b 3 rotr"), FyfthError::DomainError);
    assert_eq!(error_of("a b -1 rotl"), FyfthError::DomainError);
    assert_eq!(error_of("a b rotr"), FyfthError::SyntaxError);
    assert_eq!(error_of("rotl"), FyfthError::SyntaxError);
}

#[test]
fn swap_n_exchanges_with_the_item_n_below() {
    assert!(same(
        &stack_after("a b c d 2 swap_n"),
        &[text("a"), text("d"), text("c"), text("b")]
    ));
    assert!(same(&stack_after("a b 0 swap_n"), &[text("a"), text("b")]));
    assert!(same(&stack_after("a b c 1 swap_n"), &[text("a"), text("c"), text("b")]));
}

#[test]
fn swap_n_fails_out_of_range() {
    assert_eq!(error_of("a b 2 swap_n"), FyfthError::DomainError);
    assert_eq!(error_of("a b 1 swap_n"), FyfthError::DomainError);
    assert_eq!(error_of("a 0 swap_n"), FyfthError::DomainError);
    assert_eq!(error_of("a b -1 swap_n"), FyfthError::DomainError);
    assert_eq!(error_of("a b swap_n"), FyfthError::SyntaxError);
}

#[test]
fn iter_collects_the_whole_stack() {
    let stack = stack_after("1 2 3 iter");
    assert!(same(&stack, &[iter(vec![num(1.0), num(2.0), num(3.0)])]));
    assert!(same(&stack_after("iter"), &[iter(vec![])]));
}

#[test]
fn push_spreads_a_sequence() {
    assert!(same(&stack_after("1 2 iter push"), &[num(1.0), num(2.0)]));
    assert_eq!(error_of("1 push"), FyfthError::TypeError);
    assert_eq!(error_of("push"), FyfthError::TypeError);
}

#[test]
fn queue_runs_a_sequence_next_and_in_order() {
    assert!(same(&stack_after("1 2 iter queue 3"), &[num(1.0), num(2.0), num(3.0)]));
    assert_eq!(error_of("1 queue"), FyfthError::TypeError);
}

#[test]
fn line_end_is_a_no_op() {
    assert!(same(&stack_after("1 ; 2 ;"), &[num(1.0), num(2.0)]));
}

#[test]
fn macro_is_captured_and_run() {
    let stack = stack_after("macro \"foo\" 1 2 add ;\n\"foo\" load queue");
    assert!(same(&stack, &[num(3.0)]));
}

#[test]
fn macro_is_run_by_its_prefix() {
    let stack = stack_after("macro foo 1 2 add ;\n$foo");
    assert!(same(&stack, &[num(3.0)]));
}

#[test]
fn macro_body_is_stored_unexecuted() {
    let (interpreter, _, result) = run("macro foo 1 dup ;");
    assert_eq!(result, Ok(()));
    assert!(interpreter.stack().is_empty());
    let body = interpreter.vars().get("foo").unwrap();
    assert!(body.same_value(&iter(vec![num(1.0), FyfthVariant::FnDup])));
}

#[test]
fn nested_macro_is_captured_whole() {
    let (interpreter, _, result) = run("macro outer macro inner 1 ; 2 ; 3");
    assert_eq!(result, Ok(()));
    assert!(same(interpreter.stack(), &[num(3.0)]));
    let body = interpreter.vars().get("outer").unwrap();
    assert!(body.same_value(&iter(vec![
        FyfthVariant::Macro,
        text("inner"),
        num(1.0),
        FyfthVariant::LineEnd,
        num(2.0),
    ])));
    assert!(interpreter.vars().get("inner").is_none());
}

#[test]
fn macro_without_end_takes_the_rest() {
    let (interpreter, _, result) = run("macro foo 1 2");
    assert_eq!(result, Ok(()));
    assert!(interpreter.stack().is_empty());
    assert!(interpreter.vars().get("foo").unwrap().same_value(&iter(vec![num(1.0), num(2.0)])));
}

#[test]
fn macro_needs_a_name() {
    let (_, output, result) = run("macro 1 2 ;");
    assert_eq!(result, Err(FyfthError::SyntaxError));
    assert_eq!(output, "Syntax error: `macro` needs to be followed by a name for the macro");
    assert_eq!(error_of("macro"), FyfthError::SyntaxError);
}

#[test]
fn too_few_arguments_is_a_syntax_error_and_keeps_the_stack() {
    let (interpreter, output, result) = run("1 add 7");
    assert_eq!(result, Err(FyfthError::SyntaxError));
    assert!(same(interpreter.stack(), &[num(1.0)]));
    assert_eq!(interpreter.queue_len(), 1);
    assert_eq!(
        output,
        "Syntax error: function `add` expects 2 arguments but stack has only 1 items"
    );
}

#[test]
fn too_few_arguments_for_every_arity() {
    assert_eq!(error_of("not"), FyfthError::SyntaxError);
    assert_eq!(error_of("1 2 select"), FyfthError::SyntaxError);
    assert_eq!(error_of("1 2 3 quat"), FyfthError::SyntaxError);
    let (interpreter, _, result) = run("1 2 3 quat");
    assert_eq!(result, Err(FyfthError::SyntaxError));
    assert!(same(interpreter.stack(), &[num(1.0), num(2.0), num(3.0)]));
}

#[test]
fn arguments_are_taken_in_stack_order() {
    assert!(same(&stack_after("7 2 sub"), &[num(5.0)]));
    assert!(same(&stack_after("9 7 2 sub"), &[num(9.0), num(5.0)]));
}

#[test]
fn command_on_sequences_of_one_length() {
    let source = "1 2 3 iter a store 10 20 30 iter b store *a *b add";
    assert!(same(&stack_after(source), &[iter(vec![num(11.0), num(22.0), num(33.0)])]));
}

#[test]
fn command_on_sequences_of_different_lengths() {
    let source = "1 2 3 iter a store 10 20 iter b store x *a *b add";
    let (interpreter, output, result) = run(source);
    assert_eq!(result, Err(FyfthError::DomainError));
    assert!(same(interpreter.stack(), &[text("x")]));
    assert_eq!(output, "Error: function `add` cannot combine iterators of differing lengths.");
}

#[test]
fn command_on_a_sequence_and_a_single_value() {
    let (interpreter, output, result) = run("1 2 3 iter a store x *a 10 add");
    assert_eq!(result, Err(FyfthError::TypeError));
    assert!(same(interpreter.stack(), &[text("x")]));
    assert_eq!(output, "Error: function `add` cannot combine iterators with single values.");
}

#[test]
fn results_that_are_nothing_are_skipped() {
    let source = "1 2 3 iter a store true false true iter b store *a *b filter";
    assert!(same(&stack_after(source), &[iter(vec![num(1.0), num(3.0)])]));
}

#[test]
fn ignored_sequence_is_handed_on_whole() {
    let source = "5 6 7 iter a store 0 2 iter b store *a *b index";
    assert!(same(&stack_after(source), &[iter(vec![num(5.0), num(7.0)])]));
    assert!(same(&stack_after("1 2 iter len"), &[num(2.0)]));
}

#[test]
fn failing_call_on_an_item_pushes_nothing() {
    let source = "5 6 iter a store 0 9 iter b store x *a *b index";
    let (interpreter, _, result) = run(source);
    assert_eq!(result, Err(FyfthError::DomainError));
    assert!(same(interpreter.stack(), &[text("x")]));
}

#[test]
fn iteration_limit_stops_a_self_requeuing_macro() {
    let (interpreter, output, result) = run("macro again $again ;\n$again");
    assert_eq!(result, Err(FyfthError::IterationLimitExceeded));
    assert_eq!(output, "Error: reached iteration limit");
    assert!(interpreter.queue_len() > 0);
}

#[test]
fn iteration_limit_is_reached_after_exactly_that_many_steps() {
    let mut host = TestHost::new();
    let mut at_limit = interpreter();
    for _ in 0..ITERATION_LIMIT {
        at_limit.enqueue(FyfthVariant::Nil);
    }
    let (output, result) = at_limit.run(&mut host);
    assert_eq!(result, Ok(()));
    assert!(output.is_empty());
    assert_eq!(at_limit.stack().len(), 100_000);

    let mut beyond = interpreter();
    for _ in 0..ITERATION_LIMIT + 1 {
        beyond.enqueue(FyfthVariant::Nil);
    }
    let (output, result) = beyond.run(&mut host);
    assert_eq!(result, Err(FyfthError::IterationLimitExceeded));
    assert_eq!(output, "Error: reached iteration limit");
    assert_eq!(beyond.stack().len(), 100_000);
    assert_eq!(beyond.queue_len(), 1);
}

#[test]
fn error_before_the_limit_wins() {
    let mut host = TestHost::new();
    let mut machine = interpreter();
    for _ in 0..ITERATION_LIMIT - 1 {
        machine.enqueue(FyfthVariant::LineEnd);
    }
    machine.enqueue(FyfthVariant::FnSwap);
    machine.enqueue(FyfthVariant::Nil);
    let (_, result) = machine.run(&mut host);
    assert_eq!(result, Err(FyfthError::SyntaxError));
}

#[test]
fn run_on_an_empty_queue() {
    let mut host = TestHost::new();
    let mut machine = interpreter();
    let (output, result) = machine.run(&mut host);
    assert_eq!(result, Ok(()));
    assert!(output.is_empty());
    assert!(machine.stack().is_empty());
}

#[test]
fn run_stops_at_the_first_error() {
    let (interpreter, _, result) = run("1 swap 2 3");
    assert_eq!(result, Err(FyfthError::SyntaxError));
    assert_eq!(interpreter.queue_len(), 2);
}

#[test]
fn unknown_command_index_is_a_syntax_error() {
    let mut host = TestHost::new();
    let mut machine = interpreter();
    machine.enqueue(FyfthVariant::LangFunc(10_000));
    let (output, result) = machine.run(&mut host);
    assert_eq!(result, Err(FyfthError::SyntaxError));
    assert!(!output.is_empty());
}

fn get(args: Vec<FyfthVariant>) -> Result<Option<FyfthVariant>, FyfthCommandError> {
    let mut host = TestHost::new();
    let mut output = String::new();
    let mut vars = FyfthEnvironment::new();
    let lang = FyfthLanguageExtension::base_fyfth();
    let result = fyfth::commands::fyfth_func_get(
        FyfthContext { output: &mut output, world: &mut host, vars: &mut vars, lang: &lang },
        &args,
    );
    assert_eq!(result.is_err(), !output.is_empty());
    result
}

fn set(args: Vec<FyfthVariant>) -> Result<Option<FyfthVariant>, FyfthCommandError> {
    let mut host = TestHost::new();
    let mut output = String::new();
    let mut vars = FyfthEnvironment::new();
    let lang = FyfthLanguageExtension::base_fyfth();
    let result = fyfth::commands::fyfth_func_set(
        FyfthContext { output: &mut output, world: &mut host, vars: &mut vars, lang: &lang },
        &args,
    );
    assert_eq!(result.is_err(), !output.is_empty());
    result
}

fn three() -> FyfthVariant {
    iter(vec![num(1.0), num(2.0), num(3.0)])
}

#[test]
fn get_with_a_negative_index_counts_from_the_end() {
    assert!(get(vec![three(), num(-1.0)]).unwrap().unwrap().same_value(&num(3.0)));
    assert!(get(vec![three(), num(-3.0)]).unwrap().unwrap().same_value(&num(1.0)));
    assert!(get(vec![three(), num(0.0)]).unwrap().unwrap().same_value(&num(1.0)));
    assert!(get(vec![three(), num(2.7)]).unwrap().unwrap().same_value(&num(3.0)));
    assert!(get(vec![three(), num(-0.0)]).unwrap().unwrap().same_value(&num(1.0)));
    assert_eq!(get(vec![three(), num(-4.0)]).unwrap_err(), FyfthCommandError::DomainError);
    assert_eq!(get(vec![three(), num(3.0)]).unwrap_err(), FyfthCommandError::DomainError);
    assert_eq!(get(vec![three(), num(-0.5)]).unwrap_err(), FyfthCommandError::DomainError);
    assert_eq!(get(vec![three(), num(f32::NAN)]).unwrap_err(), FyfthCommandError::DomainError);
    assert_eq!(get(vec![three(), num(f32::INFINITY)]).unwrap_err(), FyfthCommandError::DomainError);
    assert_eq!(
        get(vec![three(), num(f32::NEG_INFINITY)]).unwrap_err(),
        FyfthCommandError::DomainError
    );
    assert_eq!(get(vec![iter(vec![]), num(0.0)]).unwrap_err(), FyfthCommandError::DomainError);
}

#[test]
fn get_item_by_item() {
    let source = "1 2 3 iter iter a store -1 iter b store *a *b get";
    assert!(same(&stack_after(source), &[iter(vec![num(3.0)])]));
}

#[test]
fn get_on_tuples() {
    assert!(same(&stack_after("1 2 vec2 \"y\" get"), &[num(2.0)]));
    assert!(same(&stack_after("1 2 3 vec3 \"z\" get"), &[num(3.0)]));
    assert!(same(&stack_after("1 2 3 vec3 \"x\" get"), &[num(1.0)]));
    assert_eq!(error_of("1 2 vec2 \"z\" get"), FyfthError::DomainError);
    assert_eq!(error_of("1 2 3 vec3 \"w\" get"), FyfthError::DomainError);
    assert!(same(&stack_after("0 0 0 2 quat \"w\" get"), &[num(1.0)]));
}

#[test]
fn get_on_other_kinds_is_a_type_error() {
    assert_eq!(error_of("1 2 get"), FyfthError::TypeError);
    let (_, output, _) = run("1 nil get");
    assert_eq!(
        output,
        "Syntax error: the operation `get` is incompatible with types `num nil `."
    );
}

#[test]
fn set_replaces_an_item() {
    assert!(set(vec![three(), num(1.0), num(9.0)])
        .unwrap()
        .unwrap()
        .same_value(&iter(vec![num(1.0), num(9.0), num(3.0)])));
    assert!(set(vec![three(), num(-1.0), text("z")])
        .unwrap()
        .unwrap()
        .same_value(&iter(vec![num(1.0), num(2.0), text("z")])));
    assert_eq!(set(vec![three(), num(3.0), num(9.0)]).unwrap_err(), FyfthCommandError::DomainError);
    assert_eq!(error_of("1 2 3 set"), FyfthError::TypeError);
}

#[test]
fn index_takes_an_item() {
    assert!(same(&stack_after("5 6 7 iter 1 index"), &[num(6.0)]));
    assert!(same(&stack_after("5 6 7 iter -2 index"), &[num(6.0)]));
    assert_eq!(error_of("5 6 7 iter 5 index"), FyfthError::DomainError);
    assert_eq!(error_of("5 6 index"), FyfthError::TypeError);
}

#[test]
fn store_and_load() {
    assert!(same(&stack_after("5 x store *x \"x\" load"), &[num(5.0), num(5.0)]));
    assert!(same(&stack_after("5 x store 6 x store *x"), &[num(6.0)]));
    assert_eq!(error_of("5 6 store"), FyfthError::TypeError);
    assert_eq!(error_of("*nothing"), FyfthError::DomainError);
    assert_eq!(error_of("5 load"), FyfthError::TypeError);
    let (_, output, _) = run("*nothing");
    assert_eq!(output, "Error: no variable of the name `nothing` found");
}

#[test]
fn equality_of_the_language() {
    let truth = |source: &str| match stack_after(source).pop().unwrap() {
        FyfthVariant::Bool(b) => b,
        other => panic!("{:?}", other),
    };
    assert!(truth("1 1 eq"));
    assert!(!truth("1 2 eq"));
    assert!(truth("0 -0 eq"));
    assert!(!truth("NaN NaN eq"));
    assert!(truth("a \"a\" eq"));
    assert!(!truth("a 1 eq"));
    assert!(truth("nil nil eq"));
    assert!(truth("1 2 iter x store *x *x eqq"));
    assert!(!truth("1 2 iter x store 1 3 iter y store *x *y eqq"));
    assert!(truth("1 2 vec2 1 2 vec2 eq"));
    assert!(!truth("1 2 vec2 1 2 3 vec3 eq"));
}

#[test]
fn comparisons() {
    let top = |source: &str| stack_after(source).pop().unwrap();
    assert!(top("2 1 geq").same_value(&FyfthVariant::Bool(true)));
    assert!(top("1 2 geq").same_value(&FyfthVariant::Bool(false)));
    assert!(top("1 1 geq").same_value(&FyfthVariant::Bool(true)));
    assert!(top("1 2 leq").same_value(&FyfthVariant::Bool(true)));
    assert!(top("-1 -2 leq").same_value(&FyfthVariant::Bool(false)));
    assert!(top("NaN 1 leq").same_value(&FyfthVariant::Bool(false)));
    assert!(top("NaN 1 geq").same_value(&FyfthVariant::Bool(false)));
    assert_eq!(error_of("a 1 geq"), FyfthError::TypeError);
    assert_eq!(error_of("1 a leq"), FyfthError::TypeError);
}

#[test]
fn boolean_commands() {
    assert!(same(&stack_after("true not"), &[FyfthVariant::Bool(false)]));
    assert_eq!(error_of("1 not"), FyfthError::TypeError);
    assert!(same(&stack_after("true a b select"), &[text("a")]));
    assert!(same(&stack_after("false a b select"), &[text("b")]));
    assert_eq!(error_of("1 a b select"), FyfthError::TypeError);
    assert!(same(&stack_after("a true filter"), &[text("a")]));
    assert!(stack_after("a false filter").is_empty());
    assert_eq!(error_of("a 1 filter"), FyfthError::TypeError);
    assert!(stack_after("a pop").is_empty());
}

#[test]
fn sequence_commands() {
    assert!(same(&stack_after("1 2 iter 3 append"), &[iter(vec![num(1.0), num(2.0), num(3.0)])]));
    assert_eq!(error_of("1 2 append"), FyfthError::TypeError);
    assert!(same(
        &stack_after("1 2 iter a store 3 iter b store *a *b extend"),
        &[iter(vec![num(1.0), num(2.0), num(3.0)])]
    ));
    assert_eq!(error_of("1 iter 2 extend"), FyfthError::TypeError);
    assert!(same(&stack_after("1 2 3 iter reverse"), &[iter(vec![num(3.0), num(2.0), num(1.0)])]));
    assert_eq!(error_of("1 reverse"), FyfthError::TypeError);
    assert!(same(&stack_after("a b c iter len"), &[num(3.0)]));
    assert!(same(&stack_after("iter len"), &[num(0.0)]));
    assert_eq!(error_of("1 len"), FyfthError::TypeError);
}

#[test]
fn enum_counts_up() {
    assert!(same(&stack_after("3 enum"), &[iter(vec![num(0.0), num(1.0), num(2.0)])]));
    assert!(same(&stack_after("3.9 enum"), &[iter(vec![num(0.0), num(1.0), num(2.0)])]));
    assert!(same(&stack_after("0 enum"), &[iter(vec![])]));
    assert!(same(&stack_after("a b iter enum"), &[iter(vec![num(0.0), num(1.0)])]));
    assert_eq!(error_of("-1 enum"), FyfthError::DomainError);
    assert_eq!(error_of("1000001 enum"), FyfthError::DomainError);
    assert_eq!(error_of("NaN enum"), FyfthError::DomainError);
    assert_eq!(error_of("a enum"), FyfthError::TypeError);
    match stack_after("1000000 enum").pop().unwrap() {
        FyfthVariant::Iter(items) => {
            assert_eq!(items.len(), 1_000_000);
            assert!(items[999_999].same_value(&num(999_999.0)));
        }
        other => panic!("{:?}", other),
    }
}

#[test]
fn type_names() {
    let name = |source: &str| stack_after(source).pop().unwrap();
    assert!(name("nil type").same_value(&text("nil")));
    assert!(name("true type").same_value(&text("bool")));
    assert!(name("1 type").same_value(&text("num")));
    assert!(name("a type").same_value(&text("literal")));
    assert!(name("iter type").same_value(&text("iter")));
    assert!(name("1 2 vec2 type").same_value(&text("vec2")));
    assert!(name("1 2 3 vec3 type").same_value(&text("vec3")));
    assert!(name("1 2 3 4 quat type").same_value(&text("quat")));
    assert!(name("entities 0 index type").same_value(&text("Entity")));
    assert!(name("entities 1 index \"Mover\" get type").same_value(&text("Mover")));
}

#[test]
fn mod_of_truncated_numbers() {
    assert!(same(&stack_after("7 3 mod"), &[num(1.0)]));
    assert!(same(&stack_after("-7 3 mod"), &[num(-1.0)]));
    assert!(same(&stack_after("7 -3 mod"), &[num(1.0)]));
    assert!(same(&stack_after("7.9 3.9 mod"), &[num(1.0)]));
    assert!(same(&stack_after("a 3 mod"), &[FyfthVariant::Nil]));
    assert_eq!(error_of("7 0 mod"), FyfthError::DomainError);
    assert_eq!(error_of("7 0.5 mod"), FyfthError::DomainError);
    assert_eq!(error_of("7 a mod"), FyfthError::TypeError);
    assert!(same(&stack_after("2000000000 1999999999 mod"), &[num(2_000_000_000i32 as f32 % 2e9)]));
}

#[test]
fn arithmetic() {
    assert!(same(&stack_after("1 2 add"), &[num(3.0)]));
    assert!(same(&stack_after("1 2 sub"), &[num(-1.0)]));
    assert!(same(&stack_after("3 2 mul"), &[num(6.0)]));
    assert!(same(&stack_after("3 2 div"), &[num(1.5)]));
    assert!(same(&stack_after("a b add"), &[text("ab")]));
    assert!(same(&stack_after("a 1.5 add"), &[text("a1.5")]));
    assert!(same(&stack_after("1 2 vec2 3 4 vec2 add \"y\" get"), &[num(6.0)]));
    assert!(same(&stack_after("1 2 vec2 3 mul \"x\" get"), &[num(3.0)]));
    assert!(same(&stack_after("3 1 2 vec2 mul \"y\" get"), &[num(6.0)]));
    assert!(same(&stack_after("2 4 6 vec3 2 div \"z\" get"), &[num(3.0)]));
    assert!(same(&stack_after("0 sin"), &[num(0.0)]));
    assert!(same(&stack_after("0 cos"), &[num(1.0)]));
    assert!(same(&stack_after("0 tan"), &[num(0.0)]));
    assert!(same(&stack_after("0 atan"), &[num(0.0)]));
    assert!(same(&stack_after("0 1 atan2"), &[num(0.0)]));
    assert_eq!(error_of("1 a add"), FyfthError::TypeError);
    assert_eq!(error_of("a b sub"), FyfthError::TypeError);
    assert_eq!(error_of("a b mul"), FyfthError::TypeError);
    assert_eq!(error_of("2 1 2 vec2 div"), FyfthError::TypeError);
    assert_eq!(error_of("a sin"), FyfthError::TypeError);
    assert_eq!(error_of("a cos"), FyfthError::TypeError);
    assert_eq!(error_of("a tan"), FyfthError::TypeError);
    assert_eq!(error_of("a atan"), FyfthError::TypeError);
    assert_eq!(error_of("a 1 atan2"), FyfthError::TypeError);
    assert_eq!(error_of("1 2 3 a quat"), FyfthError::TypeError);
    assert_eq!(error_of("1 a vec2"), FyfthError::TypeError);
    assert_eq!(error_of("1 2 a vec3"), FyfthError::TypeError);
}

#[test]
fn fuzzy_command() {
    assert!(same(&stack_after("\"Debug Cube\" \"dbc\" fuzzy"), &[FyfthVariant::Bool(true)]));
    assert!(same(&stack_after("\"Debug Cube\" \"cd\" fuzzy"), &[FyfthVariant::Bool(false)]));
    assert!(same(&stack_after("1 \"cd\" fuzzy"), &[FyfthVariant::Bool(false)]));
    assert_eq!(error_of("a 1 fuzzy"), FyfthError::TypeError);
}

#[test]
fn regex_command_binds_named_groups() {
    let source = r#""key=value" "(?<k>\\w+)=(?<v>\\w+)" regex *k *v"#;
    assert!(same(
        &stack_after(source),
        &[FyfthVariant::Bool(true), text("key"), text("value")]
    ));
}

#[test]
fn regex_command_binds_repeated_captures_as_a_sequence() {
    let source = r#""a1 b2 c3" "(?<letter>[a-z])(?<digit>\\d)" regex *letter *digit"#;
    assert!(same(
        &stack_after(source),
        &[
            FyfthVariant::Bool(true),
            iter(vec![text("a"), text("b"), text("c")]),
            iter(vec![text("1"), text("2"), text("3")]),
        ]
    ));
}

#[test]
fn regex_command_skips_groups_that_took_no_part() {
    let (interpreter, _, result) = run(r#""abc" "(?<x>abc)|(?<y>xyz)" regex"#);
    assert_eq!(result, Ok(()));
    assert!(same(interpreter.stack(), &[FyfthVariant::Bool(true)]));
    assert!(interpreter.vars().get("x").unwrap().same_value(&text("abc")));
    assert!(interpreter.vars().get("y").is_none());
}

#[test]
fn regex_command_without_match_binds_nothing() {
    let (interpreter, _, result) = run(r#""abc" "(?<x>\\d+)" regex"#);
    assert_eq!(result, Ok(()));
    assert!(same(interpreter.stack(), &[FyfthVariant::Bool(false)]));
    assert!(interpreter.vars().get("x").is_none());
}

#[test]
fn regex_command_errors() {
    let (_, output, result) = run(r#""abc" "(" regex"#);
    assert_eq!(result, Err(FyfthError::DomainError));
    assert!(output.starts_with("Error: failed to parse regex: "));
    assert!(output.len() > "Error: failed to parse regex: ".len());
    assert!(same(&stack_after("1 \"a\" regex"), &[FyfthVariant::Bool(false)]));
    assert_eq!(error_of("a 1 regex"), FyfthError::TypeError);
}

#[test]
fn print_writes_values() {
    let (_, output, result) = run("nil print true print \"a b\" print 1.5 print");
    assert_eq!(result, Ok(()));
    assert_eq!(output, "niltrue\"a b\"1.5");
    let (_, output, _) = run("1 a true iter print");
    assert_eq!(output, "[3 items; 1, \"a\", true]");
    let (_, output, _) = run("iter print");
    assert_eq!(output, "[0 items; ]");
    let (_, output, _) = run("1 2 vec2 print 1 2 3 vec3 print");
    assert_eq!(output, "vec2(1 2)vec3(1 2 3)");
    let (_, output, _) = run("macro m dup swap swap_n rotr rotl push queue iter add macro x ; ; *m print");
    assert_eq!(
        output,
        "[12 items; dup, swap, swap_n, rotr, rotl, push, queue, iter, add, macro, \"x\", ;]"
    );
}

#[test]
fn handle_that_is_none_is_written_as_a_number() {
    let host = TestHost::new();
    let lang = FyfthLanguageExtension::base_fyfth();
    let mut output = String::new();
    FyfthVariant::Entity(7).pretty_print(&mut output, &host, &lang);
    assert_eq!(output, "(7)");
    let mut output = String::new();
    fyfth::printer::put_handle(&mut output, entity(12));
    assert_eq!(output, "12v1");
}

#[test]
fn print_writes_host_objects() {
    let (_, output, _) = run("entities 0 index print");
    assert_eq!(output, "(1v1 - \"Main Camera\")");
    let (_, output, _) = run("entities 2 index print");
    assert_eq!(output, "(3v1)");
    let (_, output, _) = run("entities 1 index \"Mover\" get print");
    assert_eq!(output, "Mover#0");
}

#[test]
fn print_vars_lists_the_variables() {
    let (_, output, result) = run("1 a store b c store print_vars");
    assert_eq!(result, Ok(()));
    assert_eq!(output, "\"a\" : 1\n\"c\" : \"b\"\n");
}

#[test]
fn pretty_print_stack_joins_with_the_delimiter() {
    let host = TestHost::new();
    let mut machine = interpreter();
    machine.parse_code("1 a true", &host).unwrap();
    let mut host = host;
    let (_, result) = machine.run(&mut host);
    assert_eq!(result, Ok(()));
    let lang = FyfthLanguageExtension::base_fyfth();
    assert_eq!(machine.pretty_print_stack(&host, " ", &lang), "1 \"a\" true");
    assert_eq!(machine.pretty_print_stack(&host, ", ", &lang), "1, \"a\", true");
    assert_eq!(interpreter().pretty_print_stack(&host, " ", &lang), "");
}

#[test]
fn host_objects() {
    let stack = stack_after("entities");
    assert!(same(
        &stack,
        &[iter(vec![
            FyfthVariant::Entity(entity(1)),
            FyfthVariant::Entity(entity(2)),
            FyfthVariant::Entity(entity(3)),
        ])]
    ));
    assert!(same(
        &stack_after("entities name"),
        &[iter(vec![text("Main Camera"), text("debug cube 0"), FyfthVariant::Nil])]
    ));
    assert_eq!(error_of("1 name"), FyfthError::TypeError);
    assert!(same(&stack_after("entities 1 index \"Mover\" get name"), &[text("game::Mover")]));
}

#[test]
fn components_of_host_objects() {
    assert!(same(&stack_after("entities 1 index \"mover\" get"), &[FyfthVariant::Component(0)]));
    assert!(same(&stack_after("entities 1 index \"mvr\" get"), &[FyfthVariant::Component(0)]));
    assert_eq!(error_of("entities 1 index \"mov\" get"), FyfthError::DomainError);
    assert_eq!(error_of("entities 1 index \"zzz\" get"), FyfthError::DomainError);
    assert_eq!(error_of("entities 0 index \"mover\" get"), FyfthError::DomainError);
    let (_, output, _) = run("entities 1 index \"mov\" get");
    assert!(output.contains("  game::Mover\n  game::Movable\n"));
}

#[test]
fn fields_of_components() {
    assert!(same(&stack_after("entities 1 index \"Mover\" get \"speed\" get"), &[num(2.0)]));
    assert_eq!(
        error_of("entities 1 index \"Mover\" get \"height\" get"),
        FyfthError::DomainError
    );
    assert!(same(
        &stack_after("entities 1 index \"Mover\" get \"speed\" 5 set \"speed\" get"),
        &[num(5.0)]
    ));
    assert_eq!(
        error_of("entities 1 index \"Mover\" get \"speed\" a set"),
        FyfthError::DomainError
    );
    assert_eq!(
        error_of("entities 1 index \"Mover\" get \"height\" 5 set"),
        FyfthError::DomainError
    );
}

#[test]
fn component_is_given_to_an_object() {
    let mut host = TestHost::new();
    let mut machine = interpreter();
    machine
        .parse_code("entities 0 index entities 1 index \"Mover\" get add", &host)
        .unwrap();
    let (_, result) = machine.run(&mut host);
    assert_eq!(result, Ok(()));
    assert!(machine.stack().is_empty());
    assert_eq!(host.inserted, vec![(entity(1), 0)]);
}

fn extended() -> FyfthLanguageExtension {
    let mut lang = FyfthLanguageExtension::base_fyfth();
    let mut extension = FyfthLanguageExtension::new_empty();
    extension
        .with_command("nothing", FyfthFunc::Host(0), &[])
        .with_command("hello", FyfthFunc::Host(1), &[])
        .with_command("quiet", FyfthFunc::Host(2), &[FyfthBroadcastBehavior::MayIter])
        .with_command("gone", FyfthFunc::Host(3), &[FyfthBroadcastBehavior::MayIter]);
    extension.with_prefix('^', FyfthPrefixParser::Host(0));
    extension.with_prefix('!', FyfthPrefixParser::Host(1));
    assert_eq!(lang.merge(extension), Ok(()));
    lang
}

fn run_extended(source: &str) -> (FyfthInterpreter, String, Result<(), FyfthError>) {
    let mut host = TestHost::new();
    let mut machine = FyfthInterpreter::new(Arc::new(extended()));
    machine.parse_code(source, &host).unwrap();
    let (output, result) = machine.run(&mut host);
    (machine, output, result)
}

#[test]
fn commands_of_the_host() {
    let (machine, output, result) = run_extended("nothing hello");
    assert_eq!(result, Ok(()));
    assert_eq!(output, "hello from the host");
    assert!(same(machine.stack(), &[FyfthVariant::Bool(true)]));
    assert!(machine.vars().get("touched").unwrap().same_value(&FyfthVariant::Bool(true)));
}

#[test]
fn failing_commands_of_the_host_always_report() {
    let (_, output, result) = run_extended("1 quiet");
    assert_eq!(result, Err(FyfthError::DomainError));
    assert_eq!(output, "Error: the command failed");
    let (_, output, result) = run_extended("1 gone");
    assert_eq!(result, Err(FyfthError::DomainError));
    assert_eq!(output, "Error: entity no longer exists.");
}

#[test]
fn merged_commands_are_renumbered() {
    let lang = extended();
    let base = FyfthLanguageExtension::base_fyfth();
    assert_eq!(base.command_count(), 38);
    assert_eq!(lang.command_count(), 42);
    assert_eq!(lang.get_command_id("entities"), Some(0));
    assert_eq!(lang.get_command_id("atan2"), Some(37));
    assert_eq!(lang.get_command_id("nothing"), Some(38));
    assert_eq!(lang.get_command_id("gone"), Some(41));
    assert_eq!(lang.get_command_id("missing"), None);
    assert_eq!(lang.get_prefix('*'), Some(0));
    assert_eq!(lang.get_prefix('^'), Some(3));
    assert_eq!(lang.get_prefix('!'), Some(4));
    assert_eq!(lang.get_prefix('?'), None);
    assert_eq!(lang.command(41).keyword, "gone");
    assert_eq!(lang.command(41).func, FyfthFunc::Host(3));
    assert_eq!(lang.prefix(3).ch, '^');
}

#[test]
fn merge_refuses_colliding_keywords() {
    let mut lang = FyfthLanguageExtension::base_fyfth();
    let mut other = FyfthLanguageExtension::new_empty();
    other.with_command("fresh", FyfthFunc::Host(0), &[]);
    other.with_command("add", FyfthFunc::Host(1), &[]);
    assert_eq!(lang.merge(other), Err(FyfthConflict::Keyword));
    assert_eq!(lang.command_count(), 38);
    assert_eq!(lang.get_command_id("fresh"), None);
}

#[test]
fn merge_refuses_colliding_prefixes() {
    let mut lang = FyfthLanguageExtension::base_fyfth();
    let mut other = FyfthLanguageExtension::new_empty();
    other.with_command("fresh", FyfthFunc::Host(0), &[]);
    other.with_prefix('$', FyfthPrefixParser::Load);
    assert_eq!(lang.merge(other), Err(FyfthConflict::Prefix));
    assert_eq!(lang.command_count(), 38);
    assert_eq!(lang.prefix_count(), 3);
}

#[test]
fn later_registration_shadows_the_keyword() {
    let mut lang = FyfthLanguageExtension::new_empty();
    lang.with_command("f", FyfthFunc::Host(0), &[]);
    lang.with_command("g", FyfthFunc::Host(1), &[]);
    lang.with_command("f", FyfthFunc::Host(2), &[]);
    assert_eq!(lang.get_command_id("f"), Some(2));
    assert_eq!(lang.get_command_id("g"), Some(1));
    assert_eq!(lang.command_count(), 3);
}

#[test]
fn extension_is_added_to_an_interpreter() {
    let mut machine = interpreter();
    let mut extension = FyfthLanguageExtension::new_empty();
    extension.with_command("nothing", FyfthFunc::Host(0), &[]);
    assert_eq!(machine.add_language_extension(extension), Ok(()));
    assert_eq!(machine.lang().get_command_id("nothing"), Some(38));
    let mut again = FyfthLanguageExtension::new_empty();
    again.with_command("nothing", FyfthFunc::Host(0), &[]);
    assert_eq!(machine.add_language_extension(again), Err(FyfthConflict::Keyword));
    assert_eq!(machine.lang().command_count(), 39);
}

#[test]
fn words_are_classified() {
    let host = TestHost::new();
    let mut machine = interpreter();
    machine
        .parse_code("nil iter true false macro queue dup swap ; swap_n rotr rotl push add what 1e3", &host)
        .unwrap();
    assert_eq!(machine.queue_len(), 16);
    let mut machine = interpreter();
    machine.parse_code("add \"add\" get", &host).unwrap();
    let mut host = host;
    let (_, result) = machine.run(&mut host);
    assert_eq!(result, Err(FyfthError::SyntaxError));
}

#[test]
fn prefixes_are_expanded() {
    assert!(same(&stack_after("5 x store *x"), &[num(5.0)]));
    let (machine, _, result) = run_extended("^word");
    assert_eq!(result, Ok(()));
    assert!(same(machine.stack(), &[text("word"), text("word")]));
}

#[test]
fn failing_prefix_is_a_lex_error() {
    let host = TestHost::new();
    let mut machine = FyfthInterpreter::new(Arc::new(extended()));
    assert_eq!(machine.parse_code("1 2 !word 3", &host), Err(FyfthError::LexError));
    assert_eq!(machine.queue_len(), 2);
    let mut bare = FyfthLanguageExtension::new_empty();
    bare.with_prefix('*', FyfthPrefixParser::Load);
    let mut machine = FyfthInterpreter::new(Arc::new(bare));
    assert_eq!(machine.parse_code("*x", &host), Err(FyfthError::LexError));
    assert_eq!(machine.queue_len(), 0);
}

#[test]
fn prefix_without_word_stops_reading() {
    let host = TestHost::new();
    let mut machine = interpreter();
    assert_eq!(machine.parse_code("1 2 @\n3", &host), Err(FyfthError::LexError));
    assert_eq!(machine.queue_len(), 2);
}

#[test]
fn fuzzy_entity_prefix_expands_to_six_entries() {
    let host = TestHost::new();
    let mut machine = interpreter();
    machine.parse_code("@cube", &host).unwrap();
    assert_eq!(machine.queue_len(), 6);
}

#[test]
fn clone_is_independent() {
    let mut host = TestHost::new();
    let mut machine = interpreter();
    machine.parse_code("1 x store 2", &host).unwrap();
    machine.run(&mut host).1.unwrap();
    let mut copy = machine.clone();
    copy.parse_code("3 4 y store", &host).unwrap();
    copy.run(&mut host).1.unwrap();
    assert!(same(machine.stack(), &[num(2.0)]));
    assert!(same(copy.stack(), &[num(2.0), num(3.0)]));
    assert!(machine.vars().get("y").is_none());
    assert!(copy.vars().get("x").unwrap().same_value(&num(1.0)));
}

#[test]
fn context_reaches_commands_directly() {
    let mut host = TestHost::new();
    let mut output = String::new();
    let mut vars = FyfthEnvironment::new();
    let lang = FyfthLanguageExtension::base_fyfth();
    let args = vec![num(4.0), text("x")];
    let result = fyfth::commands::fyfth_func_store(
        FyfthContext { output: &mut output, world: &mut host, vars: &mut vars, lang: &lang },
        &args,
    );
    assert!(matches!(result, Ok(None)));
    assert_eq!(vars.len(), 1);
    assert_eq!(vars.name_at(0), "x");
    assert!(vars.value_at(0).same_value(&num(4.0)));
    assert!(output.is_empty());
}
