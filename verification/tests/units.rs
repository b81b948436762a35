use fyfth::component::{
    find_matching, matches_name, try_find_component_by_name, BevyComponentRegistryError,
    FyfthNameMatch,
};
use fyfth::dispatch::{broadcast_args, collect_replies, plan_call, FyfthPlan};
use fyfth::environment::FyfthEnvironment;
use fyfth::host::{FyfthCommandError, FyfthComponentInfo, FyfthError};
use fyfth::language::{FyfthBroadcastBehavior, FyfthFunc, FyfthLanguageExtension};
use fyfth::num::{FyfthNum, MILLION_BITS};
use fyfth::parser::{
    classify_word, fyfth_prefix_fuzzy_entity, fyfth_prefix_load, fyfth_prefix_queue_macro,
    parse_control_word,
};
use fyfth::regex_command::bind_captures;
use fyfth::text::{chars_of, push_decimal, string_of};
use fyfth::util::{case_ignored_match, fuzzy_match, subsequence_match};
use fyfth::variant::{copy_range, FyfthVariant};

fn bits(value: f32) -> FyfthNum {
    FyfthNum::from_bits(value.to_bits())
}

fn num(value: f32) -> FyfthVariant {
    FyfthVariant::Num(bits(value))
}

fn text(value: &str) -> FyfthVariant {
    FyfthVariant::Literal(value.to_string())
}

fn samples() -> Vec<f32> {
    let mut values = vec![
        0.0,
        -0.0,
        0.5,
        -0.5,
        0.999_999_94,
        1.0,
        -1.0,
        1.5,
        2.0,
        2.999,
        -2.999,
        7.0,
        255.75,
        1e6,
        999_999.94,
        1_000_000.06,
        8_388_607.5,
        8_388_608.0,
        16_777_215.0,
        16_777_216.0,
        16_777_218.0,
        -16_777_216.0,
        1e9,
        2_147_483_520.0,
        2_147_483_648.0,
        -2_147_483_648.0,
        -2_147_483_904.0,
        4e9,
        -4e9,
        1e38,
        f32::MAX,
        f32::MIN,
        f32::MIN_POSITIVE,
        f32::EPSILON,
        1e-40,
        -1e-40,
        f32::INFINITY,
        f32::NEG_INFINITY,
        f32::NAN,
        -f32::NAN,
    ];
    let mut seed: u32 = 0x1234_5678;
    for _ in 0..20_000 {
        seed ^= seed << 13;
        seed ^= seed >> 17;
        seed ^= seed << 5;
        values.push(f32::from_bits(seed));
    }
    values
}

#[test]
fn truncation_agrees_with_the_cast() {
    for value in samples() {
        assert_eq!(bits(value).truncate(), value as i32, "{:?}", value);
    }
    let mut pattern: u32 = 0;
    loop {
        let value = f32::from_bits(pattern);
        assert_eq!(bits(value).truncate(), value as i32, "{:x}", pattern);
        match pattern.checked_add(0x0000_ffff) {
            Some(next) => pattern = next,
            None => break,
        }
    }
}

#[test]
fn truncation_of_given_values() {
    assert_eq!(bits(2.9).truncate(), 2);
    assert_eq!(bits(-2.9).truncate(), -2);
    assert_eq!(bits(f32::NAN).truncate(), 0);
    assert_eq!(bits(f32::INFINITY).truncate(), i32::MAX);
    assert_eq!(bits(f32::NEG_INFINITY).truncate(), i32::MIN);
    assert_eq!(bits(1e10).truncate(), i32::MAX);
    assert_eq!(bits(100_000.0).truncate(), 100_000);
}

#[test]
fn comparisons_agree_with_the_numbers() {
    let values = samples();
    for (at, &left) in values.iter().enumerate() {
        let right = values[(at * 7 + 3) % values.len()];
        assert_eq!(bits(left).le(&bits(right)), left <= right, "{:?} {:?}", left, right);
        assert_eq!(bits(left).same_value(&bits(right)), left == right, "{:?} {:?}", left, right);
        assert_eq!(bits(left).same_value(&bits(left)), left == left);
        assert_eq!(bits(left).le(&bits(left)), left <= left);
        assert_eq!(bits(left).is_nan(), left.is_nan());
        assert_eq!(bits(left).is_non_negative(), left >= 0.0);
    }
    assert!(bits(0.0).same_value(&bits(-0.0)));
    assert!(bits(-0.0).is_non_negative());
    assert!(!bits(f32::NAN).same_value(&bits(f32::NAN)));
    assert!(bits(-1.0).le(&bits(1.0)));
    assert!(!bits(1.0).le(&bits(-1.0)));
}

#[test]
fn whole_numbers_are_built_exactly() {
    for n in (0u32..0x100_0000).step_by(997).chain([0, 1, 2, 3, 0xff_ffff, 0x80_0000, 0x7f_ffff]) {
        assert_eq!(FyfthNum::from_index(n).bits, (n as f32).to_bits(), "{}", n);
        assert_eq!(FyfthNum::from_whole(n as i32).bits, (n as f32).to_bits());
        if n > 0 {
            assert_eq!(FyfthNum::from_whole(-(n as i32)).bits, (-(n as f32)).to_bits());
        }
    }
    assert_eq!(FyfthNum::from_whole(0).bits, 0);
    assert_eq!(MILLION_BITS, 1_000_000f32.to_bits());
    assert_eq!(FyfthNum::from_bits(7).bits, 7);
}

#[test]
fn fuzzy_match_is_a_case_blind_subsequence_test() {
    assert!(fuzzy_match("game::Transform", "gtf"));
    assert!(fuzzy_match("game::Transform", "TRANSFORM"));
    assert!(fuzzy_match("anything", ""));
    assert!(fuzzy_match("", ""));
    assert!(!fuzzy_match("", "a"));
    assert!(!fuzzy_match("abc", "cb"));
    assert!(!fuzzy_match("abc", "abcd"));
    assert!(fuzzy_match("ÄÖÜ", "äü"));
    assert!(fuzzy_match("aab", "ab"));
}

#[test]
fn case_ignored_match_compares_lower_case_forms() {
    assert!(case_ignored_match("Transform", "transform"));
    assert!(case_ignored_match("ÄB", "äb"));
    assert!(!case_ignored_match("Transform", "transfor"));
    assert!(case_ignored_match("", ""));
}

#[test]
fn subsequence_match_on_characters() {
    let hay: Vec<char> = "hello".chars().collect();
    assert!(subsequence_match(&hay, &"hlo".chars().collect()));
    assert!(subsequence_match(&hay, &"hello".chars().collect()));
    assert!(!subsequence_match(&hay, &"ole".chars().collect()));
    assert!(!subsequence_match(&hay, &"H".chars().collect()));
    assert!(subsequence_match(&hay, &Vec::new()));
}

fn infos() -> Vec<FyfthComponentInfo> {
    let info = |path: &str, ident: Option<&str>| FyfthComponentInfo {
        full_path: path.to_string(),
        type_ident: ident.map(|i| i.to_string()),
    };
    vec![
        info("bevy_transform::components::transform::Transform", Some("Transform")),
        info("bevy_transform::components::global_transform::GlobalTransform", Some("GlobalTransform")),
        info("bevy_core::name::Name", Some("Name")),
        info("game::anonymous", None),
        info("game::Trans", Some("Trans")),
    ]
}

#[test]
fn exact_identifier_wins() {
    assert!(matches!(try_find_component_by_name(&infos(), "transform"), Ok(0)));
    assert!(matches!(try_find_component_by_name(&infos(), "TRANS"), Ok(4)));
    assert!(matches!(try_find_component_by_name(&infos(), "name"), Ok(2)));
}

#[test]
fn fuzzy_identifier_comes_second() {
    assert!(matches!(try_find_component_by_name(&infos(), "gtf"), Ok(1)));
    assert!(matches!(try_find_component_by_name(&infos(), "nme"), Ok(2)));
    match try_find_component_by_name(&infos(), "tran") {
        Err(BevyComponentRegistryError::MultipleMatchingComponents(found)) => {
            assert_eq!(found, vec![0, 1, 4]);
        }
        other => panic!("{:?}", other),
    }
}

#[test]
fn fuzzy_path_comes_last() {
    assert!(matches!(try_find_component_by_name(&infos(), "anonymous"), Ok(3)));
    assert!(matches!(try_find_component_by_name(&infos(), "core"), Ok(2)));
    match try_find_component_by_name(&infos(), "components") {
        Err(BevyComponentRegistryError::MultipleMatchingComponents(found)) => {
            assert_eq!(found, vec![0, 1]);
        }
        other => panic!("{:?}", other),
    }
}

#[test]
fn no_type_matches() {
    assert!(matches!(
        try_find_component_by_name(&infos(), "zzz"),
        Err(BevyComponentRegistryError::NoMatchingComponent)
    ));
    assert!(matches!(
        try_find_component_by_name(&Vec::new(), ""),
        Err(BevyComponentRegistryError::NoMatchingComponent)
    ));
}

#[test]
fn ways_of_matching() {
    let all = infos();
    assert!(matches_name(FyfthNameMatch::ExactIdent, &all[0], "TRANSFORM"));
    assert!(!matches_name(FyfthNameMatch::ExactIdent, &all[0], "trans"));
    assert!(matches_name(FyfthNameMatch::FuzzyIdent, &all[0], "trans"));
    assert!(!matches_name(FyfthNameMatch::FuzzyIdent, &all[0], "bevy"));
    assert!(matches_name(FyfthNameMatch::FuzzyPath, &all[0], "bevy"));
    assert!(!matches_name(FyfthNameMatch::ExactIdent, &all[3], ""));
    assert!(!matches_name(FyfthNameMatch::FuzzyIdent, &all[3], ""));
    assert!(matches_name(FyfthNameMatch::FuzzyPath, &all[3], ""));
    assert_eq!(find_matching(FyfthNameMatch::FuzzyIdent, &all, "a"), vec![0, 1, 2, 4]);
    assert_eq!(find_matching(FyfthNameMatch::ExactIdent, &all, "a"), Vec::<usize>::new());
}

#[test]
fn environment_binds_and_replaces() {
    let mut vars = FyfthEnvironment::new();
    assert_eq!(vars.len(), 0);
    assert!(vars.get("a").is_none());
    vars.insert("a".to_string(), num(1.0));
    vars.insert("b".to_string(), num(2.0));
    vars.insert("a".to_string(), num(3.0));
    assert_eq!(vars.len(), 2);
    assert!(vars.get("a").unwrap().same_value(&num(3.0)));
    assert!(vars.get("b").unwrap().same_value(&num(2.0)));
    assert!(vars.get("c").is_none());
    assert_eq!(vars.name_at(0), "a");
    assert_eq!(vars.name_at(1), "b");
    assert!(vars.value_at(1).same_value(&num(2.0)));
    let copy = vars.clone();
    vars.insert("b".to_string(), FyfthVariant::Nil);
    assert!(copy.get("b").unwrap().same_value(&num(2.0)));
    assert_eq!(copy.len(), 2);
}

#[test]
fn decimal_notation() {
    let written = |n: u64| {
        let mut out = String::from("#");
        push_decimal(&mut out, n);
        out
    };
    assert_eq!(written(0), "#0");
    assert_eq!(written(7), "#7");
    assert_eq!(written(10), "#10");
    assert_eq!(written(1234567890), "#1234567890");
    assert_eq!(written(u64::MAX), format!("#{}", u64::MAX));
}

#[test]
fn output_is_added_to() {
    let mut out = String::from("a");
    fyfth::output::put(&mut out, "bc");
    fyfth::output::put(&mut out, "");
    assert_eq!(out, "abc");
    fyfth::output::report(&mut out, "!");
    assert_eq!(out, "abc!");
    fyfth::output::report(&mut out, "");
    assert_eq!(out, "abc!?");
}

#[test]
fn characters_and_strings() {
    assert_eq!(chars_of("aä€😀"), vec!['a', 'ä', '€', '😀']);
    assert!(chars_of("").is_empty());
    let chars: Vec<char> = "hello".chars().collect();
    assert_eq!(string_of(&chars, 1, 4), "ell");
    assert_eq!(string_of(&chars, 2, 2), "");
    assert_eq!(string_of(&chars, 0, 5), "hello");
}

#[test]
fn deep_copy_and_equality() {
    let nested = FyfthVariant::Iter(vec![
        num(1.0),
        FyfthVariant::Iter(vec![text("a"), FyfthVariant::Nil]),
        FyfthVariant::LangFunc(3),
    ]);
    let copy = nested.clone();
    assert!(copy.same_value(&nested));
    assert!(!nested.same_value(&FyfthVariant::Iter(vec![num(1.0)])));
    let items = vec![num(1.0), num(2.0), num(3.0)];
    let part = copy_range(&items, 1, 3);
    assert_eq!(part.len(), 2);
    assert!(part[0].same_value(&num(2.0)));
    assert!(part[1].same_value(&num(3.0)));
    assert!(!FyfthVariant::Entity(1).same_value(&FyfthVariant::Component(1)));
    assert!(FyfthVariant::Entity(1).same_value(&FyfthVariant::Entity(1)));
    assert!(FyfthVariant::Component(2).same_value(&FyfthVariant::Component(2)));
    assert!(!FyfthVariant::Component(2).same_value(&FyfthVariant::Component(3)));
    assert!(FyfthVariant::FnDup.same_value(&FyfthVariant::FnDup));
    assert!(!FyfthVariant::FnDup.same_value(&FyfthVariant::FnSwap));
    assert!(!FyfthVariant::Quat(bits(0.0), bits(0.0), bits(0.0), bits(f32::NAN))
        .same_value(&FyfthVariant::Quat(bits(0.0), bits(0.0), bits(0.0), bits(f32::NAN))));
    assert!(FyfthVariant::Vec3(bits(0.0), bits(1.0), bits(2.0))
        .same_value(&FyfthVariant::Vec3(bits(-0.0), bits(1.0), bits(2.0))));
}

#[test]
fn values_and_control_words() {
    for value in [
        FyfthVariant::Nil,
        FyfthVariant::Bool(true),
        num(1.0),
        text("a"),
        FyfthVariant::Iter(vec![]),
        FyfthVariant::Entity(1),
        FyfthVariant::Vec2(bits(0.0), bits(0.0)),
        FyfthVariant::Vec3(bits(0.0), bits(0.0), bits(0.0)),
        FyfthVariant::Quat(bits(0.0), bits(0.0), bits(0.0), bits(1.0)),
        FyfthVariant::Component(1),
    ] {
        assert!(value.is_value_variant(), "{:?}", value);
    }
    for control in [
        FyfthVariant::FnIter,
        FyfthVariant::Macro,
        FyfthVariant::LineEnd,
        FyfthVariant::FnQueue,
        FyfthVariant::FnPush,
        FyfthVariant::FnDup,
        FyfthVariant::FnSwap,
        FyfthVariant::FnSwapN,
        FyfthVariant::FnRotRN,
        FyfthVariant::FnRotLN,
        FyfthVariant::LangFunc(0),
    ] {
        assert!(!control.is_value_variant(), "{:?}", control);
    }
}

#[test]
fn control_words_are_recognized() {
    let table = [
        ("nil", FyfthVariant::Nil),
        ("iter", FyfthVariant::FnIter),
        ("true", FyfthVariant::Bool(true)),
        ("false", FyfthVariant::Bool(false)),
        ("macro", FyfthVariant::Macro),
        ("queue", FyfthVariant::FnQueue),
        ("dup", FyfthVariant::FnDup),
        ("swap", FyfthVariant::FnSwap),
        (";", FyfthVariant::LineEnd),
        ("swap_n", FyfthVariant::FnSwapN),
        ("rotr", FyfthVariant::FnRotRN),
        ("rotl", FyfthVariant::FnRotLN),
        ("push", FyfthVariant::FnPush),
    ];
    for (word, expected) in table {
        assert!(parse_control_word(word).unwrap().same_value(&expected), "{}", word);
    }
    assert!(parse_control_word("Nil").is_none());
    assert!(parse_control_word("add").is_none());
    assert!(parse_control_word("").is_none());
}

#[test]
fn words_are_classified_in_order_of_priority() {
    let lang = FyfthLanguageExtension::base_fyfth();
    let word = |w: &str, n: Option<f32>| classify_word(w.to_string(), n.map(bits), &lang);
    assert!(word("12", Some(12.0)).same_value(&num(12.0)));
    assert!(word("nil", Some(3.0)).same_value(&num(3.0)));
    assert!(word("dup", None).same_value(&FyfthVariant::FnDup));
    assert!(word("get", None).same_value(&FyfthVariant::LangFunc(1)));
    assert!(word("eqq", None).same_value(&FyfthVariant::LangFunc(14)));
    assert!(word("unknown", None).same_value(&text("unknown")));
    let mut shadowing = FyfthLanguageExtension::new_empty();
    shadowing.with_command("dup", FyfthFunc::Host(0), &[]);
    assert!(classify_word("dup".to_string(), None, &shadowing).same_value(&FyfthVariant::FnDup));
}

#[test]
fn base_prefixes_expand() {
    let lang = FyfthLanguageExtension::base_fyfth();
    let load = fyfth_prefix_load("x", &lang).unwrap();
    assert_eq!(load.len(), 2);
    assert!(load[0].same_value(&text("x")));
    assert!(load[1].same_value(&FyfthVariant::LangFunc(9)));
    let queue = fyfth_prefix_queue_macro("m", &lang).unwrap();
    assert_eq!(queue.len(), 3);
    assert!(queue[2].same_value(&FyfthVariant::FnQueue));
    let fuzzy = fyfth_prefix_fuzzy_entity("cube", &lang).unwrap();
    let expected = [
        text("cube"),
        text("fuzzent"),
        FyfthVariant::LangFunc(9),
        FyfthVariant::FnQueue,
        num(0.0),
        FyfthVariant::LangFunc(18),
    ];
    assert_eq!(fuzzy.len(), 6);
    for (found, wanted) in fuzzy.iter().zip(expected.iter()) {
        assert!(found.same_value(wanted));
    }
    let empty = FyfthLanguageExtension::new_empty();
    assert!(fyfth_prefix_load("x", &empty).is_err());
    assert!(fyfth_prefix_queue_macro("x", &empty).is_err());
    assert!(fyfth_prefix_fuzzy_entity("x", &empty).is_err());
    let mut only_load = FyfthLanguageExtension::new_empty();
    only_load.with_command("load", FyfthFunc::Load, &[FyfthBroadcastBehavior::MayIter]);
    assert!(fyfth_prefix_load("x", &only_load).is_ok());
    assert!(fyfth_prefix_fuzzy_entity("x", &only_load).is_err());
}

#[test]
fn calls_are_planned() {
    let may = FyfthBroadcastBehavior::MayIter;
    let ignore = FyfthBroadcastBehavior::IgnoreIter;
    let seq = |n: usize| FyfthVariant::Iter((0..n).map(|i| num(i as f32)).collect());
    assert_eq!(plan_call(&vec![], &vec![]), FyfthPlan::Single);
    assert_eq!(plan_call(&vec![may, may], &vec![num(1.0), num(2.0)]), FyfthPlan::Single);
    assert_eq!(plan_call(&vec![ignore, ignore], &vec![seq(2), seq(3)]), FyfthPlan::Single);
    assert_eq!(plan_call(&vec![may, may], &vec![seq(3), seq(3)]), FyfthPlan::Each(3));
    assert_eq!(plan_call(&vec![may], &vec![seq(0)]), FyfthPlan::Each(0));
    assert_eq!(plan_call(&vec![ignore, may], &vec![seq(5), seq(2)]), FyfthPlan::Each(2));
    assert_eq!(
        plan_call(&vec![may, may], &vec![seq(3), seq(2)]),
        FyfthPlan::Fail(FyfthCommandError::DomainError)
    );
    assert_eq!(
        plan_call(&vec![may, may, may], &vec![seq(2), seq(2), seq(3)]),
        FyfthPlan::Fail(FyfthCommandError::DomainError)
    );
    assert_eq!(
        plan_call(&vec![may, may], &vec![seq(3), num(1.0)]),
        FyfthPlan::Fail(FyfthCommandError::TypeError)
    );
    assert_eq!(
        plan_call(&vec![may, may, may], &vec![num(1.0), seq(3), seq(2)]),
        FyfthPlan::Fail(FyfthCommandError::TypeError)
    );
}

#[test]
fn arguments_for_one_position() {
    let may = FyfthBroadcastBehavior::MayIter;
    let ignore = FyfthBroadcastBehavior::IgnoreIter;
    let args = vec![
        FyfthVariant::Iter(vec![num(1.0), num(2.0)]),
        FyfthVariant::Iter(vec![text("a"), text("b")]),
        text("same"),
    ];
    let second = broadcast_args(&vec![may, ignore, ignore], &args, 1);
    assert_eq!(second.len(), 3);
    assert!(second[0].same_value(&num(2.0)));
    assert!(second[1].same_value(&args[1]));
    assert!(second[2].same_value(&text("same")));
}

#[test]
fn replies_are_collected_in_order() {
    let collected = collect_replies(vec![Some(num(1.0)), None, Some(text("a")), None]);
    assert!(collected.same_value(&FyfthVariant::Iter(vec![num(1.0), text("a")])));
    assert!(collect_replies(vec![]).same_value(&FyfthVariant::Iter(vec![])));
    assert!(collect_replies(vec![None, None]).same_value(&FyfthVariant::Iter(vec![])));
    let all = collect_replies(vec![Some(num(1.0)), Some(num(2.0)), Some(num(3.0))]);
    assert!(all.same_value(&FyfthVariant::Iter(vec![num(1.0), num(2.0), num(3.0)])));
}

#[test]
fn captures_are_bound() {
    let mut vars = FyfthEnvironment::new();
    bind_captures(&mut vars, "none", vec![None, None]);
    assert!(vars.get("none").is_none());
    bind_captures(&mut vars, "one", vec![None, Some("x".to_string())]);
    assert!(vars.get("one").unwrap().same_value(&text("x")));
    bind_captures(&mut vars, "two", vec![Some("x".to_string()), None, Some("y".to_string())]);
    assert!(vars.get("two").unwrap().same_value(&FyfthVariant::Iter(vec![text("x"), text("y")])));
    bind_captures(&mut vars, "two", vec![]);
    assert!(vars.get("two").unwrap().same_value(&FyfthVariant::Iter(vec![text("x"), text("y")])));
}

#[test]
fn errors_of_commands_become_errors_of_runs() {
    assert_eq!(FyfthCommandError::SyntaxError.into_run_error(), FyfthError::SyntaxError);
    assert_eq!(FyfthCommandError::TypeError.into_run_error(), FyfthError::TypeError);
    assert_eq!(FyfthCommandError::DomainError.into_run_error(), FyfthError::DomainError);
}

#[test]
fn commands_accept_their_arity() {
    assert!(FyfthFunc::Add.accepts(2));
    assert!(!FyfthFunc::Add.accepts(1));
    assert!(FyfthFunc::Entities.accepts(0));
    assert!(FyfthFunc::Quat.accepts(4));
    assert!(FyfthFunc::SetValue.accepts(3));
    assert!(FyfthFunc::Host(9).accepts(0));
    assert!(FyfthFunc::Host(9).accepts(17));
    let lang = FyfthLanguageExtension::base_fyfth();
    for index in 0..lang.command_count() {
        let info = lang.command(index);
        assert!(info.func.accepts(info.broadcast_behaviors.len()), "{}", info.keyword);
    }
}
