use rfx::compile::ast::{ASTtype, AST};
use rfx::compile::parser::{init, FunctionName, ParseCheck, VariableName, VariableType};
use rfx::compile::{build_c, cfile_step, random_cfile, CfileSearch};
use rfx::compile::token::TokenType;
use rfx::option::{apply_option, parse, Flags, Notice};
use rfx::setting::{apply_setting, has_short_fractions, read_setting, Member, SettingError};

fn alphabet() -> Vec<char> {
    "0123456789abcdefghijklmnopqrstuvwxyzABCDEFGHIJKLMNOPQRSTUVWXYZ".chars().collect()
}

fn strings(v: &[&str]) -> Vec<String> {
    v.iter().map(|s| s.to_string()).collect()
}

#[test]
fn new_node_stands_above_with_nothing_below() {
    let a = AST::new();
    assert_eq!(a.tp, ASTtype::Super);
    assert_eq!(a.token.s, "");
    assert_eq!(a.token.tp, TokenType::Null);
    assert!(a.next.is_empty());
}

#[test]
fn init_knows_the_built_in_types() {
    let (types, names, functions) = init();
    let got: Vec<(String, usize)> = types.iter().map(|t| (t.name.clone(), t.size)).collect();
    let want: Vec<(String, usize)> = [
        ("i8", 1),
        ("i16", 2),
        ("i32", 4),
        ("i64", 8),
        ("u8", 1),
        ("u16", 2),
        ("u32", 4),
        ("u64", 8),
        ("bool", 1),
        ("char", 4),
    ]
    .iter()
    .map(|(n, s)| (n.to_string(), *s))
    .collect();
    assert_eq!(got, want);
    assert!(names.is_empty());
    assert!(functions.is_empty());
}

#[test]
fn names_are_found_at_their_first_place() {
    let (types, _, _) = init();
    assert_eq!("u8".to_string().is_variable_type(types), Some(4));
    let (types, _, _) = init();
    assert_eq!("i8".to_string().is_variable_type(types), Some(0));
    let (types, _, _) = init();
    assert_eq!("f32".to_string().is_variable_type(types), None);
    let int = VariableType { name: "i32".to_string(), size: 4 };
    let vars = vec![
        VariableName { name: "x".to_string(), tp: &int },
        VariableName { name: "y".to_string(), tp: &int },
        VariableName { name: "x".to_string(), tp: &int },
    ];
    assert_eq!("y".to_string().is_variable_name(vars), Some(1));
    let vars = vec![
        VariableName { name: "x".to_string(), tp: &int },
        VariableName { name: "x".to_string(), tp: &int },
    ];
    assert_eq!("x".to_string().is_variable_name(vars), Some(0));
    let funs = vec![FunctionName { name: "f".to_string(), args: Vec::new(), return_tp: &int }];
    assert_eq!("f".to_string().is_function_name(funs), Some(0));
    assert_eq!("g".to_string().is_function_name(Vec::new()), None);
}

#[test]
fn flags_are_checked_and_set_by_their_bits() {
    let mut f = Flags { bits: Flags::INIT };
    assert!(!f.check(Flags { bits: Flags::VERBOSE }));
    f.set(Flags { bits: Flags::VERBOSE }, true);
    f.set(Flags { bits: Flags::BIT64 }, true);
    assert_eq!(f.bits, 0x401);
    assert!(f.check(Flags { bits: Flags::VERBOSE }));
    assert!(f.check(Flags { bits: Flags::BIT64 }));
    assert!(f.check(Flags { bits: Flags::QUIET | Flags::VERBOSE }));
    assert!(!f.check(Flags { bits: Flags::QUIET }));
    assert!(!f.check(Flags { bits: Flags::INIT }));
    f.set(Flags { bits: Flags::VERBOSE }, false);
    assert_eq!(f.bits, 0x400);
    assert_eq!(
        [
            Flags::INIT,
            Flags::VERBOSE,
            Flags::QUIET,
            Flags::GENERATE_C,
            Flags::GENERATE_ASM,
            Flags::GENERATE_OBJ,
            Flags::GENERATE_BIN,
            Flags::CUSTOM_CC,
            Flags::CUSTOM_OUTFILE,
            Flags::BIT16,
            Flags::BIT32,
            Flags::BIT64,
        ],
        [0x0, 0x1, 0x2, 0x4, 0x8, 0x10, 0x20, 0x40, 0x80, 0x100, 0x200, 0x400]
    );
}

#[test]
fn arguments_set_flags_sources_and_compiler() {
    let args = strings(&["main.rfx", "--VERBOSE", "x", "--cc", "gcc", "--nope", "-v", "lib.rfx"]);
    let mut cc = "cc".to_string();
    let mut ofile = "a.out".to_string();
    let mut source = vec!["first.rfx".to_string()];
    let mut flag = Flags { bits: Flags::QUIET | Flags::BIT32 };
    let notices = parse(&args, &mut cc, &mut ofile, &mut source, &mut flag);
    assert_eq!(flag.bits, Flags::VERBOSE | Flags::CUSTOM_CC);
    assert_eq!(cc, "gcc");
    assert_eq!(ofile, "a.out");
    assert_eq!(source, strings(&["first.rfx", "main.rfx", "gcc", "-v", "lib.rfx"]));
    assert_eq!(notices.len(), 1);
    match &notices[0] {
        Notice::InvalidOption(a) => assert_eq!(a, "--nope"),
        Notice::MissingCc => panic!("the option is not known"),
    }
}

#[test]
fn compiler_option_without_compiler_is_noticed() {
    let args = strings(&["--cc"]);
    let mut cc = "cc".to_string();
    let mut ofile = String::new();
    let mut source = Vec::new();
    let mut flag = Flags { bits: Flags::INIT };
    let notices = parse(&args, &mut cc, &mut ofile, &mut source, &mut flag);
    assert_eq!(flag.bits, Flags::CUSTOM_CC);
    assert_eq!(cc, "cc");
    assert!(source.is_empty());
    assert_eq!(notices.len(), 1);
    assert!(matches!(notices[0], Notice::MissingCc));
}

#[test]
fn option_needs_a_first_character_of_one_byte() {
    let args = strings(&["\u{e9}-verbose", "x-verbose", "-", "a", ""]);
    let mut cc = String::new();
    let mut ofile = String::new();
    let mut source = Vec::new();
    let mut flag = Flags { bits: Flags::INIT };
    let notices = parse(&args, &mut cc, &mut ofile, &mut source, &mut flag);
    assert_eq!(flag.bits, Flags::VERBOSE);
    assert!(source.is_empty());
    assert_eq!(notices.len(), 1);
    match &notices[0] {
        Notice::InvalidOption(a) => assert_eq!(a, "\u{e9}-verbose"),
        Notice::MissingCc => panic!("the option is not known"),
    }
}

#[test]
fn verbose_clears_quiet() {
    let args = strings(&["--verbose"]);
    let mut cc = String::new();
    let mut ofile = String::new();
    let mut source = Vec::new();
    let mut flag = Flags { bits: Flags::INIT };
    parse(&args, &mut cc, &mut ofile, &mut source, &mut flag);
    assert!(flag.check(Flags { bits: Flags::VERBOSE }));
    assert!(!flag.check(Flags { bits: Flags::QUIET }));
}

#[test]
fn file_names_go_by_the_digits_of_the_seed() {
    let a = alphabet();
    assert_eq!(random_cfile(&a, 0), Some("0000000000.c".to_string()));
    assert_eq!(random_cfile(&a, 61), Some("0000000000.c".to_string()));
    assert_eq!(random_cfile(&a, 62), Some("0000000001.c".to_string()));
    assert_eq!(random_cfile(&a, 62 * 62 * 10 + 62 * 35 + 7), Some("00000000az.c".to_string()));
    assert_eq!(
        random_cfile(&a, 62usize.pow(9) - 1),
        Some("00ZZZZZZZZ.c".to_string())
    );
    assert_eq!(
        random_cfile(&a, 62usize.pow(10) - 1),
        Some("00ZZZZZZZZ.c".to_string())
    );
    assert_eq!(random_cfile(&a, 62usize.pow(10)), None);
}

#[test]
fn file_names_end_with_the_alphabet() {
    assert_eq!(random_cfile(&Vec::new(), 0), None);
    let one = vec!['x'];
    assert_eq!(random_cfile(&one, 0), Some("00xxxxxxxx.c".to_string()));
    assert_eq!(random_cfile(&one, 1), None);
    let two = vec!['a', 'b'];
    assert_eq!(random_cfile(&two, 0b10_0000_0110), Some("00aaaaaabb.c".to_string()));
    assert_eq!(random_cfile(&two, 1023), Some("00bbbbbbbb.c".to_string()));
    assert_eq!(random_cfile(&two, 1024), None);
    let wide: Vec<char> = (0..100).map(|i| char::from_u32(0x61 + (i % 26)).unwrap()).collect();
    assert!(random_cfile(&wide, usize::MAX).is_some());
}

#[test]
fn file_names_count_bytes_not_characters() {
    let a = vec!['\u{e9}', 'z'];
    assert_eq!(
        random_cfile(&a, 0),
        Some("000000\u{e9}\u{e9}\u{e9}\u{e9}.c".to_string())
    );
}

#[test]
fn settings_replace_what_they_name() {
    let mut cc = "cc".to_string();
    let mut ofile = "a.out".to_string();
    let r = read_setting(
        "{\"DEFAULT_CC\": \"clang\", \"DEFAULT_OUT_BINARY\": \"a-long-name-of-an-output-file-that-is-not-short\"}",
        &mut cc,
        &mut ofile,
    );
    assert_eq!(r, Ok(()));
    assert_eq!(cc, "clang");
    assert_eq!(ofile, "a-long-name-of-an-output-file-that-is-not-short");
    let r = read_setting("{\"DEFAULT_CC\": null, \"OTHER\": 1}", &mut cc, &mut ofile);
    assert_eq!(r, Ok(()));
    assert_eq!(cc, "clang");
    assert_eq!(ofile, "a-long-name-of-an-output-file-that-is-not-short");
}

#[test]
fn settings_that_are_no_json_change_nothing() {
    let mut cc = "cc".to_string();
    let mut ofile = "a.out".to_string();
    assert_eq!(read_setting("", &mut cc, &mut ofile), Ok(()));
    assert_eq!(read_setting("{\"DEFAULT_CC\": ", &mut cc, &mut ofile), Ok(()));
    assert_eq!(read_setting("[\"DEFAULT_CC\", \"x\"]", &mut cc, &mut ofile), Ok(()));
    assert_eq!(read_setting("\"DEFAULT_CC\"", &mut cc, &mut ofile), Ok(()));
    assert_eq!(cc, "cc");
    assert_eq!(ofile, "a.out");
}

#[test]
fn settings_that_are_no_text_are_refused() {
    let mut cc = "cc".to_string();
    let mut ofile = "a.out".to_string();
    assert_eq!(
        read_setting("{\"DEFAULT_CC\": 3, \"DEFAULT_OUT_BINARY\": true}", &mut cc, &mut ofile),
        Err(SettingError::CcNotText)
    );
    assert_eq!(
        read_setting("{\"DEFAULT_CC\": \"tcc\", \"DEFAULT_OUT_BINARY\": [1]}", &mut cc, &mut ofile),
        Err(SettingError::OutBinaryNotText)
    );
    assert_eq!(cc, "cc");
    assert_eq!(ofile, "a.out");
}

#[test]
fn members_are_applied_one_by_one() {
    let mut cc = "cc".to_string();
    let mut ofile = "a.out".to_string();
    let r = apply_setting(Member::Text("gcc".to_string()), Member::Null, &mut cc, &mut ofile);
    assert_eq!(r, Ok(()));
    assert_eq!(cc, "gcc");
    assert_eq!(ofile, "a.out");
    let r = apply_setting(Member::Null, Member::Text("out".to_string()), &mut cc, &mut ofile);
    assert_eq!(r, Ok(()));
    assert_eq!(cc, "gcc");
    assert_eq!(ofile, "out");
}

#[test]
fn members_that_are_no_text_are_refused_in_order() {
    let mut cc = "cc".to_string();
    let mut ofile = "a.out".to_string();
    assert_eq!(
        apply_setting(Member::Other, Member::Other, &mut cc, &mut ofile),
        Err(SettingError::CcNotText)
    );
    assert_eq!(
        apply_setting(Member::Other, Member::Text("o".to_string()), &mut cc, &mut ofile),
        Err(SettingError::CcNotText)
    );
    assert_eq!(
        apply_setting(Member::Text("gcc".to_string()), Member::Other, &mut cc, &mut ofile),
        Err(SettingError::OutBinaryNotText)
    );
    assert_eq!(cc, "cc");
    assert_eq!(ofile, "a.out");
}

#[test]
fn settings_with_a_fraction_of_too_many_digits_are_refused() {
    let mut cc = "cc".to_string();
    let mut ofile = "a.out".to_string();
    let long = format!("0.{}", "0".repeat(32768));
    assert_eq!(read_setting(&long, &mut cc, &mut ofile), Err(SettingError::NumberTooLong));
    let long = format!("{{\"DEFAULT_CC\": \"gcc\", \"n\": 0.{}}}", "0".repeat(40000));
    assert_eq!(read_setting(&long, &mut cc, &mut ofile), Err(SettingError::NumberTooLong));
    assert_eq!(cc, "cc");
    assert_eq!(has_short_fractions(&format!(".{}", "7".repeat(32768))), false);
    assert_eq!(has_short_fractions(&format!(".{}", "7".repeat(32767))), true);
    assert_eq!(has_short_fractions(&"7".repeat(40000)), true);
    assert_eq!(has_short_fractions(&format!("{}.{}", "1".repeat(40000), "2".repeat(32767))), true);
    assert_eq!(has_short_fractions(&format!(".a{}", "7".repeat(40000))), true);
    assert_eq!(has_short_fractions(&format!("..{}x", "7".repeat(32768))), false);
    assert_eq!(has_short_fractions(""), true);
    let most = format!("{{\"DEFAULT_CC\": \"gcc\", \"n\": 0.{}}}", "0".repeat(32767));
    assert_eq!(read_setting(&most, &mut cc, &mut ofile), Ok(()));
    assert_eq!(cc, "gcc");
    let whole = format!(
        "{{\"DEFAULT_CC\": \"{}\", \"n\": {}}}",
        "1".repeat(40000),
        "9".repeat(30000)
    );
    assert_eq!(read_setting(&whole, &mut cc, &mut ofile), Ok(()));
    assert_eq!(cc, "1".repeat(40000));
    let huge = format!("{{\"DEFAULT_CC\": \"tcc\", \"n\": {}}}", "9".repeat(40000));
    assert_eq!(read_setting(&huge, &mut cc, &mut ofile), Ok(()));
    assert_eq!(cc, "1".repeat(40000));
    assert_eq!(ofile, "a.out");
}

#[test]
fn search_for_a_file_name_goes_seed_by_seed() {
    let two = vec!['a', 'b'];
    assert_eq!(cfile_step(&two, 0, false), CfileSearch::Found);
    assert_eq!(cfile_step(&two, 1023, false), CfileSearch::Found);
    assert_eq!(cfile_step(&two, 0, true), CfileSearch::Next(1));
    assert_eq!(cfile_step(&two, 1022, true), CfileSearch::Next(1023));
    assert_eq!(cfile_step(&two, 1023, true), CfileSearch::Full);
    assert_eq!(cfile_step(&Vec::new(), 0, true), CfileSearch::Full);
    let wide: Vec<char> = (0..100).map(|i| char::from_u32(0x61 + (i % 26)).unwrap()).collect();
    assert_eq!(cfile_step(&wide, usize::MAX - 1, true), CfileSearch::Next(usize::MAX));
    assert_eq!(cfile_step(&wide, usize::MAX, true), CfileSearch::Full);

    let taken = ["00aaaaaaaa.c", "00aaaaaaab.c"];
    let mut seed = 0;
    let found = loop {
        let name = random_cfile(&two, seed).unwrap();
        match cfile_step(&two, seed, taken.contains(&name.as_str())) {
            CfileSearch::Found => break Some((seed, name)),
            CfileSearch::Next(next) => seed = next,
            CfileSearch::Full => break None,
        }
    };
    assert_eq!(found, Some((4, "00aaaaaaba.c".to_string())));
}

#[test]
fn options_set_what_their_names_say() {
    let written = "--Verbose".to_string();
    let next = "gcc".to_string();
    let verbose = "verbose".to_string();
    let cc_name = "cc".to_string();
    let other = "Verbose".to_string();

    let mut cc = "cc".to_string();
    let mut flag = Flags { bits: Flags::QUIET | Flags::BIT16 };
    let mut notices = Vec::new();
    apply_option(Some(&verbose), &written, Some(&next), &mut cc, &mut flag, &mut notices);
    assert_eq!(flag.bits, Flags::VERBOSE | Flags::BIT16);
    assert_eq!(cc, "cc");
    assert!(notices.is_empty());

    apply_option(Some(&cc_name), &written, Some(&next), &mut cc, &mut flag, &mut notices);
    assert_eq!(flag.bits, Flags::VERBOSE | Flags::BIT16 | Flags::CUSTOM_CC);
    assert_eq!(cc, "gcc");
    assert!(notices.is_empty());

    let mut flag = Flags { bits: Flags::INIT };
    apply_option(Some(&cc_name), &written, None, &mut cc, &mut flag, &mut notices);
    assert_eq!(flag.bits, Flags::CUSTOM_CC);
    assert_eq!(cc, "gcc");
    assert_eq!(notices.len(), 1);
    assert!(matches!(notices[0], Notice::MissingCc));

    apply_option(Some(&other), &written, Some(&next), &mut cc, &mut flag, &mut notices);
    apply_option(None, &written, Some(&next), &mut cc, &mut flag, &mut notices);
    assert_eq!(flag.bits, Flags::CUSTOM_CC);
    assert_eq!(cc, "gcc");
    assert_eq!(notices.len(), 3);
    for n in &notices[1..] {
        match n {
            Notice::InvalidOption(a) => assert_eq!(a, "--Verbose"),
            Notice::MissingCc => panic!("the option is not known"),
        }
    }
}

#[test]
fn building_c_does_nothing() {
    build_c("main.rfx".to_string(), "out".to_string(), "main.c".to_string());
}
